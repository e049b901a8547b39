use mailpar::deferral::DeferralKind;
use mailpar::html::{Attr, ElementAction, HtmlRewriter, TextAction};

fn attr(name: &str, value: &str) -> Attr {
    Attr { name: name.to_string(), value: value.to_string() }
}

fn pairs(attrs: &[Attr]) -> Vec<(String, String)> {
    attrs.iter().map(|a| (a.name.clone(), a.value.clone())).collect()
}

fn kept(action: ElementAction) -> (String, Vec<(String, String)>) {
    match action {
        ElementAction::Keep { tag, attrs } => (tag, pairs(&attrs)),
        other => panic!("element not kept: {:?}", other),
    }
}

fn own(v: &[(&str, &str)]) -> Vec<(String, String)> {
    v.iter().map(|(a, b)| (a.to_string(), b.to_string())).collect()
}

#[test]
fn script_is_removed_and_text_kept() {
    let mut rw = HtmlRewriter::new();
    assert!(matches!(rw.element("script", vec![]), ElementAction::Remove));
    assert!(matches!(rw.text("x", false, true), TextAction::Keep));
    assert_eq!(kept(rw.element("p", vec![])), ("p".to_string(), vec![]));
    assert!(matches!(rw.text("Hi", true, false), TextAction::Keep));
    let out = rw.finish("<p>Hi</p>".to_string());
    assert_eq!(out.text_content, "Hi ");
    assert_eq!(out.st_script_removed, 1);
    assert_eq!(out.st_invalid_tag_removed, 0);
}

#[test]
fn stylesheet_link_becomes_placeholder() {
    let mut rw = HtmlRewriter::new();
    let a = rw.element("link", vec![attr("rel", "stylesheet"), attr("href", "http://a/b.css")]);
    assert!(matches!(a, ElementAction::Replace { html } if html == "<!--DEFER:StyleLink:0-->"));
    let out = rw.finish(String::new());
    assert_eq!(out.deferrals.len(), 1);
    assert_eq!(out.deferrals[0].kind, DeferralKind::StyleLink);
    assert_eq!(out.deferrals[0].i, 0);
    assert_eq!(out.deferrals[0].data, "http://a/b.css");
}

#[test]
fn links_that_are_dropped() {
    let mut rw = HtmlRewriter::new();
    assert!(matches!(rw.element("link", vec![attr("href", "http://a")]), ElementAction::Remove));
    assert!(matches!(
        rw.element("link", vec![attr("rel", "icon"), attr("href", "http://a")]),
        ElementAction::Remove
    ));
    assert!(matches!(rw.element("link", vec![attr("rel", "StyleSheet")]), ElementAction::Remove));
    assert!(matches!(
        rw.element("link", vec![attr("rel", "stylesheet"), attr("href", "ftp://a")]),
        ElementAction::Remove
    ));
    let a = rw.element("link", vec![attr("rel", "STYLESHEET"), attr("href", "https://a")]);
    assert!(matches!(a, ElementAction::Replace { .. }));
    let out = rw.finish(String::new());
    assert_eq!(out.st_link_no_rel_removed, 1);
    assert_eq!(out.st_link_non_stylesheet_removed, 1);
    assert_eq!(out.st_link_no_href_removed, 1);
    assert_eq!(out.st_link_non_http_removed, 1);
    assert_eq!(out.deferrals.len(), 1);
}

#[test]
fn style_attribute_continues_registry() {
    let mut rw = HtmlRewriter::new();
    let (_, a) = kept(rw.element("img", vec![attr("src", "a.png")]));
    assert_eq!(a, own(&[("src", "<!--DEFER:Source:0-->")]));
    let (tag, a) = kept(rw.element("div", vec![attr("style", "background:url('x.png')")]));
    assert_eq!(tag, "div");
    assert_eq!(a, own(&[("style", "background:url(url(/*DEFER:QuotedUrl:1*/))")]));
    let out = rw.finish(String::new());
    assert_eq!(out.deferrals.len(), 2);
    assert_eq!(out.deferrals[1].kind, DeferralKind::QuotedUrl);
    assert_eq!(out.deferrals[1].i, 1);
    assert_eq!(out.deferrals[1].data, "x.png");
}

#[test]
fn style_attribute_is_decoded_first() {
    let mut rw = HtmlRewriter::new();
    let (_, a) = kept(rw.element("p", vec![attr("style", "font-family:&quot;A&quot;")]));
    assert_eq!(a, own(&[("style", "font-family:\"A\"")]));
}

#[test]
fn body_becomes_container() {
    let mut rw = HtmlRewriter::new();
    let (tag, a) = kept(rw.element("body", vec![attr("bgcolor", "red")]));
    assert_eq!(tag, "x-body");
    assert_eq!(a, own(&[("bgcolor", "red"), ("style", "display: block; margin: 10px;")]));
    let (tag, a) = kept(rw.element("body", vec![attr("style", "color:red")]));
    assert_eq!(tag, "x-body");
    assert_eq!(a, own(&[("style", "display: block; margin: 10px;color:red")]));
}

#[test]
fn disallowed_tag_is_unwrapped() {
    let mut rw = HtmlRewriter::new();
    assert!(matches!(rw.element("iframe", vec![attr("src", "http://x")]), ElementAction::Unwrap));
    assert!(matches!(rw.element("head", vec![]), ElementAction::Unwrap));
    assert!(matches!(rw.element("style", vec![]), ElementAction::Unwrap));
    assert!(matches!(rw.element("title", vec![]), ElementAction::Remove));
    let out = rw.finish(String::new());
    assert_eq!(out.st_invalid_tag_removed, 2);
    assert_eq!(out.deferrals.len(), 1);
    assert_eq!(out.deferrals[0].kind, DeferralKind::Source);
}

#[test]
fn disallowed_attributes_are_dropped() {
    let mut rw = HtmlRewriter::new();
    let (_, a) = kept(rw.element("div", vec![attr("onclick", "x()"), attr("id", "y"), attr("data-z", "1")]));
    assert_eq!(a, own(&[("id", "y")]));
    let out = rw.finish(String::new());
    assert_eq!(out.st_invalid_attr_removed, 2);
}

#[test]
fn anchors_open_apart_and_are_collected() {
    let mut rw = HtmlRewriter::new();
    let (_, a) = kept(rw.element("a", vec![attr("href", "http://x/?a=1&amp;b=2"), attr("rel", "nofollow")]));
    assert_eq!(
        a,
        own(&[("href", "http://x/?a=1&amp;b=2"), ("rel", "noopener noreferrer"), ("target", "_blank")])
    );
    let (_, a) = kept(rw.element("a", vec![attr("name", "top")]));
    assert_eq!(a, own(&[("name", "top")]));
    let (_, a) = kept(rw.element("area", vec![attr("href", "http://y")]));
    assert_eq!(a, own(&[("href", "http://y"), ("target", "_blank"), ("rel", "noopener noreferrer")]));
    let out = rw.finish(String::new());
    assert_eq!(out.page_links, vec!["http://x/?a=1&b=2".to_string(), "http://y".to_string()]);
}

#[test]
fn sources_and_backgrounds_are_deferred() {
    let mut rw = HtmlRewriter::new();
    let (_, a) = kept(rw.element("img", vec![attr("src", "http://x/a.png?x=1&amp;y=2"), attr("alt", "p")]));
    assert_eq!(a, own(&[("src", "<!--DEFER:Source:0-->"), ("alt", "p")]));
    let (_, a) = kept(rw.element("td", vec![attr("background", "bg.png"), attr("src", "s.png")]));
    assert_eq!(a, own(&[("background", "<!--DEFER:Source:1-->"), ("src", "<!--DEFER:Source:2-->")]));
    let out = rw.finish(String::new());
    assert_eq!(out.deferrals[0].data, "http://x/a.png?x=1&y=2");
    assert_eq!(out.deferrals[1].data, "bg.png");
    assert_eq!(out.deferrals[2].data, "s.png");
}

#[test]
fn text_content_is_gathered() {
    let mut rw = HtmlRewriter::new();
    assert!(matches!(rw.text("  Hi  ", true, false), TextAction::Keep));
    kept(rw.element("br", vec![]));
    assert!(matches!(rw.text(" \n ", true, false), TextAction::Replace { html } if html == " "));
    assert!(matches!(rw.text("", true, false), TextAction::Keep));
    assert!(matches!(rw.text("a &amp; b", true, false), TextAction::Keep));
    assert!(matches!(rw.text("gone", true, true), TextAction::Keep));
    assert!(matches!(rw.text("raw", false, false), TextAction::Keep));
    let out = rw.finish(String::new());
    assert_eq!(out.text_content, "Hi \na & b ");
}

#[test]
fn style_text_is_rewritten_whole() {
    let mut rw = HtmlRewriter::new();
    assert!(matches!(rw.style_text("a{background:", false), TextAction::Remove));
    let a = rw.style_text("url(x.png)}", true);
    assert!(
        matches!(a, TextAction::Replace { html } if html == "<style>a{background:url(/*DEFER:UnquotedUrl:0*/)}</style>")
    );
    let a = rw.style_text("b{}", true);
    assert!(matches!(a, TextAction::Replace { html } if html == "<style>b{}</style>"));
    let out = rw.finish(String::new());
    assert_eq!(out.deferrals.len(), 1);
    assert_eq!(out.deferrals[0].data, "x.png");
}

#[test]
fn doctype_and_comments_are_counted() {
    let mut rw = HtmlRewriter::new();
    rw.doctype();
    rw.comment();
    rw.comment();
    let out = rw.finish(String::new());
    assert_eq!(out.st_doctype_removed, 1);
    assert_eq!(out.st_comment_removed, 2);
    assert_eq!(out.st_anchors_rewritten, 0);
    assert_eq!(out.st_inline_style_skipped, 0);
    assert_eq!(out.st_style_attr_skipped, 0);
}

#[test]
fn registry_indices_have_no_gaps() {
    let mut rw = HtmlRewriter::new();
    rw.element("link", vec![attr("rel", "stylesheet"), attr("href", "http://a")]);
    rw.element("img", vec![attr("src", "b")]);
    rw.element("div", vec![attr("style", "a:url(c) url(\"d\")")]);
    rw.style_text("e{f:url(g)}", true);
    rw.element("img", vec![attr("src", "h")]);
    let out = rw.finish(String::new());
    let idx: Vec<usize> = out.deferrals.iter().map(|d| d.i).collect();
    assert_eq!(idx, vec![0, 1, 2, 3, 4, 5]);
}

#[test]
fn kept_elements_carry_permitted_names() {
    let mut rw = HtmlRewriter::new();
    let (tag, a) = kept(rw.element("table", vec![attr("onload", "x"), attr("class", "c"), attr("width", "1")]));
    assert_eq!(tag, "table");
    assert_eq!(a, own(&[("class", "c"), ("width", "1")]));
}

#[test]
fn rerun_on_output_adds_nothing() {
    let mut first = HtmlRewriter::new();
    let (tag, a) = kept(first.element("a", vec![attr("href", "http://x"), attr("style", "color:red")]));
    let again: Vec<Attr> = a.iter().map(|(n, v)| attr(n, v)).collect();
    let mut second = HtmlRewriter::new();
    let (tag2, a2) = kept(second.element(&tag, again));
    assert_eq!(tag2, tag);
    let (mut sorted, mut sorted2) = (a.clone(), a2.clone());
    sorted.sort();
    sorted2.sort();
    assert_eq!(sorted2, sorted);
    let one = first.finish(String::new());
    let two = second.finish(String::new());
    assert!(one.deferrals.is_empty());
    assert!(two.deferrals.is_empty());
    assert_eq!(one.page_links, two.page_links);
    assert_eq!(one.text_content, two.text_content);
}

#[test]
fn style_text_cannot_close_its_element() {
    let mut rw = HtmlRewriter::new();
    let a = rw.style_text("a{content:\"\\3c /style><b>\"}", true);
    assert!(
        matches!(a, TextAction::Replace { html } if html == "<style>a{content:\"\\3c /style>\\3c b>\"}</style>")
    );
}

#[test]
fn unicode_white_space_is_trimmed() {
    let mut rw = HtmlRewriter::new();
    assert!(matches!(rw.text("\u{a0}Hi\u{3000}", true, false), TextAction::Keep));
    assert!(matches!(rw.text("\u{2003}\t", true, false), TextAction::Replace { html } if html == " "));
    let out = rw.finish(String::new());
    assert_eq!(out.text_content, "Hi ");
}
