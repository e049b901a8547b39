use mailpar::css::{rewrite_css, tokenize, url_name, Bracket, CssToken, State};
use mailpar::deferral::DeferralKind;
use mailpar::marker::{css_placeholder, html_placeholder, push_decimal};

#[test]
fn unquoted_url_is_deferred() {
    let out = rewrite_css("background: url(foo.png)", 0);
    assert_eq!(out.css, "background: url(/*DEFER:UnquotedUrl:0*/)");
    assert_eq!(out.deferrals.len(), 1);
    assert_eq!(out.deferrals[0].kind, DeferralKind::UnquotedUrl);
    assert_eq!(out.deferrals[0].i, 0);
    assert_eq!(out.deferrals[0].data, "foo.png");
}

#[test]
fn quoted_string_depends_on_url_context() {
    let out = rewrite_css("a{background:url(\"x.png\");content:\"x.png\"}", 0);
    assert_eq!(out.css, "a{background:url(url(/*DEFER:QuotedUrl:0*/));content:\"x.png\"}");
    assert_eq!(out.deferrals.len(), 1);
    assert_eq!(out.deferrals[0].kind, DeferralKind::QuotedUrl);
    assert_eq!(out.deferrals[0].data, "x.png");
}

#[test]
fn quoted_string_outside_url_untouched() {
    let out = rewrite_css("content: \"a b\"", 0);
    assert_eq!(out.css, "content: \"a b\"");
    assert!(out.deferrals.is_empty());
}

#[test]
fn css_without_urls_round_trips() {
    let out = rewrite_css("a  {color:red;\n  font-family: \"Arial\"; margin: 10px #fff}", 0);
    assert_eq!(out.css, "a {color:red; font-family: \"Arial\"; margin: 10px #fff}");
    assert!(out.deferrals.is_empty());
}

#[test]
fn indices_continue_from_start() {
    let out = rewrite_css("url(a) url(b)", 5);
    assert_eq!(out.css, "url(/*DEFER:UnquotedUrl:5*/) url(/*DEFER:UnquotedUrl:6*/)");
    assert_eq!(out.deferrals.len(), 2);
    assert_eq!(out.deferrals[0].i, 5);
    assert_eq!(out.deferrals[0].data, "a");
    assert_eq!(out.deferrals[1].i, 6);
    assert_eq!(out.deferrals[1].data, "b");
}

#[test]
fn url_function_name_ignores_case() {
    let out = rewrite_css("URL(\"x\")", 0);
    assert_eq!(out.css, "URL(url(/*DEFER:QuotedUrl:0*/))");
    assert_eq!(out.deferrals[0].kind, DeferralKind::QuotedUrl);
    assert_eq!(out.deferrals[0].data, "x");
}

#[test]
fn quoted_string_in_other_function_untouched() {
    let out = rewrite_css("format(\"woff\")", 0);
    assert_eq!(out.css, "format(\"woff\")");
    assert!(out.deferrals.is_empty());
}

#[test]
fn block_closers() {
    assert_eq!(rewrite_css("[a]", 0).css, "[a}");
    assert_eq!(rewrite_css("(b)", 0).css, "(b)");
    assert_eq!(rewrite_css("{c}", 0).css, "{c}");
}

#[test]
fn empty_css() {
    let out = rewrite_css("", 0);
    assert_eq!(out.css, "");
    assert!(out.deferrals.is_empty());
}

#[test]
fn tokens_of_a_block() {
    let toks = tokenize("a (b)");
    assert_eq!(toks.len(), 5);
    assert!(matches!(&toks[0], CssToken::Other { css } if css == "a"));
    assert!(matches!(&toks[1], CssToken::Space));
    assert!(matches!(&toks[2], CssToken::Open { kind: Bracket::Round }));
    assert!(matches!(&toks[3], CssToken::Other { css } if css == "b"));
    assert!(matches!(&toks[4], CssToken::Close));
}

#[test]
fn url_names() {
    assert!(url_name("url"));
    assert!(url_name("UrL"));
    assert!(!url_name("urls"));
    assert!(!url_name("uri"));
}

#[test]
fn placeholders() {
    assert_eq!(css_placeholder(DeferralKind::Source, 1234), "/*DEFER:Source:1234*/");
    assert_eq!(html_placeholder(DeferralKind::StyleLink, 0), "<!--DEFER:StyleLink:0-->");
    let mut s = String::from("n=");
    push_decimal(&mut s, 10);
    assert_eq!(s, "n=10");
}

#[test]
fn kind_names() {
    assert_eq!(DeferralKind::StyleLink.as_str(), "StyleLink");
    assert_eq!(DeferralKind::StyleInline.as_str(), "StyleInline");
    assert_eq!(DeferralKind::StyleAttr.as_str(), "StyleAttr");
    assert_eq!(DeferralKind::Source.as_str(), "Source");
    assert_eq!(DeferralKind::ImageLink.as_str(), "ImageLink");
    assert_eq!(DeferralKind::UnquotedUrl.as_str(), "UnquotedUrl");
    assert_eq!(DeferralKind::QuotedUrl.as_str(), "QuotedUrl");
}

#[test]
fn state_numbers_from_start() {
    let mut st = State::new(3);
    st.pushstr("a:");
    let m = st.defer(DeferralKind::UnquotedUrl, "x".to_string());
    assert_eq!(m, "/*DEFER:UnquotedUrl:3*/");
    let m = st.defer(DeferralKind::QuotedUrl, "y".to_string());
    assert_eq!(m, "/*DEFER:QuotedUrl:4*/");
    let out = st.finish();
    assert_eq!(out.css, "a:");
    assert_eq!(out.deferrals.len(), 2);
    assert_eq!(out.deferrals[0].i, 3);
    assert_eq!(out.deferrals[1].i, 4);
    assert_eq!(out.deferrals[1].data, "y");
}

#[test]
fn bracket_kinds_and_nesting() {
    let toks = tokenize("[{x}]");
    assert_eq!(toks.len(), 5);
    assert!(matches!(&toks[0], CssToken::Open { kind: Bracket::Square }));
    assert!(matches!(&toks[1], CssToken::Open { kind: Bracket::Curly }));
    assert!(matches!(&toks[2], CssToken::Other { css } if css == "x"));
    assert!(matches!(&toks[3], CssToken::Close));
    assert!(matches!(&toks[4], CssToken::Close));
    assert_eq!(rewrite_css("[{x}]", 0).css, "[{x}}");
}

#[test]
fn nested_url_inside_block() {
    let out = rewrite_css("a{b:c(url(d))}", 2);
    assert_eq!(out.css, "a{b:c(url(/*DEFER:UnquotedUrl:2*/))}");
    assert_eq!(out.deferrals.len(), 1);
    assert_eq!(out.deferrals[0].i, 2);
    assert_eq!(out.deferrals[0].data, "d");
}
