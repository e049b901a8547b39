use vstd::prelude::*;

use crate::allow::{is_permitted_attr, is_permitted_tag, permitted_attr, permitted_tag};
use crate::css::{css_run, css_tokens, fit, is_url_name, lemma_round_trip_without_urls, rewrite_css, url_free, CssToken};
use crate::deferral::{entries, numbered_from, Deferral, DeferralKind};
use crate::marker::{html_marker, html_placeholder};
use crate::text::{ascii_eq_nocase, eq_nocase, has_prefix, same_text, starts_with};

verus! {

/// What html_escape's entity decoding makes of a text.
pub uninterp spec fn entity_decoded(s: Seq<char>) -> Seq<char>;

/// Relies on html_escape's `decode_html_entities`: the text with its
/// character references replaced; the result depends on the text alone.
#[verifier::external_body]
fn decode_entities(s: &str) -> (r: String)
    ensures
        r@ == entity_decoded(s@),
{
    html_escape::decode_html_entities(s).into_owned()
}

/// A character with the Unicode White_Space property.
pub open spec fn is_white_space(c: char) -> bool {
    let u = c as u32;
    (0x09 <= u && u <= 0x0D) || u == 0x20 || u == 0x85 || u == 0xA0 || u == 0x1680 || (0x2000 <= u
        && u <= 0x200A) || u == 0x2028 || u == 0x2029 || u == 0x202F || u == 0x205F || u == 0x3000
}

/// The text without its leading white space.
pub open spec fn trim_start(s: Seq<char>) -> Seq<char>
    decreases s.len(),
{
    if s.len() > 0 && is_white_space(s[0]) {
        trim_start(s.drop_first())
    } else {
        s
    }
}

/// The text without its trailing white space.
pub open spec fn trim_end(s: Seq<char>) -> Seq<char>
    decreases s.len(),
{
    if s.len() > 0 && is_white_space(s.last()) {
        trim_end(s.drop_last())
    } else {
        s
    }
}

/// The text without leading and trailing white space.
pub open spec fn trimmed(s: Seq<char>) -> Seq<char> {
    trim_end(trim_start(s))
}

/// Relies on `str::trim`: the text without leading and trailing
/// characters of the Unicode White_Space property.
#[verifier::external_body]
fn trim(s: &str) -> (r: &str)
    ensures
        r@ == trimmed(s@),
{
    s.trim()
}

/// A text with every `<` written as the CSS escape `\3c `.
pub open spec fn lt_escaped(s: Seq<char>) -> Seq<char>
    decreases s.len(),
{
    if s.len() == 0 {
        s
    } else if s.last() == '<' {
        lt_escaped(s.drop_last()) + seq!['\\', '3', 'c', ' ']
    } else {
        lt_escaped(s.drop_last()).push(s.last())
    }
}

/// Relies on `str::replace` with a one-character pattern: every `<` is
/// replaced by `\3c `, and nothing else changes.
#[verifier::external_body]
fn escape_lt(s: &str) -> (r: String)
    ensures
        r@ == lt_escaped(s@),
{
    s.replace('<', "\\3c ")
}

/// No `<` is left in an escaped text, so it cannot close the element it
/// stands in.
pub proof fn lemma_lt_escaped_has_no_lt(s: Seq<char>)
    ensures
        forall|i: int| 0 <= i < lt_escaped(s).len() ==> #[trigger] lt_escaped(s)[i] != '<',
    decreases s.len(),
{
    if s.len() > 0 {
        let p = s.drop_last();
        lemma_lt_escaped_has_no_lt(p);
        let e = lt_escaped(s);
        assert forall|i: int| 0 <= i < e.len() implies #[trigger] e[i] != '<' by {
            if i < lt_escaped(p).len() {
                assert(e[i] == lt_escaped(p)[i]);
            }
        }
    }
}

/// An attribute of an element.
#[derive(Debug)]
pub struct Attr {
    pub name: String,
    pub value: String,
}

pub open spec fn attr_pairs(a: Seq<Attr>) -> Seq<(Seq<char>, Seq<char>)> {
    a.map_values(|x: Attr| (x.name@, x.value@))
}

/// Index of the first attribute named `n`, or the length if there is none.
pub open spec fn position(a: Seq<(Seq<char>, Seq<char>)>, n: Seq<char>) -> nat
    decreases a.len(),
{
    if a.len() == 0 {
        0
    } else if a[0].0 == n {
        0
    } else {
        1 + position(a.drop_first(), n)
    }
}

/// The value of the first attribute named `n`.
pub open spec fn lookup(a: Seq<(Seq<char>, Seq<char>)>, n: Seq<char>) -> Option<Seq<char>> {
    if position(a, n) < a.len() {
        Some(a[position(a, n) as int].1)
    } else {
        None
    }
}

/// Sets the value of the first attribute named `n`, or adds it at the end.
pub open spec fn set_attr(a: Seq<(Seq<char>, Seq<char>)>, n: Seq<char>, v: Seq<char>) -> Seq<
    (Seq<char>, Seq<char>),
> {
    if position(a, n) < a.len() {
        a.update(position(a, n) as int, (n, v))
    } else {
        a.push((n, v))
    }
}

/// The permitted attributes of `a`, in order.
pub open spec fn kept(a: Seq<(Seq<char>, Seq<char>)>) -> Seq<(Seq<char>, Seq<char>)>
    decreases a.len(),
{
    if a.len() == 0 {
        a
    } else if permitted_attr(a.last().0) {
        kept(a.drop_last()).push(a.last())
    } else {
        kept(a.drop_last())
    }
}

proof fn lemma_position(a: Seq<(Seq<char>, Seq<char>)>, n: Seq<char>, i: int)
    requires
        0 <= i <= a.len(),
        forall|j: int| 0 <= j < i ==> a[j].0 != n,
        i == a.len() || a[i].0 == n,
    ensures
        position(a, n) == i,
    decreases i,
{
    if i > 0 {
        assert(a[0].0 != n);
        lemma_position(a.drop_first(), n, i - 1);
    }
}

proof fn lemma_kept_len(a: Seq<(Seq<char>, Seq<char>)>)
    ensures
        kept(a).len() <= a.len(),
    decreases a.len(),
{
    if a.len() > 0 {
        lemma_kept_len(a.drop_last());
    }
}

/// Index of the first attribute named `n`, or the length if there is none.
fn find(attrs: &Vec<Attr>, n: &str) -> (r: usize)
    ensures
        r == position(attr_pairs(attrs@), n@),
        r <= attrs@.len(),
{
    let ghost a = attr_pairs(attrs@);
    let mut i: usize = 0;
    while i < attrs.len()
        invariant
            i <= attrs@.len(),
            a == attr_pairs(attrs@),
            forall|j: int| 0 <= j < i ==> a[j].0 != n@,
        decreases attrs@.len() - i,
    {
        if same_text(attrs[i].name.as_str(), n) {
            proof {
                lemma_position(a, n@, i as int);
            }
            return i;
        }
        i = i + 1;
    }
    proof {
        lemma_position(a, n@, i as int);
    }
    i
}

fn text_of(s: &str) -> (r: String)
    ensures
        r@ == s@,
{
    let mut r = String::new();
    r.append(s);
    assert(r@ =~= s@);
    r
}

/// Sets the value of the first attribute named `n`, or adds it at the end.
fn put_attr(attrs: &mut Vec<Attr>, n: &str, v: String)
    ensures
        attr_pairs(final(attrs)@) == set_attr(attr_pairs(old(attrs)@), n@, v@),
{
    let k = find(attrs, n);
    let a = Attr { name: text_of(n), value: v };
    if k < attrs.len() {
        attrs.set(k, a);
        assert(attr_pairs(attrs@) =~= set_attr(attr_pairs(old(attrs)@), n@, v@));
    } else {
        attrs.push(a);
        assert(attr_pairs(attrs@) =~= set_attr(attr_pairs(old(attrs)@), n@, v@));
    }
}

/// Named counts of what a rewrite removed.
#[derive(Clone, Copy, Debug, PartialEq, Eq, Structural)]
pub struct Counters {
    pub doctype_removed: u32,
    pub comment_removed: u32,
    pub script_removed: u32,
    pub invalid_tag_removed: u32,
    pub invalid_attr_removed: u32,
    pub link_no_rel_removed: u32,
    pub link_non_stylesheet_removed: u32,
    pub link_no_href_removed: u32,
    pub link_non_http_removed: u32,
    pub anchors_rewritten: u32,
    pub inline_style_skipped: u32,
    pub style_attr_skipped: u32,
}

/// A count raised by `n`, held at `u32::MAX`.
pub open spec fn bump(c: u32, n: nat) -> u32 {
    if c + n <= u32::MAX {
        (c + n) as u32
    } else {
        u32::MAX
    }
}

fn add_count(c: u32, n: usize) -> (r: u32)
    ensures
        r == bump(c, n as nat),
{
    if n as u64 <= (u32::MAX - c) as u64 {
        c + n as u32
    } else {
        u32::MAX
    }
}

pub open spec fn zero_counters() -> Counters {
    Counters {
        doctype_removed: 0,
        comment_removed: 0,
        script_removed: 0,
        invalid_tag_removed: 0,
        invalid_attr_removed: 0,
        link_no_rel_removed: 0,
        link_non_stylesheet_removed: 0,
        link_no_href_removed: 0,
        link_non_http_removed: 0,
        anchors_rewritten: 0,
        inline_style_skipped: 0,
        style_attr_skipped: 0,
    }
}

/// What a rewrite has gathered so far: the registry (kind and payload of
/// each entry), the text content, the link targets, the style text not yet
/// complete, and the counts.
pub struct Doc {
    pub found: Seq<(DeferralKind, Seq<char>)>,
    pub text: Seq<char>,
    pub links: Seq<Seq<char>>,
    pub style_buf: Seq<char>,
    pub counts: Counters,
}

/// An element on its way through the pipeline: the rewrite so far, its tag
/// and attributes as they now stand, and whether its tags will be dropped.
pub struct Work {
    pub doc: Doc,
    pub tag: Seq<char>,
    pub attrs: Seq<(Seq<char>, Seq<char>)>,
    pub unwrap: bool,
}

/// What becomes of an element.
pub enum Fate {
    Keep { tag: Seq<char>, attrs: Seq<(Seq<char>, Seq<char>)> },
    Remove,
    Unwrap,
    Replace { html: Seq<char> },
}

/// What becomes of a piece of text.
pub enum TextFate {
    Keep,
    Remove,
    Replace { html: Seq<char> },
}

pub open spec fn base_style() -> Seq<char> {
    "display: block; margin: 10px;"@
}

/// Disallowed tags are unwrapped; on other elements disallowed attributes
/// are dropped.
pub open spec fn allowlist_stage(w: Work) -> Work {
    if !permitted_tag(w.tag) {
        Work {
            doc: Doc {
                counts: Counters {
                    invalid_tag_removed: bump(w.doc.counts.invalid_tag_removed, 1),
                    ..w.doc.counts
                },
                ..w.doc
            },
            unwrap: true,
            ..w
        }
    } else {
        Work {
            doc: Doc {
                counts: Counters {
                    invalid_attr_removed: bump(
                        w.doc.counts.invalid_attr_removed,
                        (w.attrs.len() - kept(w.attrs).len()) as nat,
                    ),
                    ..w.doc.counts
                },
                ..w.doc
            },
            attrs: kept(w.attrs),
            ..w
        }
    }
}

pub open spec fn head_stage(w: Work) -> Work {
    if w.tag == "head"@ {
        Work { unwrap: true, ..w }
    } else {
        w
    }
}

/// `body` becomes `x-body`, with the base style put before its own.
pub open spec fn body_stage(w: Work) -> Work {
    if w.tag == "body"@ {
        let own = match lookup(w.attrs, "style"@) {
            Some(s) => s,
            None => Seq::empty(),
        };
        Work { tag: "x-body"@, attrs: set_attr(w.attrs, "style"@, base_style() + own), ..w }
    } else {
        w
    }
}

/// A `style` attribute is replaced by the rewrite of its decoded value,
/// whose references continue the registry.
pub open spec fn style_attr_stage(w: Work) -> Work {
    if lookup(w.attrs, "style"@) is Some {
        let n = w.doc.found.len();
        let run = css_run(n, fit(css_tokens(entity_decoded(lookup(w.attrs, "style"@)->0)), n));
        Work {
            doc: Doc { found: w.doc.found + run.found, ..w.doc },
            attrs: set_attr(w.attrs, "style"@, run.out),
            ..w
        }
    } else {
        w
    }
}

pub open spec fn style_stage(w: Work) -> Work {
    if w.tag == "style"@ {
        Work { unwrap: true, ..w }
    } else {
        w
    }
}

pub open spec fn br_stage(w: Work) -> Work {
    if w.tag == "br"@ {
        Work { doc: Doc { text: w.doc.text + "\n"@, ..w.doc }, ..w }
    } else {
        w
    }
}

/// Links open in a new context without a referrer; their decoded targets
/// are collected.
pub open spec fn anchor_stage(w: Work) -> Work {
    if (w.tag == "a"@ || w.tag == "area"@) && lookup(w.attrs, "href"@) is Some {
        Work {
            doc: Doc {
                links: w.doc.links.push(entity_decoded(lookup(w.attrs, "href"@)->0)),
                ..w.doc
            },
            attrs: set_attr(
                set_attr(w.attrs, "target"@, "_blank"@),
                "rel"@,
                "noopener noreferrer"@,
            ),
            ..w
        }
    } else {
        w
    }
}

/// The attribute `n`, decoded, is recorded as a source and replaced by its
/// placeholder; with the registry full it is emptied.
pub open spec fn source_stage(w: Work, n: Seq<char>) -> Work {
    match lookup(w.attrs, n) {
        Some(v) => {
            if w.doc.found.len() < usize::MAX {
                Work {
                    doc: Doc {
                        found: w.doc.found.push((DeferralKind::Source, entity_decoded(v))),
                        ..w.doc
                    },
                    attrs: set_attr(w.attrs, n, html_marker(DeferralKind::Source, w.doc.found.len())),
                    ..w
                }
            } else {
                Work { attrs: set_attr(w.attrs, n, Seq::empty()), ..w }
            }
        },
        None => w,
    }
}

/// A `link` survives only as the placeholder of an external stylesheet.
pub open spec fn link_stage(d: Doc, a: Seq<(Seq<char>, Seq<char>)>) -> (Doc, Fate) {
    match lookup(a, "rel"@) {
        None => (
            Doc {
                counts: Counters {
                    link_no_rel_removed: bump(d.counts.link_no_rel_removed, 1),
                    ..d.counts
                },
                ..d
            },
            Fate::Remove,
        ),
        Some(rel) => if !eq_nocase(rel, "stylesheet"@) {
            (
                Doc {
                    counts: Counters {
                        link_non_stylesheet_removed: bump(
                            d.counts.link_non_stylesheet_removed,
                            1,
                        ),
                        ..d.counts
                    },
                    ..d
                },
                Fate::Remove,
            )
        } else {
            match lookup(a, "href"@) {
                None => (
                    Doc {
                        counts: Counters {
                            link_no_href_removed: bump(d.counts.link_no_href_removed, 1),
                            ..d.counts
                        },
                        ..d
                    },
                    Fate::Remove,
                ),
                Some(href) => if !has_prefix(href, "http"@) {
                    (
                        Doc {
                            counts: Counters {
                                link_non_http_removed: bump(d.counts.link_non_http_removed, 1),
                                ..d.counts
                            },
                            ..d
                        },
                        Fate::Remove,
                    )
                } else if d.found.len() < usize::MAX {
                    (
                        Doc { found: d.found.push((DeferralKind::StyleLink, href)), ..d },
                        Fate::Replace { html: html_marker(DeferralKind::StyleLink, d.found.len()) },
                    )
                } else {
                    (d, Fate::Remove)
                },
            }
        },
    }
}

/// What the pipeline does with an element.
pub open spec fn element_step(d: Doc, tag: Seq<char>, attrs: Seq<(Seq<char>, Seq<char>)>) -> (
    Doc,
    Fate,
) {
    if tag == "script"@ {
        (
            Doc {
                counts: Counters {
                    script_removed: bump(d.counts.script_removed, 1),
                    ..d.counts
                },
                ..d
            },
            Fate::Remove,
        )
    } else {
        let w = allowlist_stage(Work { doc: d, tag, attrs, unwrap: false });
        if tag == "title"@ {
            (w.doc, Fate::Remove)
        } else if tag == "link"@ {
            link_stage(w.doc, w.attrs)
        } else {
            let w = source_stage(
                source_stage(
                    anchor_stage(br_stage(style_stage(style_attr_stage(body_stage(head_stage(w)))))),
                    "background"@,
                ),
                "src"@,
            );
            (w.doc, if w.unwrap { Fate::Unwrap } else { Fate::Keep { tag: w.tag, attrs: w.attrs } })
        }
    }
}

/// Style text: chunks are gathered, and the whole text is rewritten at its
/// last chunk, with `<` escaped so that nothing in it can end the element.
pub open spec fn style_text_step(d: Doc, chunk: Seq<char>, last: bool) -> (Doc, TextFate) {
    if !last {
        (Doc { style_buf: d.style_buf + chunk, ..d }, TextFate::Remove)
    } else {
        let n = d.found.len();
        let run = css_run(n, fit(css_tokens(d.style_buf + chunk), n));
        (
            Doc { found: d.found + run.found, style_buf: Seq::empty(), ..d },
            TextFate::Replace { html: "<style>"@ + lt_escaped(run.out) + "</style>"@ },
        )
    }
}

/// Ordinary text feeds the text content; text of whitespace alone becomes
/// one space.
pub open spec fn text_step(d: Doc, chunk: Seq<char>, is_data: bool, removed: bool) -> (
    Doc,
    TextFate,
) {
    if is_data && !removed && chunk.len() > 0 {
        if trimmed(chunk).len() > 0 {
            (Doc { text: d.text + trimmed(chunk) + " "@, ..d }, TextFate::Keep)
        } else {
            (d, TextFate::Replace { html: " "@ })
        }
    } else {
        (d, TextFate::Keep)
    }
}

/// Every attribute name in `a` is permitted.
pub open spec fn all_permitted(a: Seq<(Seq<char>, Seq<char>)>) -> bool {
    forall|i: int| 0 <= i < a.len() ==> permitted_attr(#[trigger] a[i].0)
}

proof fn lemma_position_found(a: Seq<(Seq<char>, Seq<char>)>, n: Seq<char>)
    ensures
        position(a, n) <= a.len(),
        position(a, n) < a.len() ==> a[position(a, n) as int].0 == n,
        forall|i: int| 0 <= i < position(a, n) ==> #[trigger] a[i].0 != n,
    decreases a.len(),
{
    if a.len() > 0 && a[0].0 != n {
        let t = a.drop_first();
        lemma_position_found(t, n);
        assert forall|i: int| 0 <= i < position(a, n) implies #[trigger] a[i].0 != n by {
            if i > 0 {
                assert(a[i] == t[i - 1]);
            }
        }
    }
}

/// Setting one attribute leaves the lookup of every other name as it was.
proof fn lemma_lookup_set_other(a: Seq<(Seq<char>, Seq<char>)>, n: Seq<char>, v: Seq<char>, m: Seq<char>)
    requires
        m != n,
    ensures
        lookup(set_attr(a, n, v), m) == lookup(a, m),
{
    let b = set_attr(a, n, v);
    lemma_position_found(a, n);
    lemma_position_found(a, m);
    let q = position(a, m) as int;
    assert forall|j: int| 0 <= j < q implies #[trigger] b[j].0 != m by {
        assert(a[j].0 != m);
    }
    if q < a.len() {
        lemma_position(b, m, q);
    } else if b.len() == a.len() {
        lemma_position(b, m, q);
    } else {
        assert(b[q].0 == n);
        lemma_position(b, m, q + 1);
    }
}

proof fn lemma_lookup_push(s: Seq<(Seq<char>, Seq<char>)>, e: (Seq<char>, Seq<char>), m: Seq<char>)
    ensures
        lookup(s.push(e), m) == (if lookup(s, m) is Some {
            lookup(s, m)
        } else if e.0 == m {
            Some(e.1)
        } else {
            None
        }),
{
    let b = s.push(e);
    lemma_position_found(s, m);
    let q = position(s, m) as int;
    assert forall|j: int| 0 <= j < q implies #[trigger] b[j].0 != m by {
        assert(s[j].0 != m);
    }
    if q < s.len() || e.0 == m {
        lemma_position(b, m, q);
    } else {
        lemma_position(b, m, q + 1);
    }
}

/// The allowlist filter keeps the lookup of a permitted name and leaves no
/// other name.
proof fn lemma_lookup_kept(a: Seq<(Seq<char>, Seq<char>)>, m: Seq<char>)
    ensures
        lookup(kept(a), m) == (if permitted_attr(m) {
            lookup(a, m)
        } else {
            None
        }),
    decreases a.len(),
{
    if a.len() == 0 {
        assert(position(a, m) == 0);
    } else {
        let p = a.drop_last();
        let l = a.last();
        assert(a =~= p.push(l));
        lemma_lookup_kept(p, m);
        lemma_lookup_push(p, l, m);
        if permitted_attr(l.0) {
            lemma_lookup_push(kept(p), l, m);
        }
    }
}

proof fn lemma_set_attr_names(a: Seq<(Seq<char>, Seq<char>)>, n: Seq<char>, v: Seq<char>)
    ensures
        forall|i: int|
            0 <= i < set_attr(a, n, v).len() ==> #[trigger] set_attr(a, n, v)[i].0 == n || (i
                < a.len() && set_attr(a, n, v)[i] == a[i]),
{
    lemma_position_found(a, n);
}

proof fn lemma_kept_permitted(a: Seq<(Seq<char>, Seq<char>)>)
    ensures
        all_permitted(kept(a)),
    decreases a.len(),
{
    if a.len() > 0 {
        lemma_kept_permitted(a.drop_last());
    }
}

/// A tag that may stand in the output: a permitted one, or the container
/// that `body` becomes.
pub open spec fn allowed_tag(t: Seq<char>) -> bool {
    permitted_tag(t) || t == "x-body"@
}

/// An attribute that may stand in the output: a permitted one, or the
/// `target` that links get.
pub open spec fn allowed_attr(n: Seq<char>) -> bool {
    permitted_attr(n) || n == "target"@
}

pub open spec fn attrs_allowed(a: Seq<(Seq<char>, Seq<char>)>) -> bool {
    forall|i: int| 0 <= i < a.len() ==> allowed_attr(#[trigger] a[i].0)
}

proof fn lemma_set_allowed(a: Seq<(Seq<char>, Seq<char>)>, n: Seq<char>)
    requires
        attrs_allowed(a),
        allowed_attr(n),
    ensures
        forall|v: Seq<char>| attrs_allowed(#[trigger] set_attr(a, n, v)),
{
    assert forall|v: Seq<char>| attrs_allowed(#[trigger] set_attr(a, n, v)) by {
        lemma_set_attr_names(a, n, v);
    }
}

/// An element that the pipeline keeps has an allowed tag and only allowed
/// attributes.
pub proof fn lemma_allowlist_closure(d: Doc, tag: Seq<char>, attrs: Seq<(Seq<char>, Seq<char>)>)
    ensures
        element_step(d, tag, attrs).1 matches Fate::Keep { tag: t, attrs: a } ==> allowed_tag(t)
            && attrs_allowed(a),
{
    if tag != "script"@ && tag != "title"@ && tag != "link"@ {
        let w1 = allowlist_stage(Work { doc: d, tag, attrs, unwrap: false });
        if permitted_tag(tag) {
            lemma_kept_permitted(attrs);
            assert(attrs_allowed(w1.attrs));
            lemma_set_allowed(w1.attrs, "style"@);
            let w2 = body_stage(head_stage(w1));
            lemma_set_allowed(w2.attrs, "style"@);
            let w3 = style_attr_stage(w2);
            let w4 = br_stage(style_stage(w3));
            lemma_set_allowed(w4.attrs, "target"@);
            lemma_set_allowed(set_attr(w4.attrs, "target"@, "_blank"@), "rel"@);
            let w5 = anchor_stage(w4);
            lemma_set_allowed(w5.attrs, "background"@);
            let w6 = source_stage(w5, "background"@);
            lemma_set_allowed(w6.attrs, "src"@);
        }
    }
}

/// What the pipeline adds to the text content for an element.
pub open spec fn text_added(tag: Seq<char>) -> Seq<char> {
    if tag == "br"@ {
        "\n"@
    } else {
        Seq::empty()
    }
}

/// What the pipeline adds to the link targets for an element.
pub open spec fn links_added(tag: Seq<char>, attrs: Seq<(Seq<char>, Seq<char>)>) -> Seq<Seq<char>> {
    if (tag == "a"@ || tag == "area"@) && lookup(attrs, "href"@) is Some {
        seq![entity_decoded(lookup(attrs, "href"@)->0)]
    } else {
        Seq::empty()
    }
}

proof fn lemma_names_distinct()
    ensures
        "x-body"@ != "br"@,
        "x-body"@ != "a"@,
        "x-body"@ != "area"@,
        "x-body"@ != "body"@,
        "x-body"@ != "head"@,
        "x-body"@ != "style"@,
        "x-body"@ != "script"@,
        "x-body"@ != "title"@,
        "x-body"@ != "link"@,
        "href"@ != "style"@,
        "href"@ != "target"@,
        "href"@ != "rel"@,
        "background"@ != "style"@,
        "background"@ != "target"@,
        "background"@ != "rel"@,
        "src"@ != "style"@,
        "src"@ != "target"@,
        "src"@ != "rel"@,
        "src"@ != "background"@,
        "body"@ != "br"@,
        "body"@ != "a"@,
        "body"@ != "area"@,
{
    reveal_strlit("x-body");
    reveal_strlit("br");
    reveal_strlit("a");
    reveal_strlit("area");
    reveal_strlit("body");
    reveal_strlit("head");
    reveal_strlit("style");
    reveal_strlit("script");
    reveal_strlit("title");
    reveal_strlit("link");
    reveal_strlit("href");
    reveal_strlit("target");
    reveal_strlit("rel");
    reveal_strlit("background");
    reveal_strlit("src");
    assert("x-body"@[0] != "br"@[0]);
    assert("x-body"@[0] != "body"@[0]);
    assert("src"@[1] != "style"@[1]);
    assert("href"@[0] != "target"@[0]);
    assert("href"@[0] != "rel"@[0]);
    assert("body"@[1] != "br"@[1]);
}

/// The style text of `w`, decoded, holds no URL.
pub open spec fn style_url_free(w: Work) -> bool {
    lookup(w.attrs, "style"@) is Some ==> url_free(
        css_tokens(entity_decoded(lookup(w.attrs, "style"@)->0)),
    )
}

/// An element as the `style` attribute stage finds it.
pub open spec fn styled(d: Doc, tag: Seq<char>, attrs: Seq<(Seq<char>, Seq<char>)>) -> Work {
    body_stage(head_stage(allowlist_stage(Work { doc: d, tag, attrs, unwrap: false })))
}

proof fn lemma_fit_url_free(toks: Seq<CssToken>, start: nat)
    requires
        url_free(toks),
    ensures
        url_free(fit(toks, start)),
{
    let f = fit(toks, start);
    assert(f.len() <= toks.len());
    assert forall|i: int| 0 <= i < f.len() implies !(#[trigger] f[i] is Url) && !(f[i] is Function
        && is_url_name(f[i]->Function_name@)) by {
        assert(f[i] == toks[i]);
    }
}

/// The stages after the allowlist and the `head`/`body` stages, for an
/// element without sources and with style text free of URLs: nothing is
/// recorded, and text and links grow as `text_added` and `links_added` say.
proof fn lemma_rerun_tail(w: Work)
    requires
        lookup(w.attrs, "src"@) is None,
        lookup(w.attrs, "background"@) is None,
        style_url_free(w),
    ensures
        ({
            let w3 = style_attr_stage(w);
            let w7 = source_stage(
                source_stage(anchor_stage(br_stage(style_stage(w3))), "background"@),
                "src"@,
            );
            &&& w7.doc.found == w.doc.found
            &&& w7.doc.text == w.doc.text + text_added(w.tag)
            &&& w7.doc.links == w.doc.links + links_added(w.tag, w.attrs)
            &&& w7.tag == w.tag
            &&& w7.unwrap == (w.unwrap || w.tag == "style"@)
            &&& lookup(w7.attrs, "href"@) == lookup(w.attrs, "href"@)
            &&& lookup(w7.attrs, "src"@) is None
            &&& lookup(w7.attrs, "background"@) is None
        }),
{
    lemma_names_distinct();
    let w3 = style_attr_stage(w);
    if lookup(w.attrs, "style"@) is Some {
        let n = w.doc.found.len();
        let css = fit(css_tokens(entity_decoded(lookup(w.attrs, "style"@)->0)), n);
        lemma_fit_url_free(css_tokens(entity_decoded(lookup(w.attrs, "style"@)->0)), n);
        lemma_round_trip_without_urls(n, css);
        let out = css_run(n, css).out;
        assert(w.doc.found + css_run(n, css).found =~= w.doc.found);
        lemma_lookup_set_other(w.attrs, "style"@, out, "href"@);
        lemma_lookup_set_other(w.attrs, "style"@, out, "src"@);
        lemma_lookup_set_other(w.attrs, "style"@, out, "background"@);
    }
    let w4 = br_stage(style_stage(w3));
    if w.tag == "br"@ {
        assert(w4.doc.text == w.doc.text + text_added(w.tag));
    } else {
        assert(w4.doc.text =~= w.doc.text + text_added(w.tag));
    }
    let w5 = anchor_stage(w4);
    if (w.tag == "a"@ || w.tag == "area"@) && lookup(w4.attrs, "href"@) is Some {
        let t = set_attr(w4.attrs, "target"@, "_blank"@);
        lemma_lookup_set_other(w4.attrs, "target"@, "_blank"@, "href"@);
        lemma_lookup_set_other(w4.attrs, "target"@, "_blank"@, "src"@);
        lemma_lookup_set_other(w4.attrs, "target"@, "_blank"@, "background"@);
        lemma_lookup_set_other(t, "rel"@, "noopener noreferrer"@, "href"@);
        lemma_lookup_set_other(t, "rel"@, "noopener noreferrer"@, "src"@);
        lemma_lookup_set_other(t, "rel"@, "noopener noreferrer"@, "background"@);
        assert(w5.doc.links == w.doc.links + links_added(w.tag, w.attrs));
    } else {
        assert(w5.doc.links =~= w.doc.links + links_added(w.tag, w.attrs));
    }
}

/// Running the pipeline again on an element it kept, when the element has
/// no source or background and its decoded style text holds no URL either
/// time, records nothing either time and adds the same text content and
/// the same link targets both times.
pub proof fn lemma_rerun_element(
    d: Doc,
    tag: Seq<char>,
    attrs: Seq<(Seq<char>, Seq<char>)>,
    d2: Doc,
)
    requires
        lookup(attrs, "src"@) is None,
        lookup(attrs, "background"@) is None,
        element_step(d, tag, attrs).1 is Keep,
        style_url_free(styled(d, tag, attrs)),
        style_url_free(
            styled(d2, element_step(d, tag, attrs).1->Keep_tag, element_step(d, tag, attrs).1->Keep_attrs),
        ),
    ensures
        ({
            let (d1, f) = element_step(d, tag, attrs);
            let (d3, g) = element_step(d2, f->Keep_tag, f->Keep_attrs);
            &&& d1.found == d.found
            &&& d3.found == d2.found
            &&& d1.text == d.text + text_added(tag)
            &&& d3.text == d2.text + text_added(tag)
            &&& d1.links == d.links + links_added(tag, attrs)
            &&& d3.links == d2.links + links_added(tag, attrs)
        }),
{
    lemma_names_distinct();
    let w1 = allowlist_stage(Work { doc: d, tag, attrs, unwrap: false });
    lemma_lookup_kept(attrs, "src"@);
    lemma_lookup_kept(attrs, "background"@);
    lemma_lookup_kept(attrs, "href"@);
    let w2 = body_stage(head_stage(w1));
    if tag == "body"@ {
        let own = match lookup(w1.attrs, "style"@) {
            Some(v) => v,
            None => Seq::empty(),
        };
        lemma_lookup_set_other(w1.attrs, "style"@, base_style() + own, "src"@);
        lemma_lookup_set_other(w1.attrs, "style"@, base_style() + own, "background"@);
        lemma_lookup_set_other(w1.attrs, "style"@, base_style() + own, "href"@);
    }
    assert(text_added(w2.tag) == text_added(tag));
    assert(links_added(w2.tag, w2.attrs) == links_added(tag, attrs));
    lemma_rerun_tail(w2);
    let (d1, f) = element_step(d, tag, attrs);
    let t = f->Keep_tag;
    let a = f->Keep_attrs;
    let v1 = allowlist_stage(Work { doc: d2, tag: t, attrs: a, unwrap: false });
    lemma_lookup_kept(a, "src"@);
    lemma_lookup_kept(a, "background"@);
    lemma_lookup_kept(a, "href"@);
    let v2 = body_stage(head_stage(v1));
    assert(v2.attrs == v1.attrs);
    assert(text_added(v2.tag) == text_added(tag));
    assert(links_added(v2.tag, v2.attrs) == links_added(tag, attrs));
    lemma_rerun_tail(v2);
}

/// What the pipeline adds to the text content for a piece of ordinary text.
pub open spec fn text_gathered(chunk: Seq<char>) -> Seq<char> {
    if chunk.len() > 0 && trimmed(chunk).len() > 0 {
        trimmed(chunk) + " "@
    } else {
        Seq::empty()
    }
}

/// What stands in the output for a piece of text that the pipeline kept
/// or replaced.
pub open spec fn text_written(chunk: Seq<char>, f: TextFate) -> Seq<char> {
    match f {
        TextFate::Keep => chunk,
        TextFate::Replace { html } => html,
        TextFate::Remove => Seq::empty(),
    }
}

/// Running the pipeline again on what it wrote for a piece of ordinary
/// text adds the same text content, and writes the same thing again.
pub proof fn lemma_rerun_text(d: Doc, chunk: Seq<char>, d2: Doc)
    ensures
        ({
            let (d1, f) = text_step(d, chunk, true, false);
            let again = text_written(chunk, f);
            let (d3, g) = text_step(d2, again, true, false);
            &&& d1.found == d.found
            &&& d3.found == d2.found
            &&& d1.text == d.text + text_gathered(chunk)
            &&& d3.text == d2.text + text_gathered(chunk)
            &&& text_written(again, g) == again
        }),
{
    reveal_strlit(" ");
    assert(" "@.drop_first() =~= Seq::<char>::empty());
    assert(" "@[0] == ' ');
    assert(is_white_space(' '));
    assert(trim_start(Seq::<char>::empty()) == Seq::<char>::empty());
    assert(trim_start(" "@) =~= Seq::<char>::empty());
    if !(chunk.len() > 0 && trimmed(chunk).len() > 0) {
        assert(d.text + text_gathered(chunk) =~= d.text);
        assert(d2.text + text_gathered(chunk) =~= d2.text);
    }
}

/// What to do with an element.
#[derive(Debug)]
pub enum ElementAction {
    /// Write it with this tag and these attributes.
    Keep { tag: String, attrs: Vec<Attr> },
    /// Drop it with its contents.
    Remove,
    /// Drop its tags and keep its contents.
    Unwrap,
    /// Put this HTML in its place.
    Replace { html: String },
}

impl ElementAction {
    pub open spec fn fate(&self) -> Fate {
        match self {
            ElementAction::Keep { tag, attrs } => Fate::Keep { tag: tag@, attrs: attr_pairs(attrs@) },
            ElementAction::Remove => Fate::Remove,
            ElementAction::Unwrap => Fate::Unwrap,
            ElementAction::Replace { html } => Fate::Replace { html: html@ },
        }
    }
}

/// What to do with a piece of text.
#[derive(Debug)]
pub enum TextAction {
    Keep,
    Remove,
    Replace { html: String },
}

impl TextAction {
    pub open spec fn fate(&self) -> TextFate {
        match self {
            TextAction::Keep => TextFate::Keep,
            TextAction::Remove => TextFate::Remove,
            TextAction::Replace { html } => TextFate::Replace { html: html@ },
        }
    }
}

/// The rewriter of one document, fed its nodes in document order.
pub struct HtmlRewriter {
    pub deferrals: Vec<Deferral>,
    /// Text content gathered so far, not yet decoded.
    pub text: String,
    pub page_links: Vec<String>,
    /// Style text whose last chunk has not come yet.
    pub style_buf: String,
    pub counts: Counters,
}

/// An element being worked on.
struct Pending {
    tag: String,
    attrs: Vec<Attr>,
    unwrap: bool,
}

impl HtmlRewriter {
    pub open spec fn doc(&self) -> Doc {
        Doc {
            found: entries(self.deferrals@),
            text: self.text@,
            links: self.page_links@.map_values(|s: String| s@),
            style_buf: self.style_buf@,
            counts: self.counts,
        }
    }

    /// The registry is numbered from zero without gaps.
    pub open spec fn wf(&self) -> bool {
        numbered_from(self.deferrals@, 0)
    }

    spec fn work(&self, p: Pending) -> Work {
        Work { doc: self.doc(), tag: p.tag@, attrs: attr_pairs(p.attrs@), unwrap: p.unwrap }
    }

    pub fn new() -> (r: HtmlRewriter)
        ensures
            r.wf(),
            r.doc() == (Doc {
                found: Seq::empty(),
                text: Seq::empty(),
                links: Seq::empty(),
                style_buf: Seq::empty(),
                counts: zero_counters(),
            }),
    {
        let r = HtmlRewriter {
            deferrals: Vec::new(),
            text: String::new(),
            page_links: Vec::new(),
            style_buf: String::new(),
            counts: Counters {
                doctype_removed: 0,
                comment_removed: 0,
                script_removed: 0,
                invalid_tag_removed: 0,
                invalid_attr_removed: 0,
                link_no_rel_removed: 0,
                link_non_stylesheet_removed: 0,
                link_no_href_removed: 0,
                link_non_http_removed: 0,
                anchors_rewritten: 0,
                inline_style_skipped: 0,
                style_attr_skipped: 0,
            },
        };
        assert(r.doc().found =~= Seq::empty());
        assert(r.doc().links =~= Seq::empty());
        r
    }

    /// A doctype is removed and counted.
    pub fn doctype(&mut self)
        ensures
            final(self).deferrals == old(self).deferrals,
            final(self).doc() == (Doc {
                counts: Counters {
                    doctype_removed: bump(old(self).counts.doctype_removed, 1),
                    ..old(self).counts
                },
                ..old(self).doc()
            }),
    {
        self.counts.doctype_removed = add_count(self.counts.doctype_removed, 1);
    }

    /// A comment is removed and counted.
    pub fn comment(&mut self)
        ensures
            final(self).deferrals == old(self).deferrals,
            final(self).doc() == (Doc {
                counts: Counters {
                    comment_removed: bump(old(self).counts.comment_removed, 1),
                    ..old(self).counts
                },
                ..old(self).doc()
            }),
    {
        self.counts.comment_removed = add_count(self.counts.comment_removed, 1);
    }

    /// Appends a registry entry and returns its index.
    fn record(&mut self, kind: DeferralKind, data: String) -> (i: usize)
        requires
            old(self).wf(),
            old(self).deferrals@.len() < usize::MAX,
        ensures
            final(self).wf(),
            i == old(self).deferrals@.len(),
            final(self).doc() == (Doc {
                found: old(self).doc().found.push((kind, data@)),
                ..old(self).doc()
            }),
    {
        let i = self.deferrals.len();
        self.deferrals.push(Deferral { kind, i, data });
        assert(entries(self.deferrals@) =~= entries(old(self).deferrals@).push((kind, data@)));
        i
    }

    /// Appends the entries of a CSS rewrite that began at the registry's length.
    fn take_all(&mut self, more: Vec<Deferral>)
        requires
            old(self).wf(),
            numbered_from(more@, old(self).deferrals@.len() as int),
        ensures
            final(self).wf(),
            final(self).doc() == (Doc {
                found: old(self).doc().found + entries(more@),
                ..old(self).doc()
            }),
    {
        let ghost m = more@;
        let mut more = more;
        self.deferrals.append(&mut more);
        assert(entries(self.deferrals@) =~= entries(old(self).deferrals@) + entries(m));
        assert(numbered_from(self.deferrals@, 0)) by {
            assert forall|j: int| 0 <= j < self.deferrals@.len() implies #[trigger] self.deferrals@[j].i
                == j by {
                if j >= old(self).deferrals@.len() {
                    assert(self.deferrals@[j] == m[j - old(self).deferrals@.len()]);
                }
            }
        }
    }

    fn allowlist(&mut self, p: &mut Pending)
        requires
            old(self).wf(),
        ensures
            final(self).wf(),
            final(self).work(*final(p)) == allowlist_stage(old(self).work(*old(p))),
    {
        if !is_permitted_tag(p.tag.as_str()) {
            self.counts.invalid_tag_removed = add_count(self.counts.invalid_tag_removed, 1);
            p.unwrap = true;
        } else {
            let ghost a = attr_pairs(p.attrs@);
            let mut keep: Vec<Attr> = Vec::new();
            let mut i: usize = 0;
            while i < p.attrs.len()
                invariant
                    i <= p.attrs@.len(),
                    a == attr_pairs(p.attrs@),
                    attr_pairs(keep@) == kept(a.take(i as int)),
                decreases p.attrs@.len() - i,
            {
                assert(a.take(i + 1).drop_last() =~= a.take(i as int));
                if is_permitted_attr(p.attrs[i].name.as_str()) {
                    let x = Attr { name: p.attrs[i].name.clone(), value: p.attrs[i].value.clone() };
                    keep.push(x);
                    assert(attr_pairs(keep@) =~= kept(a.take(i + 1)));
                } else {
                    assert(attr_pairs(keep@) =~= kept(a.take(i + 1)));
                }
                i = i + 1;
            }
            assert(a.take(i as int) =~= a);
            proof {
                lemma_kept_len(a);
            }
            let gone = p.attrs.len() - keep.len();
            self.counts.invalid_attr_removed = add_count(self.counts.invalid_attr_removed, gone);
            p.attrs = keep;
        }
    }

    fn link(&mut self, attrs: &Vec<Attr>) -> (r: ElementAction)
        requires
            old(self).wf(),
        ensures
            final(self).wf(),
            (final(self).doc(), r.fate()) == link_stage(old(self).doc(), attr_pairs(attrs@)),
    {
        let k = find(attrs, "rel");
        if k >= attrs.len() {
            self.counts.link_no_rel_removed = add_count(self.counts.link_no_rel_removed, 1);
            return ElementAction::Remove;
        }
        if !ascii_eq_nocase(attrs[k].value.as_str(), "stylesheet") {
            self.counts.link_non_stylesheet_removed = add_count(self.counts.link_non_stylesheet_removed, 1);
            return ElementAction::Remove;
        }
        let h = find(attrs, "href");
        if h >= attrs.len() {
            self.counts.link_no_href_removed = add_count(self.counts.link_no_href_removed, 1);
            return ElementAction::Remove;
        }
        if !starts_with(attrs[h].value.as_str(), "http") {
            self.counts.link_non_http_removed = add_count(self.counts.link_non_http_removed, 1);
            return ElementAction::Remove;
        }
        if self.deferrals.len() == usize::MAX {
            return ElementAction::Remove;
        }
        let i = self.record(DeferralKind::StyleLink, attrs[h].value.clone());
        ElementAction::Replace { html: html_placeholder(DeferralKind::StyleLink, i) }
    }

    fn head_body(&mut self, p: &mut Pending)
        ensures
            *final(self) == *old(self),
            final(self).work(*final(p)) == body_stage(head_stage(old(self).work(*old(p)))),
    {
        if same_text(p.tag.as_str(), "head") {
            p.unwrap = true;
        }
        if same_text(p.tag.as_str(), "body") {
            let k = find(&p.attrs, "style");
            let mut s = String::new();
            s.append("display: block; margin: 10px;");
            if k < p.attrs.len() {
                s.append(p.attrs[k].value.as_str());
            }
            assert(s@ =~= base_style() + match lookup(attr_pairs(p.attrs@), "style"@) {
                Some(v) => v,
                None => Seq::empty(),
            });
            put_attr(&mut p.attrs, "style", s);
            p.tag = text_of("x-body");
        }
    }

    fn style_attr(&mut self, p: &mut Pending)
        requires
            old(self).wf(),
        ensures
            final(self).wf(),
            final(self).work(*final(p)) == style_attr_stage(old(self).work(*old(p))),
    {
        let k = find(&p.attrs, "style");
        if k < p.attrs.len() {
            let v = decode_entities(p.attrs[k].value.as_str());
            let start = self.deferrals.len();
            let out = rewrite_css(v.as_str(), start);
            put_attr(&mut p.attrs, "style", out.css);
            self.take_all(out.deferrals);
        }
    }

    fn style_br(&mut self, p: &mut Pending)
        requires
            old(self).wf(),
        ensures
            final(self).wf(),
            final(self).work(*final(p)) == br_stage(style_stage(old(self).work(*old(p)))),
    {
        if same_text(p.tag.as_str(), "style") {
            p.unwrap = true;
        }
        if same_text(p.tag.as_str(), "br") {
            self.text.append("\n");
        }
    }

    fn anchor(&mut self, p: &mut Pending)
        requires
            old(self).wf(),
        ensures
            final(self).wf(),
            final(self).work(*final(p)) == anchor_stage(old(self).work(*old(p))),
    {
        if same_text(p.tag.as_str(), "a") || same_text(p.tag.as_str(), "area") {
            let k = find(&p.attrs, "href");
            if k < p.attrs.len() {
                let link = decode_entities(p.attrs[k].value.as_str());
                put_attr(&mut p.attrs, "target", text_of("_blank"));
                put_attr(&mut p.attrs, "rel", text_of("noopener noreferrer"));
                self.page_links.push(link);
                assert(self.page_links@.map_values(|s: String| s@) =~= old(self).page_links@.map_values(
                    |s: String| s@,
                ).push(link@));
            }
        }
    }

    fn source(&mut self, p: &mut Pending, n: &str)
        requires
            old(self).wf(),
        ensures
            final(self).wf(),
            final(self).work(*final(p)) == source_stage(old(self).work(*old(p)), n@),
    {
        let k = find(&p.attrs, n);
        if k < p.attrs.len() {
            if self.deferrals.len() < usize::MAX {
                let v = decode_entities(p.attrs[k].value.as_str());
                let i = self.record(DeferralKind::Source, v);
                put_attr(&mut p.attrs, n, html_placeholder(DeferralKind::Source, i));
            } else {
                put_attr(&mut p.attrs, n, String::new());
            }
        }
    }

    /// Runs an element through the pipeline and says what becomes of it.
    pub fn element(&mut self, tag: &str, attrs: Vec<Attr>) -> (r: ElementAction)
        requires
            old(self).wf(),
        ensures
            final(self).wf(),
            (final(self).doc(), r.fate()) == element_step(old(self).doc(), tag@, attr_pairs(attrs@)),
    {
        if same_text(tag, "script") {
            self.counts.script_removed = add_count(self.counts.script_removed, 1);
            assert((self.doc(), ElementAction::Remove.fate()) == element_step(
                old(self).doc(), tag@, attr_pairs(attrs@)));
            return ElementAction::Remove;
        }
        let mut p = Pending { tag: text_of(tag), attrs, unwrap: false };
        self.allowlist(&mut p);
        if same_text(tag, "title") {
            assert((self.doc(), ElementAction::Remove.fate()) == element_step(
                old(self).doc(), tag@, attr_pairs(attrs@)));
            return ElementAction::Remove;
        }
        if same_text(tag, "link") {
            let r = self.link(&p.attrs);
            assert((self.doc(), r.fate()) == element_step(
                old(self).doc(), tag@, attr_pairs(attrs@)));
            return r;
        }
        self.head_body(&mut p);
        self.style_attr(&mut p);
        self.style_br(&mut p);
        self.anchor(&mut p);
        self.source(&mut p, "background");
        self.source(&mut p, "src");
        let r = if p.unwrap {
            ElementAction::Unwrap
        } else {
            ElementAction::Keep { tag: p.tag, attrs: p.attrs }
        };
        assert((self.doc(), r.fate()) == element_step(old(self).doc(), tag@, attr_pairs(attrs@)));
        r
    }

    /// Takes a chunk of the text of a `style` element; `last` marks the
    /// chunk that ends the text.
    pub fn style_text(&mut self, chunk: &str, last: bool) -> (r: TextAction)
        requires
            old(self).wf(),
        ensures
            final(self).wf(),
            (final(self).doc(), r.fate()) == style_text_step(old(self).doc(), chunk@, last),
    {
        self.style_buf.append(chunk);
        if !last {
            assert((self.doc(), TextAction::Remove.fate()) == style_text_step(
                old(self).doc(), chunk@, last));
            return TextAction::Remove;
        }
        let start = self.deferrals.len();
        let out = rewrite_css(self.style_buf.as_str(), start);
        self.style_buf = String::new();
        let css = escape_lt(out.css.as_str());
        self.take_all(out.deferrals);
        let mut html = String::new();
        html.append("<style>");
        html.append(css.as_str());
        html.append("</style>");
        let r = TextAction::Replace { html };
        assert(html@ =~= "<style>"@ + lt_escaped(out.css@) + "</style>"@);
        assert((self.doc(), r.fate()) == style_text_step(old(self).doc(), chunk@, last));
        r
    }

    /// Takes a piece of text; `is_data` marks ordinary text, `removed` text
    /// that an earlier rule took out.
    pub fn text(&mut self, chunk: &str, is_data: bool, removed: bool) -> (r: TextAction)
        requires
            old(self).wf(),
        ensures
            final(self).wf(),
            (final(self).doc(), r.fate()) == text_step(old(self).doc(), chunk@, is_data, removed),
    {
        if is_data && !removed && !chunk.is_empty() {
            let t = trim(chunk);
            if !t.is_empty() {
                self.text.append(t);
                self.text.append(" ");
                return TextAction::Keep;
            } else {
                let mut s = String::new();
                s.append(" ");
                return TextAction::Replace { html: s };
            }
        }
        TextAction::Keep
    }

    /// Ends the rewrite of a document whose rewritten HTML is `html`; the
    /// text content is decoded here, once.
    pub fn finish(self, html: String) -> (r: Output)
        requires
            self.wf(),
        ensures
            r.html == html,
            r.text_content@ == entity_decoded(self.text@),
            r.page_links == self.page_links,
            r.deferrals == self.deferrals,
            numbered_from(r.deferrals@, 0),
            r.st_doctype_removed == self.counts.doctype_removed,
            r.st_comment_removed == self.counts.comment_removed,
            r.st_script_removed == self.counts.script_removed,
            r.st_invalid_tag_removed == self.counts.invalid_tag_removed,
            r.st_invalid_attr_removed == self.counts.invalid_attr_removed,
            r.st_link_no_rel_removed == self.counts.link_no_rel_removed,
            r.st_link_non_stylesheet_removed == self.counts.link_non_stylesheet_removed,
            r.st_link_no_href_removed == self.counts.link_no_href_removed,
            r.st_link_non_http_removed == self.counts.link_non_http_removed,
            r.st_anchors_rewritten == self.counts.anchors_rewritten,
            r.st_inline_style_skipped == self.counts.inline_style_skipped,
            r.st_style_attr_skipped == self.counts.style_attr_skipped,
    {
        let text_content = decode_entities(self.text.as_str());
        Output {
            html,
            text_content,
            page_links: self.page_links,
            deferrals: self.deferrals,
            st_doctype_removed: self.counts.doctype_removed,
            st_comment_removed: self.counts.comment_removed,
            st_script_removed: self.counts.script_removed,
            st_invalid_tag_removed: self.counts.invalid_tag_removed,
            st_invalid_attr_removed: self.counts.invalid_attr_removed,
            st_link_no_rel_removed: self.counts.link_no_rel_removed,
            st_link_non_stylesheet_removed: self.counts.link_non_stylesheet_removed,
            st_link_no_href_removed: self.counts.link_no_href_removed,
            st_link_non_http_removed: self.counts.link_non_http_removed,
            st_anchors_rewritten: self.counts.anchors_rewritten,
            st_inline_style_skipped: self.counts.inline_style_skipped,
            st_style_attr_skipped: self.counts.style_attr_skipped,
        }
    }
}

/// The result of rewriting one document.
pub struct Output {
    pub html: String,
    pub text_content: String,
    pub page_links: Vec<String>,
    pub deferrals: Vec<Deferral>,
    pub st_doctype_removed: u32,
    pub st_comment_removed: u32,
    pub st_script_removed: u32,
    pub st_invalid_tag_removed: u32,
    pub st_invalid_attr_removed: u32,
    pub st_link_no_rel_removed: u32,
    pub st_link_non_stylesheet_removed: u32,
    pub st_link_no_href_removed: u32,
    pub st_link_non_http_removed: u32,
    pub st_anchors_rewritten: u32,
    pub st_inline_style_skipped: u32,
    pub st_style_attr_skipped: u32,
}

} // verus!
