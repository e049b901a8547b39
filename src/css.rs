use vstd::prelude::*;

use cssparser::{ParseError, Parser, ToCss, Token};

use crate::deferral::{entries, numbered_from, Deferral, DeferralKind};
use crate::marker::{css_marker, css_placeholder};
use crate::text::{ascii_is, char_is};

verus! {

/// One token of a CSS text, as the rewriter sees it. The contents of a
/// block follow its opening token and end with `Close`.
#[derive(Debug)]
pub enum CssToken {
    /// A run of whitespace.
    Space,
    /// A quoted string: its value and its serialisation.
    Quoted { value: String, css: String },
    /// An unquoted `url(...)`: its value.
    Url { value: String },
    /// The start of a function: its name and its serialisation (`name(`).
    Function { name: String, css: String },
    /// `(`, `[` or `{`.
    Open { kind: Bracket },
    /// The end of the innermost open block.
    Close,
    /// Any other token, serialised.
    Other { css: String },
}

/// The bracket that opens a block.
#[derive(Clone, Copy, Debug, PartialEq, Eq, Structural)]
pub enum Bracket {
    Round,
    Square,
    Curly,
}

/// How a bracket is written.
pub open spec fn opener(b: Bracket) -> Seq<char> {
    match b {
        Bracket::Round => "("@,
        Bracket::Square => "["@,
        Bracket::Curly => "{"@,
    }
}

/// A block is closed by `)` when it was opened by `(` or a function, and
/// by `}` otherwise, a square bracket included.
pub open spec fn closes_round(b: Bracket) -> bool {
    b == Bracket::Round
}

impl CssToken {
    pub open spec fn spec_opens_block(&self) -> bool {
        self is Function || self is Open
    }

    pub fn opens_block(&self) -> (r: bool)
        ensures
            r == self.spec_opens_block(),
    {
        match self {
            CssToken::Function { .. } => true,
            CssToken::Open { .. } => true,
            _ => false,
        }
    }
}

/// The result of rewriting one CSS text.
pub struct Output {
    pub css: String,
    pub deferrals: Vec<Deferral>,
}

/// Where a rewrite stands: the text written so far, the references found
/// so far (kind and payload), and the blocks open, innermost last, each as
/// (closed by `)`, directly inside `url(`).
pub struct CssRun {
    pub out: Seq<char>,
    pub found: Seq<(DeferralKind, Seq<char>)>,
    pub blocks: Seq<(bool, bool)>,
}

/// A function name that equals `url` without regard to case.
pub open spec fn is_url_name(name: Seq<char>) -> bool {
    &&& name.len() == 3
    &&& ascii_is(name[0], 'u')
    &&& ascii_is(name[1], 'r')
    &&& ascii_is(name[2], 'l')
}

/// The innermost open block is the argument list of `url(`.
pub open spec fn in_url(blocks: Seq<(bool, bool)>) -> bool {
    blocks.len() > 0 && blocks.last().1
}

pub open spec fn closer(round: bool) -> Seq<char> {
    if round { ")"@ } else { "}"@ }
}

/// Records a reference and writes `url(<placeholder>)` in its place.
pub open spec fn defer_step(start: nat, r: CssRun, k: DeferralKind, data: Seq<char>) -> CssRun {
    CssRun {
        out: r.out + "url("@ + css_marker(k, start + r.found.len()) + ")"@,
        found: r.found.push((k, data)),
        blocks: r.blocks,
    }
}

pub open spec fn write_step(r: CssRun, s: Seq<char>) -> CssRun {
    CssRun { out: r.out + s, found: r.found, blocks: r.blocks }
}

/// What one token does to a rewrite.
pub open spec fn css_step(start: nat, r: CssRun, t: CssToken) -> CssRun {
    match t {
        CssToken::Space => write_step(r, " "@),
        CssToken::Quoted { value, css } => {
            if in_url(r.blocks) {
                defer_step(start, r, DeferralKind::QuotedUrl, value@)
            } else {
                write_step(r, css@)
            }
        },
        CssToken::Url { value } => defer_step(start, r, DeferralKind::UnquotedUrl, value@),
        CssToken::Function { name, css } => CssRun {
            out: r.out + css@,
            found: r.found,
            blocks: r.blocks.push((true, is_url_name(name@))),
        },
        CssToken::Open { kind } => CssRun {
            out: r.out + opener(kind),
            found: r.found,
            blocks: r.blocks.push((closes_round(kind), false)),
        },
        CssToken::Close => {
            if r.blocks.len() > 0 {
                CssRun {
                    out: r.out + closer(r.blocks.last().0),
                    found: r.found,
                    blocks: r.blocks.drop_last(),
                }
            } else {
                r
            }
        },
        CssToken::Other { css } => write_step(r, css@),
    }
}

pub open spec fn empty_run() -> CssRun {
    CssRun { out: Seq::empty(), found: Seq::empty(), blocks: Seq::empty() }
}

/// The rewrite of a token stream whose first reference gets index `start`.
pub open spec fn css_run(start: nat, toks: Seq<CssToken>) -> CssRun
    decreases toks.len(),
{
    if toks.len() == 0 {
        empty_run()
    } else {
        css_step(start, css_run(start, toks.drop_last()), toks.last())
    }
}

/// `out` is the rewrite of `toks`, with indices from `start`.
pub open spec fn rewrites(out: Output, start: nat, toks: Seq<CssToken>) -> bool {
    &&& out.css@ == css_run(start, toks).out
    &&& entries(out.deferrals@) == css_run(start, toks).found
    &&& numbered_from(out.deferrals@, start as int)
}

/// The writer threaded through a rewrite.
pub struct State {
    pub output: String,
    pub deferrals: Vec<Deferral>,
    /// Index of the first reference this rewrite records.
    pub start: usize,
    /// The blocks open, innermost last: (closed by `)`, inside `url(`).
    pub blocks: Vec<(bool, bool)>,
}

impl State {
    pub open spec fn run(&self) -> CssRun {
        CssRun { out: self.output@, found: entries(self.deferrals@), blocks: self.blocks@ }
    }

    pub open spec fn wf(&self) -> bool {
        numbered_from(self.deferrals@, self.start as int)
    }

    pub fn new(start: usize) -> (r: State)
        ensures
            r.wf(),
            r.start == start,
            r.deferrals@.len() == 0,
            r.run() == empty_run(),
    {
        let r = State { output: String::new(), deferrals: Vec::new(), start, blocks: Vec::new() };
        assert(r.run().found =~= Seq::empty());
        r
    }

    pub fn pushstr(&mut self, s: &str)
        ensures
            final(self).output@ == old(self).output@ + s@,
            final(self).deferrals == old(self).deferrals,
            final(self).start == old(self).start,
            final(self).blocks == old(self).blocks,
    {
        self.output.append(s);
    }

    /// Records a reference and returns its placeholder.
    pub fn defer(&mut self, kind: DeferralKind, data: String) -> (r: String)
        requires
            old(self).wf(),
            old(self).start + old(self).deferrals@.len() < usize::MAX,
        ensures
            final(self).wf(),
            r@ == css_marker(kind, (old(self).start + old(self).deferrals@.len()) as nat),
            final(self).deferrals@ == old(self).deferrals@.push(
                Deferral { kind, i: (old(self).start + old(self).deferrals@.len()) as usize, data },
            ),
            final(self).output == old(self).output,
            final(self).start == old(self).start,
            final(self).blocks == old(self).blocks,
    {
        let i = self.start + self.deferrals.len();
        self.deferrals.push(Deferral { kind, i, data });
        css_placeholder(kind, i)
    }

    /// Records a reference and writes `url(<placeholder>)`.
    fn defer_url(&mut self, kind: DeferralKind, data: String)
        requires
            old(self).wf(),
            old(self).start + old(self).deferrals@.len() < usize::MAX,
        ensures
            final(self).wf(),
            final(self).start == old(self).start,
            final(self).deferrals@.len() == old(self).deferrals@.len() + 1,
            final(self).run() == defer_step(old(self).start as nat, old(self).run(), kind, data@),
    {
        let ghost before = self.run();
        let m = self.defer(kind, data);
        self.pushstr("url(");
        self.pushstr(m.as_str());
        self.pushstr(")");
        assert(self.run().found =~= before.found.push((kind, data@)));
        assert(self.run().out =~= defer_step(self.start as nat, before, kind, data@).out);
    }

    /// Feeds one token to the rewrite.
    pub fn feed(&mut self, t: &CssToken)
        requires
            old(self).wf(),
            old(self).start + old(self).deferrals@.len() < usize::MAX,
        ensures
            final(self).wf(),
            final(self).start == old(self).start,
            final(self).deferrals@.len() <= old(self).deferrals@.len() + 1,
            final(self).run() == css_step(old(self).start as nat, old(self).run(), *t),
    {
        let ghost before = self.run();
        match t {
            CssToken::Space => {
                self.pushstr(" ");
            },
            CssToken::Quoted { value, css } => {
                let n = self.blocks.len();
                if n > 0 && self.blocks[n - 1].1 {
                    self.defer_url(DeferralKind::QuotedUrl, value.clone());
                } else {
                    self.pushstr(css.as_str());
                }
            },
            CssToken::Url { value } => {
                self.defer_url(DeferralKind::UnquotedUrl, value.clone());
            },
            CssToken::Function { name, css } => {
                self.pushstr(css.as_str());
                let u = url_name(name.as_str());
                self.blocks.push((true, u));
            },
            CssToken::Open { kind } => {
                match kind {
                    Bracket::Round => self.pushstr("("),
                    Bracket::Square => self.pushstr("["),
                    Bracket::Curly => self.pushstr("{"),
                }
                self.blocks.push((*kind == Bracket::Round, false));
            },
            CssToken::Close => {
                match self.blocks.pop() {
                    Some((true, _)) => self.pushstr(")"),
                    Some((false, _)) => self.pushstr("}"),
                    None => {},
                }
            },
            CssToken::Other { css } => {
                self.pushstr(css.as_str());
            },
        }
        assert(self.run().out =~= css_step(self.start as nat, before, *t).out);
        assert(self.run().blocks =~= css_step(self.start as nat, before, *t).blocks);
    }

    pub fn finish(self) -> (r: Output)
        ensures
            r.css == self.output,
            r.deferrals == self.deferrals,
    {
        Output { css: self.output, deferrals: self.deferrals }
    }
}

/// Whether a function name equals `url` without regard to case.
pub fn url_name(name: &str) -> (r: bool)
    ensures
        r == is_url_name(name@),
{
    if name.unicode_len() != 3 {
        return false;
    }
    char_is(name.get_char(0), 'u') && char_is(name.get_char(1), 'r')
        && char_is(name.get_char(2), 'l')
}

/// Rewrites a token stream; the first reference found gets index `start`.
pub fn rewrite_tokens(toks: &Vec<CssToken>, start: usize) -> (r: Output)
    requires
        start + toks@.len() <= usize::MAX,
    ensures
        rewrites(r, start as nat, toks@),
{
    let mut st = State::new(start);
    let mut i: usize = 0;
    while i < toks.len()
        invariant
            i <= toks@.len(),
            start + toks@.len() <= usize::MAX,
            st.wf(),
            st.start == start,
            st.deferrals@.len() <= i,
            st.run() == css_run(start as nat, toks@.take(i as int)),
        decreases toks@.len() - i,
    {
        assert(toks@.take(i + 1).drop_last() =~= toks@.take(i as int));
        st.feed(&toks[i]);
        i = i + 1;
    }
    assert(toks@.take(i as int) =~= toks@);
    st.finish()
}

/// No token of the stream refers to a URL: no unquoted `url(...)` and no
/// function named `url`.
pub open spec fn url_free(toks: Seq<CssToken>) -> bool {
    forall|i: int|
        0 <= i < toks.len() ==> !(#[trigger] toks[i] is Url) && !(toks[i] is Function
            && is_url_name(toks[i]->Function_name@))
}

/// A token stream written back token by token, each whitespace run as one
/// space and each block's end as the closer of its block; the second part
/// holds the blocks left open (closed by `)`).
pub open spec fn serialized(toks: Seq<CssToken>) -> (Seq<char>, Seq<bool>)
    decreases toks.len(),
{
    if toks.len() == 0 {
        (Seq::empty(), Seq::empty())
    } else {
        let (o, b) = serialized(toks.drop_last());
        match toks.last() {
            CssToken::Space => (o + " "@, b),
            CssToken::Quoted { css, .. } => (o + css@, b),
            CssToken::Url { value } => (o + "url("@ + value@ + ")"@, b),
            CssToken::Function { css, .. } => (o + css@, b.push(true)),
            CssToken::Open { kind } => (o + opener(kind), b.push(closes_round(kind))),
            CssToken::Close => if b.len() > 0 {
                (o + closer(b.last()), b.drop_last())
            } else {
                (o, b)
            },
            CssToken::Other { css } => (o + css@, b),
        }
    }
}

/// CSS without URLs comes back token for token, with whitespace runs as
/// single spaces, and nothing is recorded.
pub proof fn lemma_round_trip_without_urls(start: nat, toks: Seq<CssToken>)
    requires
        url_free(toks),
    ensures
        css_run(start, toks).out == serialized(toks).0,
        css_run(start, toks).found.len() == 0,
    decreases toks.len(),
{
    lemma_url_free_blocks(start, toks);
}

proof fn lemma_url_free_blocks(start: nat, toks: Seq<CssToken>)
    requires
        url_free(toks),
    ensures
        css_run(start, toks).out == serialized(toks).0,
        css_run(start, toks).found.len() == 0,
        css_run(start, toks).blocks.len() == serialized(toks).1.len(),
        forall|i: int|
            0 <= i < css_run(start, toks).blocks.len() ==> #[trigger] css_run(start, toks).blocks[i]
                == (serialized(toks).1[i], false),
    decreases toks.len(),
{
    if toks.len() > 0 {
        let pre = toks.drop_last();
        assert forall|i: int| 0 <= i < pre.len() implies !(#[trigger] pre[i] is Url) && !(pre[i] is Function
            && is_url_name(pre[i]->Function_name@)) by {
            assert(pre[i] == toks[i]);
        }
        lemma_url_free_blocks(start, pre);
        let r = css_run(start, pre);
        let t = toks.last();
        assert(toks[toks.len() - 1] == t);
        let (o, b) = serialized(pre);
        match t {
            CssToken::Close => {
                if b.len() > 0 {
                    assert(r.blocks.last() == (b.last(), false));
                    assert(css_run(start, toks).blocks =~= r.blocks.drop_last());
                    assert(serialized(toks).1 =~= b.drop_last());
                }
            },
            CssToken::Function { .. } => {
                assert(css_run(start, toks).blocks =~= r.blocks.push((true, false)));
            },
            CssToken::Open { kind } => {
                assert(css_run(start, toks).blocks =~= r.blocks.push((closes_round(kind), false)));
            },
            CssToken::Quoted { .. } => {
                if r.blocks.len() > 0 {
                    assert(r.blocks.last() == r.blocks[r.blocks.len() - 1]);
                }
            },
            _ => {},
        }
    }
}

/// A quoted string directly inside `url(` is recorded as a quoted URL and
/// only its placeholder is written; anywhere else it is written back as it
/// stood and nothing is recorded.
pub proof fn lemma_quoted_string_context(
    start: nat,
    pre: Seq<CssToken>,
    value: String,
    css: String,
)
    ensures
        ({
            let before = css_run(start, pre);
            let after = css_run(start, pre.push(CssToken::Quoted { value, css }));
            if in_url(before.blocks) {
                &&& after.found == before.found.push((DeferralKind::QuotedUrl, value@))
                &&& after.out == before.out + "url("@ + css_marker(
                    DeferralKind::QuotedUrl,
                    start + before.found.len(),
                ) + ")"@
            } else {
                &&& after.found == before.found
                &&& after.out == before.out + css@
            }
        }),
{
    assert(pre.push(CssToken::Quoted { value, css }).drop_last() =~= pre);
}

/// A function opens the URL context exactly when its name is `url`, in any
/// case, and a block opened inside it leaves that context.
pub proof fn lemma_url_context_opens(
    start: nat,
    pre: Seq<CssToken>,
    name: String,
    css: String,
    inner: CssToken,
)
    requires
        inner.spec_opens_block(),
    ensures
        in_url(css_run(start, pre.push(CssToken::Function { name, css })).blocks) == is_url_name(name@),
        inner is Function && !is_url_name(inner->Function_name@) || inner is Open ==> !in_url(
            css_run(start, pre.push(CssToken::Function { name, css }).push(inner)).blocks,
        ),
{
    let p1 = pre.push(CssToken::Function { name, css });
    assert(p1.drop_last() =~= pre);
    assert(p1.push(inner).drop_last() =~= p1);
}

#[verifier::external_type_specification]
#[verifier::external_body]
pub struct ExParser<'i>(Parser<'i>);

/// Whether the token a parser returned last opened a block whose contents
/// it can now be asked to parse.
pub uninterp spec fn block_opened(p: Parser) -> bool;

/// The tokens a parser has yet to yield in its current block, comments
/// left out: a function or bracket token is followed by the contents of its
/// block, then `Close`. A block nested too deep for the parser has no
/// contents here.
pub uninterp spec fn remaining(p: Parser) -> Seq<CssToken>;

/// The tokens cssparser reads from a CSS text, in the form of `remaining`;
/// they depend on the text alone.
pub uninterp spec fn css_tokens(css: Seq<char>) -> Seq<CssToken>;

/// Relies on cssparser's `Parser::new`: a parser at the start of `css`,
/// inside no block.
#[verifier::external_body]
fn new_parser<'i>(css: &'i str) -> (r: Parser<'i>)
    ensures
        !block_opened(r),
        remaining(r) == css_tokens(css@),
{
    Parser::new(css)
}

/// Relies on cssparser's `Parser::next_including_whitespace`: the next
/// token of the current block, comments skipped, or `None` at its end; a
/// function or bracket token leaves the parser at the start of that block.
#[verifier::external_body]
fn next_token(p: &mut Parser) -> (r: Option<CssToken>)
    ensures
        block_opened(*final(p)) == (r matches Some(t) && t.spec_opens_block()),
        !block_opened(*old(p)) ==> if remaining(*old(p)).len() == 0 {
            r is None && remaining(*final(p)).len() == 0
        } else {
            r == Some(remaining(*old(p))[0]) && remaining(*final(p)) == remaining(
                *old(p),
            ).drop_first()
        },
{
    match p.next_including_whitespace() {
        Err(_) => None,
        Ok(t) => Some(match t {
            Token::WhiteSpace(_) => CssToken::Space,
            Token::QuotedString(s) => CssToken::Quoted { value: s.to_string(), css: t.to_css_string() },
            Token::UnquotedUrl(s) => CssToken::Url { value: s.to_string() },
            Token::Function(s) => CssToken::Function { name: s.to_string(), css: t.to_css_string() },
            Token::ParenthesisBlock => CssToken::Open { kind: Bracket::Round },
            Token::SquareBracketBlock => CssToken::Open { kind: Bracket::Square },
            Token::CurlyBracketBlock => CssToken::Open { kind: Bracket::Curly },
            _ => CssToken::Other { css: t.to_css_string() },
        }),
    }
}

/// Relies on cssparser's `Parser::parse_nested_block`, which panics unless
/// a block was just opened. It runs the closure at most once (not at all
/// past its nesting limit), on the parser narrowed to the block's contents
/// with no block pending, so `collect` appends those contents; the parser
/// then stands after the block.
#[verifier::external_body]
fn read_block(p: &mut Parser, out: &mut Vec<CssToken>)
    requires
        block_opened(*old(p)),
    ensures
        old(out)@.len() <= final(out)@.len(),
        final(out)@.take(old(out)@.len() as int) == old(out)@,
        remaining(*old(p)) == final(out)@.skip(old(out)@.len() as int) + seq![CssToken::Close]
            + remaining(*final(p)),
        !block_opened(*final(p)),
{
    let _ = p.parse_nested_block(|q| -> Result<(), ParseError<()>> { Ok(collect(q, out)) });
}

/// Appends the tokens left in the parser's current block to `out`, and
/// leaves the parser at the block's end.
pub fn collect(p: &mut Parser, out: &mut Vec<CssToken>)
    requires
        !block_opened(*old(p)),
    ensures
        final(out)@ == old(out)@ + remaining(*old(p)),
        remaining(*final(p)).len() == 0,
        !block_opened(*final(p)),
{
    let ghost first = out@;
    let ghost all = remaining(*p);
    loop
        invariant
            !block_opened(*p),
            out@ + remaining(*p) == first + all,
        ensures
            !block_opened(*p),
            out@ + remaining(*p) == first + all,
            remaining(*p).len() == 0,
        decreases remaining(*p).len(),
    {
        let ghost rest = remaining(*p);
        match next_token(p) {
            None => break,
            Some(t) => {
                let opens = t.opens_block();
                out.push(t);
                assert(rest =~= seq![t] + remaining(*p));
                assert(out@ + remaining(*p) =~= first + all);
                if opens {
                    let ghost before = out@;
                    let ghost inside = remaining(*p);
                    read_block(p, out);
                    let ghost added = out@.skip(before.len() as int);
                    assert(out@ =~= before + added);
                    out.push(CssToken::Close);
                    assert(out@ + remaining(*p) =~= before + inside);
                }
            },
        }
    }
    assert(remaining(*p) =~= Seq::empty());
    assert(out@ =~= first + all);
}

/// The tokens of a CSS text.
pub fn tokenize(css: &str) -> (r: Vec<CssToken>)
    ensures
        r@ == css_tokens(css@),
{
    let mut p = new_parser(css);
    let mut out = Vec::new();
    collect(&mut p, &mut out);
    assert(out@ =~= css_tokens(css@));
    out
}

/// The tokens that a rewrite starting at index `start` takes: all of them,
/// unless their count would carry an index past `usize::MAX`.
pub open spec fn fit(toks: Seq<CssToken>, start: nat) -> Seq<CssToken> {
    if start + toks.len() <= usize::MAX {
        toks
    } else if start <= usize::MAX {
        toks.take(usize::MAX - start)
    } else {
        Seq::empty()
    }
}

/// Rewrites a CSS text: every `url(...)` becomes a placeholder and is
/// recorded, the first with index `start`; whitespace runs become one space
/// and every other token is written back as it stood.
pub fn rewrite_css(css: &str, start: usize) -> (r: Output)
    ensures
        rewrites(r, start as nat, fit(css_tokens(css@), start as nat)),
        numbered_from(r.deferrals@, start as int),
{
    let mut toks = tokenize(css);
    if toks.len() > usize::MAX - start {
        toks.truncate(usize::MAX - start);
    }
    rewrite_tokens(&toks, start)
}

} // verus!
