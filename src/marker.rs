use vstd::prelude::*;

use crate::deferral::{kind_name, DeferralKind};

verus! {

/// The character of a decimal digit.
pub open spec fn digit_char(d: nat) -> char {
    if d == 0 { '0' }
    else if d == 1 { '1' }
    else if d == 2 { '2' }
    else if d == 3 { '3' }
    else if d == 4 { '4' }
    else if d == 5 { '5' }
    else if d == 6 { '6' }
    else if d == 7 { '7' }
    else if d == 8 { '8' }
    else { '9' }
}

/// The decimal notation of `n`, without leading zeros.
pub open spec fn decimal(n: nat) -> Seq<char>
    decreases n,
{
    if n < 10 {
        seq![digit_char(n)]
    } else {
        decimal(n / 10).push(digit_char(n % 10))
    }
}

/// The body of a placeholder: `Kind:index`.
pub open spec fn marker_body(k: DeferralKind, i: nat) -> Seq<char> {
    kind_name(k) + ":"@ + decimal(i)
}

/// The placeholder written into CSS text.
pub open spec fn css_marker(k: DeferralKind, i: nat) -> Seq<char> {
    "/*DEFER:"@ + marker_body(k, i) + "*/"@
}

/// The placeholder written into HTML.
pub open spec fn html_marker(k: DeferralKind, i: nat) -> Seq<char> {
    "<!--DEFER:"@ + marker_body(k, i) + "-->"@
}

fn digit_str(d: usize) -> (r: &'static str)
    requires
        d < 10,
    ensures
        r@ == seq![digit_char(d as nat)],
{
    proof {
        reveal_strlit("0");
        reveal_strlit("1");
        reveal_strlit("2");
        reveal_strlit("3");
        reveal_strlit("4");
        reveal_strlit("5");
        reveal_strlit("6");
        reveal_strlit("7");
        reveal_strlit("8");
        reveal_strlit("9");
    }
    if d == 0 { "0" }
    else if d == 1 { "1" }
    else if d == 2 { "2" }
    else if d == 3 { "3" }
    else if d == 4 { "4" }
    else if d == 5 { "5" }
    else if d == 6 { "6" }
    else if d == 7 { "7" }
    else if d == 8 { "8" }
    else {
        assert("9"@ =~= seq!['9']);
        "9"
    }
}

/// Appends the decimal notation of `n` to `out`.
pub fn push_decimal(out: &mut String, n: usize)
    ensures
        final(out)@ == old(out)@ + decimal(n as nat),
    decreases n,
{
    if n >= 10 {
        push_decimal(out, n / 10);
    }
    out.append(digit_str(n % 10));
    proof {
        if n >= 10 {
            assert(decimal(n as nat) == decimal((n / 10) as nat).push(digit_char((n % 10) as nat)));
        }
    }
    assert(final(out)@ =~= old(out)@ + decimal(n as nat));
}

/// Appends `Kind:index` to `out`.
fn push_body(out: &mut String, k: DeferralKind, i: usize)
    ensures
        final(out)@ == old(out)@ + marker_body(k, i as nat),
{
    out.append(k.as_str());
    out.append(":");
    push_decimal(out, i);
    assert(final(out)@ =~= old(out)@ + marker_body(k, i as nat));
}

/// The placeholder for entry `i` of kind `k`, in CSS syntax.
pub fn css_placeholder(k: DeferralKind, i: usize) -> (r: String)
    ensures
        r@ == css_marker(k, i as nat),
{
    let mut s = String::new();
    s.append("/*DEFER:");
    push_body(&mut s, k, i);
    s.append("*/");
    assert(s@ =~= css_marker(k, i as nat));
    s
}

/// The placeholder for entry `i` of kind `k`, in HTML syntax.
pub fn html_placeholder(k: DeferralKind, i: usize) -> (r: String)
    ensures
        r@ == html_marker(k, i as nat),
{
    let mut s = String::new();
    s.append("<!--DEFER:");
    push_body(&mut s, k, i);
    s.append("-->");
    assert(s@ =~= html_marker(k, i as nat));
    s
}

} // verus!
