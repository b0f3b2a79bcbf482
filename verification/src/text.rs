//! Plain-text helpers for the renderer: decimal numbering, stripping of
//! terminal styling sequences, and the user-perceived character count that
//! sizes the separator line.

use vstd::prelude::*;

verus! {

/// The decimal digit character for one digit value.
pub open spec fn digit_char(d: nat) -> char
    recommends
        d < 10,
{
    "0123456789"@[d as int]
}

/// The decimal rendering of a number: most significant digit first, no
/// leading zeroes (a single zero for zero itself).
pub open spec fn dec_rep(n: nat) -> Seq<char>
    decreases n,
{
    if n < 10 {
        seq![digit_char(n)]
    } else {
        dec_rep(n / 10).push(digit_char(n % 10))
    }
}

/// Renders a number in decimal.
pub fn dec_str(n: usize) -> (r: String)
    ensures
        r@ == dec_rep(n as nat),
    decreases n,
{
    let digits = "0123456789";
    proof {
        reveal_strlit("0123456789");
    }
    if n < 10 {
        let d = digits.substring_char(n, n + 1);
        let r = d.to_owned();
        proof {
            assert(r@ =~= dec_rep(n as nat));
        }
        r
    } else {
        let mut r = dec_str(n / 10);
        let d = digits.substring_char(n % 10, n % 10 + 1);
        r.append(d);
        proof {
            assert(r@ =~= dec_rep(n as nat));
        }
        r
    }
}

/// The position of the first `'m'` in a text, provided no newline comes
/// before it: the characters a styling sequence may span.
pub open spec fn first_m(s: Seq<char>) -> Option<nat>
    decreases s.len(),
{
    if s.len() == 0 {
        None
    } else if s[0] == 'm' {
        Some(0nat)
    } else if s[0] == '\n' {
        None
    } else {
        match first_m(s.drop_first()) {
            Some(k) => Some((k + 1) as nat),
            None => None,
        }
    }
}

proof fn lemma_first_m_in_bounds(s: Seq<char>)
    ensures
        first_m(s) is Some ==> first_m(s)->Some_0 < s.len(),
    decreases s.len(),
{
    if s.len() == 0 || s[0] == 'm' || s[0] == '\n' {
    } else {
        lemma_first_m_in_bounds(s.drop_first());
    }
}

/// A text with every terminal styling sequence removed: each shortest run
/// that starts with escape-bracket and ends at the next `'m'` (newlines
/// never belong to such a run) is dropped; all other characters stay, in
/// order.
pub open spec fn strip_styling(s: Seq<char>) -> Seq<char>
    decreases s.len(),
    via strip_styling_decreases
{
    if s.len() == 0 {
        Seq::empty()
    } else if s.len() >= 2 && s[0] == '\x1b' && s[1] == '[' && first_m(s.skip(2)) is Some {
        strip_styling(s.skip(2 + first_m(s.skip(2))->Some_0 as int + 1))
    } else {
        seq![s[0]] + strip_styling(s.drop_first())
    }
}

#[via_fn]
proof fn strip_styling_decreases(s: Seq<char>) {
    if s.len() >= 2 && s[0] == '\x1b' && s[1] == '[' && first_m(s.skip(2)) is Some {
        lemma_first_m_in_bounds(s.skip(2));
    }
}

/// Relies on `regex::Regex::replace_all` with the pattern `\x1b\[.*?m`:
/// removes every shortest escape-bracket-to-`m` run (`.` does not match a
/// newline), leaving the other characters in order.
#[verifier::external_body]
pub(crate) fn strip_ansi(s: &str) -> (r: String)
    ensures
        r@ == strip_styling(s@),
{
    let re = regex::Regex::new(r"\x1b\[.*?m").unwrap();
    re.replace_all(s, "").into_owned()
}

/// The number of user-perceived characters (extended grapheme clusters) in
/// a text; combining marks count with their base character. The count
/// depends on the characters alone.
pub uninterp spec fn graphemes_of(s: Seq<char>) -> nat;

/// Relies on `unicode_segmentation::UnicodeSegmentation::graphemes` with
/// extended clusters: yields one item per user-perceived character.
#[verifier::external_body]
pub(crate) fn grapheme_count(s: &str) -> (n: usize)
    ensures
        n as nat == graphemes_of(s@),
{
    unicode_segmentation::UnicodeSegmentation::graphemes(s, true).count()
}

/// The visible length of a styled line: the count of user-perceived
/// characters left once every styling sequence is stripped.
pub fn visible_width(line: &str) -> (n: usize)
    ensures
        n as nat == graphemes_of(strip_styling(line@)),
{
    let stripped = strip_ansi(line);
    grapheme_count(stripped.as_str())
}

} // verus!
