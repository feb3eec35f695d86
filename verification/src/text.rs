//! Text helpers shared by the parsers: ASCII upper-casing, comparison,
//! trimming and splitting at spaces.

use vstd::prelude::*;

verus! {

/// The ASCII upper-case form of a character: `a`-`z` become `A`-`Z`, every
/// other character stays as it is.
pub open spec fn upper_char(c: char) -> char {
    if 'a' <= c && c <= 'z' {
        ((c as u32 - 32) as u8) as char
    } else {
        c
    }
}

/// The ASCII upper-case form of a text, character by character.
pub open spec fn upper(t: Seq<char>) -> Seq<char> {
    Seq::new(t.len(), |i: int| upper_char(t[i]))
}

/// `str::to_ascii_uppercase`.
///
/// Trusted: the result has the same characters as the input, with each ASCII
/// lower-case letter replaced by its upper-case form.
#[verifier::external_body]
pub(crate) fn to_ascii_uppercase(s: &str) -> (r: String)
    ensures
        r@ == upper(s@),
{
    s.to_ascii_uppercase()
}

/// Equality of two string slices (`==` on `str`).
///
/// Trusted: two slices are equal exactly when they hold the same characters.
#[verifier::external_body]
pub(crate) fn same_text(a: &str, b: &str) -> (r: bool)
    ensures
        r == (a@ == b@),
{
    a == b
}

/// What `str::trim` leaves of a text: the text without the white space at
/// its two ends, white space being what Unicode marks as such.
pub uninterp spec fn trimmed(t: Seq<char>) -> Seq<char>;

/// The pieces of a text between its spaces, from left to right. A text
/// with `n` spaces has `n + 1` pieces, some of which may be empty.
pub open spec fn pieces(t: Seq<char>) -> Seq<Seq<char>>
    decreases t.len(),
{
    if t.len() == 0 {
        seq![Seq::empty()]
    } else if t[0] == ' ' {
        seq![Seq::empty()] + pieces(t.drop_first())
    } else {
        pieces(t.drop_first()).update(0, seq![t[0]] + pieces(t.drop_first())[0])
    }
}

/// `str::trim`.
///
/// Trusted: the result depends on the characters of the text alone.
#[verifier::external_body]
pub(crate) fn trim(s: &str) -> (r: &str)
    ensures
        r@ == trimmed(s@),
{
    s.trim()
}

/// `str::split` at the space character, each piece as a string of its own.
///
/// Trusted: the call yields the substrings between the spaces of the text,
/// from left to right, empty ones included.
#[verifier::external_body]
pub(crate) fn split_at_spaces(s: &str) -> (r: Vec<String>)
    ensures
        r@.len() == pieces(s@).len(),
        forall|i: int| 0 <= i < r@.len() ==> (#[trigger] r@[i])@ == pieces(s@)[i],
{
    s.split(' ').map(|piece| piece.to_string()).collect()
}

/// Every text has at least one piece.
pub proof fn lemma_pieces_exist(t: Seq<char>)
    ensures
        pieces(t).len() >= 1,
    decreases t.len(),
{
    if t.len() > 0 {
        lemma_pieces_exist(t.drop_first());
    }
}

} // verus!
