//! Characters: the classes that the lexer tells apart.
use vstd::prelude::*;

verus! {

/// Whether a character has the Unicode property `Alphabetic`, as
/// `char::is_alphabetic` reports it.
pub uninterp spec fn alphabetic(ch: char) -> bool;

/// Whether a character is one of the Unicode numeric characters, as
/// `char::is_alphanumeric` counts them.
pub uninterp spec fn numeric(ch: char) -> bool;

/// Alphabetic or numeric.
pub open spec fn alphanumeric(ch: char) -> bool {
    alphabetic(ch) || numeric(ch)
}

/// Whether a character has the Unicode property `White_Space`, as
/// `char::is_whitespace` reports it.
pub uninterp spec fn whitespace(ch: char) -> bool;

/// One of the ten ASCII digits.
pub open spec fn ascii_digit(ch: char) -> bool {
    '0' <= ch <= '9'
}

/// `char::is_alphabetic` depends on the character alone.
pub assume_specification[ char::is_alphabetic ](ch: char) -> (r: bool)
    ensures
        r == alphabetic(ch),
;

/// `char::is_alphanumeric` holds of the characters that are alphabetic or
/// numeric.
pub assume_specification[ char::is_alphanumeric ](ch: char) -> (r: bool)
    ensures
        r == (alphabetic(ch) || numeric(ch)),
;

/// `char::is_whitespace` depends on the character alone.
pub assume_specification[ char::is_whitespace ](ch: char) -> (r: bool)
    ensures
        r == whitespace(ch),
;

/// `char::is_ascii_digit` holds of `'0'` to `'9'` and of nothing else.
pub assume_specification[ char::is_ascii_digit ](ch: &char) -> (r: bool)
    ensures
        r == ascii_digit(*ch),
;

/// The characters of a text, in order.
pub fn chars_of(text: &str) -> (chars: Vec<char>)
    ensures
        chars@ == text@,
{
    let mut chars: Vec<char> = Vec::new();
    for ch in it: text.chars()
        invariant
            chars@ == it.seq().take(it.index() as int),
            it.seq() == text@,
    {
        chars.push(ch);
        assert(it.seq().take(it.index() + 1) =~= it.seq().take(it.index() as int).push(ch));
    }
    assert(chars@ =~= text@);
    chars
}

} // verus!
