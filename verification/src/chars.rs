//! Character classification for the scanner.
//!
//! The scanner classifies characters with the standard library's Unicode
//! predicates. Within the ASCII range those predicates are stated exactly;
//! above it their outcome is given a name, so every contract downstream is a
//! function of the source text alone.

use vstd::prelude::*;

verus! {

/// Whether `char::is_alphanumeric` holds of a character above the ASCII range.
pub uninterp spec fn wide_alphanumeric(c: char) -> bool;

/// Whether `char::is_numeric` holds of a character above the ASCII range.
pub uninterp spec fn wide_numeric(c: char) -> bool;

/// Whether `char::is_whitespace` holds of a character above the ASCII range.
pub uninterp spec fn wide_whitespace(c: char) -> bool;

/// An ASCII decimal digit.
pub open spec fn ascii_digit(c: char) -> bool {
    0x30 <= c as u32 && c as u32 <= 0x39
}

/// An ASCII letter.
pub open spec fn ascii_letter(c: char) -> bool {
    (0x61 <= c as u32 && c as u32 <= 0x7a) || (0x41 <= c as u32 && c as u32 <= 0x5a)
}

/// What `char::is_alphanumeric` returns: within ASCII, exactly the letters
/// and the decimal digits.
pub open spec fn alphanumeric_char(c: char) -> bool {
    ascii_digit(c) || ascii_letter(c) || (c as u32 >= 0x80 && wide_alphanumeric(c))
}

/// What `char::is_numeric` returns: within ASCII, exactly the decimal digits.
pub open spec fn numeric_char(c: char) -> bool {
    ascii_digit(c) || (c as u32 >= 0x80 && wide_numeric(c))
}

/// What `char::is_whitespace` returns: within ASCII, exactly the space and
/// the five whitespace control characters.
pub open spec fn whitespace_char(c: char) -> bool {
    c == ' ' || c == '\t' || c == '\n' || c as u32 == 0x0b || c as u32 == 0x0c || c == '\r' || (
    c as u32 >= 0x80 && wide_whitespace(c))
}

/// The identifier class: any alphanumeric character or an underscore.
pub open spec fn alpha_model(c: char) -> bool {
    alphanumeric_char(c) || c == '_'
}

/// The identifier-continuation class: the identifier class or any numeric
/// character.
pub open spec fn alphanumeric_model(c: char) -> bool {
    alpha_model(c) || numeric_char(c)
}

/// Relies on char::is_alphanumeric: true exactly for the Unicode alphabetic
/// and numeric characters, which within ASCII are the letters and digits.
#[verifier::external_body]
fn char_is_alphanumeric(c: char) -> (r: bool)
    ensures
        r == alphanumeric_char(c),
        c as u32 >= 0x80 ==> r == wide_alphanumeric(c),
{
    c.is_alphanumeric()
}

/// Relies on char::is_numeric: true exactly for the Unicode numeric
/// characters, which within ASCII are the decimal digits.
#[verifier::external_body]
pub(crate) fn char_is_numeric(c: char) -> (r: bool)
    ensures
        r == numeric_char(c),
        c as u32 >= 0x80 ==> r == wide_numeric(c),
{
    c.is_numeric()
}

/// Relies on char::is_whitespace: true exactly for the Unicode `White_Space`
/// characters, which within ASCII are the space, tab, line feed, vertical
/// tab, form feed and carriage return.
#[verifier::external_body]
pub(crate) fn char_is_whitespace(c: char) -> (r: bool)
    ensures
        r == whitespace_char(c),
        c as u32 >= 0x80 ==> r == wide_whitespace(c),
{
    c.is_whitespace()
}

/// Whether `c` may start an identifier: alphanumeric or an underscore.
pub fn is_alpha(c: char) -> (r: bool)
    ensures
        r == alpha_model(c),
{
    char_is_alphanumeric(c) || c == '_'
}

/// Whether `c` may continue an identifier.
pub fn is_alphanumeric(c: char) -> (r: bool)
    ensures
        r == alphanumeric_model(c),
{
    is_alpha(c) || char_is_numeric(c)
}

/// Whether `c` is a numeric character.
pub fn is_digit(c: char) -> (r: bool)
    ensures
        r == numeric_char(c),
{
    char_is_numeric(c)
}

/// Relies on String's from-iterator collection: the string holds exactly the
/// characters of `v`, in order.
#[verifier::external_body]
pub(crate) fn chars_to_string(v: &Vec<char>) -> (s: String)
    ensures
        s@ == v@,
{
    v.iter().collect()
}

} // verus!
