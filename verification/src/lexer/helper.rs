//! Character classes the lexer scans by.

use vstd::prelude::*;

verus! {

/// Identifier characters: ASCII letters and the underscore.
pub open spec fn is_letter_spec(c: char) -> bool {
    ||| (97 <= c as int && c as int <= 122)
    ||| (65 <= c as int && c as int <= 90)
    ||| c == '_'
}

/// Decimal digit characters.
pub open spec fn is_digit_spec(c: char) -> bool {
    48 <= c as int && c as int <= 57
}

/// Characters that may stand inside a string literal: anything but the
/// terminator and the closing quote.
pub open spec fn is_str_char_spec(c: char) -> bool {
    c != '\0' && c != '"'
}

/// Whether `c` is an identifier character.
pub fn is_letter(c: char) -> (r: bool)
    ensures
        r == is_letter_spec(c),
{
    let u = c as u32;
    (97 <= u && u <= 122) || (65 <= u && u <= 90) || c == '_'
}

/// Whether `c` is a decimal digit.
pub fn is_digit(c: char) -> (r: bool)
    ensures
        r == is_digit_spec(c),
{
    let u = c as u32;
    48 <= u && u <= 57
}

/// Whether `c` may stand inside a string literal.
pub fn is_str_char(c: char) -> (r: bool)
    ensures
        r == is_str_char_spec(c),
{
    c != '\0' && c != '"'
}

} // verus!
