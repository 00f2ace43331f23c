//! Character classes of the assembly language.
//!
//! Every function here is executable and may also be used in
//! specifications, where it stands for the value it returns.

use vstd::prelude::*;

verus! {

/// The character that the lexers see once the source is exhausted.
pub const END_CHAR: char = '\0';

/// Space, tab, line feed or carriage return.
#[verifier::allow_in_spec]
pub fn is_whitespace(c: char) -> bool
    returns
        c == ' ' || c == '\t' || c == '\n' || c == '\r',
{
    c == ' ' || c == '\t' || c == '\n' || c == '\r'
}

/// Line feed or carriage return: either one starts a new line.
#[verifier::allow_in_spec]
pub fn is_newline(c: char) -> bool
    returns
        c == '\n' || c == '\r',
{
    c == '\n' || c == '\r'
}

/// An ASCII letter of either case.
#[verifier::allow_in_spec]
pub fn is_letter(c: char) -> bool
    returns
        ('a' <= c && c <= 'z') || ('A' <= c && c <= 'Z'),
{
    (c >= 'a' && c <= 'z') || (c >= 'A' && c <= 'Z')
}

/// A decimal digit.
#[verifier::allow_in_spec]
pub fn is_digit(c: char) -> bool
    returns
        '0' <= c && c <= '9',
{
    c >= '0' && c <= '9'
}

/// A hexadecimal digit of either case.
#[verifier::allow_in_spec]
pub fn is_hex_digit(c: char) -> bool
    returns
        ('0' <= c && c <= '9') || ('a' <= c && c <= 'f') || ('A' <= c && c <= 'F'),
{
    (c >= '0' && c <= '9') || (c >= 'a' && c <= 'f') || (c >= 'A' && c <= 'F')
}

/// A binary digit.
#[verifier::allow_in_spec]
pub fn is_bin_digit(c: char) -> bool
    returns
        c == '0' || c == '1',
{
    c == '0' || c == '1'
}

/// Whether `c` is a digit in the given radix, for the radixes 2, 10 and 16.
#[verifier::allow_in_spec]
pub fn is_digit_in(c: char, radix: u8) -> bool
    returns
        if radix == 2 {
            is_bin_digit(c)
        } else if radix == 10 {
            is_digit(c)
        } else {
            is_hex_digit(c)
        },
{
    if radix == 2 {
        is_bin_digit(c)
    } else if radix == 10 {
        is_digit(c)
    } else {
        is_hex_digit(c)
    }
}

/// The upper-case form of an ASCII letter; any other character is unchanged.
#[verifier::allow_in_spec]
pub fn to_upper(c: char) -> char
    returns
        if 'a' <= c && c <= 'z' {
            ((c as u8) - 32) as char
        } else {
            c
        },
{
    if c >= 'a' && c <= 'z' {
        ((c as u8) - 32) as char
    } else {
        c
    }
}

/// The value of a hexadecimal digit, between 0 and 15; 0 for any other character.
#[verifier::allow_in_spec]
pub fn digit_value(c: char) -> u8
    returns
        if '0' <= c && c <= '9' {
            ((c as u8) - 48) as u8
        } else if 'a' <= c && c <= 'f' {
            ((c as u8) - 87) as u8
        } else if 'A' <= c && c <= 'F' {
            ((c as u8) - 55) as u8
        } else {
            0u8
        },
{
    if c >= '0' && c <= '9' {
        (c as u8) - 48
    } else if c >= 'a' && c <= 'f' {
        (c as u8) - 87
    } else if c >= 'A' && c <= 'F' {
        (c as u8) - 55
    } else {
        0
    }
}

/// The upper-case form of each character of `s`.
pub open spec fn upper_seq(s: Seq<char>) -> Seq<char> {
    s.map_values(|c: char| to_upper(c))
}

} // verus!
