//! Hexadecimal digit characters: classification, case mapping, and their
//! numeric values. Everything the identifier and slug grammars say about a
//! single character is defined here.

use vstd::prelude::*;

verus! {

/// The sixteen ASCII hexadecimal digits, in either letter case.
pub open spec fn is_hex_digit(c: char) -> bool {
    ('0' <= c && c <= '9') || ('a' <= c && c <= 'f') || ('A' <= c && c <= 'F')
}

/// The digits the wire format accepts: decimal digits and upper-case letters.
pub open spec fn is_upper_hex_digit(c: char) -> bool {
    ('0' <= c && c <= '9') || ('A' <= c && c <= 'F')
}

/// Decimal digits and lower-case letters.
pub open spec fn is_lower_hex_digit(c: char) -> bool {
    ('0' <= c && c <= '9') || ('a' <= c && c <= 'f')
}

/// Upper-case image of a hex digit; any other character is unchanged.
pub open spec fn to_upper_hex(c: char) -> char {
    if c == 'a' {
        'A'
    } else if c == 'b' {
        'B'
    } else if c == 'c' {
        'C'
    } else if c == 'd' {
        'D'
    } else if c == 'e' {
        'E'
    } else if c == 'f' {
        'F'
    } else {
        c
    }
}

/// Lower-case image of a hex digit; any other character is unchanged.
pub open spec fn to_lower_hex(c: char) -> char {
    if c == 'A' {
        'a'
    } else if c == 'B' {
        'b'
    } else if c == 'C' {
        'c'
    } else if c == 'D' {
        'd'
    } else if c == 'E' {
        'e'
    } else if c == 'F' {
        'f'
    } else {
        c
    }
}

/// Numeric value of a hex digit (0 for anything else).
pub open spec fn hex_digit_val(c: char) -> u32 {
    if '0' <= c && c <= '9' {
        ((c as u32) - 48) as u32
    } else if 'a' <= c && c <= 'f' {
        ((c as u32) - 87) as u32
    } else if 'A' <= c && c <= 'F' {
        ((c as u32) - 55) as u32
    } else {
        0
    }
}

/// The upper-case hex digit with value `d` (for `d < 16`).
pub open spec fn upper_hex_char(d: u32) -> char {
    if d == 0 {
        '0'
    } else if d == 1 {
        '1'
    } else if d == 2 {
        '2'
    } else if d == 3 {
        '3'
    } else if d == 4 {
        '4'
    } else if d == 5 {
        '5'
    } else if d == 6 {
        '6'
    } else if d == 7 {
        '7'
    } else if d == 8 {
        '8'
    } else if d == 9 {
        '9'
    } else if d == 10 {
        'A'
    } else if d == 11 {
        'B'
    } else if d == 12 {
        'C'
    } else if d == 13 {
        'D'
    } else if d == 14 {
        'E'
    } else {
        'F'
    }
}

/// Upper-casing a hex digit yields an upper-case hex digit with the same
/// value, and nothing but hex digits are mapped to upper-case hex digits.
pub proof fn lemma_to_upper_hex(c: char)
    ensures
        is_hex_digit(c) <==> is_upper_hex_digit(to_upper_hex(c)),
        is_hex_digit(c) ==> hex_digit_val(to_upper_hex(c)) == hex_digit_val(c),
        is_upper_hex_digit(c) ==> to_upper_hex(c) == c,
        to_upper_hex(to_upper_hex(c)) == to_upper_hex(c),
{
}

/// Lower-casing a hex digit yields a lower-case hex digit with the same
/// value, and nothing but hex digits are mapped to lower-case hex digits.
pub proof fn lemma_to_lower_hex(c: char)
    ensures
        is_hex_digit(c) <==> is_lower_hex_digit(to_lower_hex(c)),
        is_hex_digit(c) ==> hex_digit_val(to_lower_hex(c)) == hex_digit_val(c),
        is_lower_hex_digit(c) ==> to_lower_hex(c) == c,
{
}

/// `upper_hex_char` and `hex_digit_val` are inverse on values below 16.
pub proof fn lemma_upper_hex_char_val(d: u32)
    requires
        d < 16,
    ensures
        is_upper_hex_digit(upper_hex_char(d)),
        hex_digit_val(upper_hex_char(d)) == d,
{
}

/// Whether `c` is a hex digit, in either case.
pub fn hex_digit(c: char) -> (r: bool)
    ensures
        r == is_hex_digit(c),
{
    let u = c as u32;
    (48 <= u && u <= 57) || (97 <= u && u <= 102) || (65 <= u && u <= 70)
}

/// Whether `c` is a decimal digit or an upper-case hex letter.
pub fn upper_hex_digit(c: char) -> (r: bool)
    ensures
        r == is_upper_hex_digit(c),
{
    let u = c as u32;
    (48 <= u && u <= 57) || (65 <= u && u <= 70)
}

/// Upper-case a single hex digit.
pub fn upper_hex(c: char) -> (r: char)
    ensures
        r == to_upper_hex(c),
{
    if c == 'a' {
        'A'
    } else if c == 'b' {
        'B'
    } else if c == 'c' {
        'C'
    } else if c == 'd' {
        'D'
    } else if c == 'e' {
        'E'
    } else if c == 'f' {
        'F'
    } else {
        c
    }
}

/// Lower-case a single hex digit.
pub fn lower_hex(c: char) -> (r: char)
    ensures
        r == to_lower_hex(c),
{
    if c == 'A' {
        'a'
    } else if c == 'B' {
        'b'
    } else if c == 'C' {
        'c'
    } else if c == 'D' {
        'd'
    } else if c == 'E' {
        'e'
    } else if c == 'F' {
        'f'
    } else {
        c
    }
}

/// Numeric value of a hex digit.
pub fn hex_val(c: char) -> (r: u32)
    requires
        is_hex_digit(c),
    ensures
        r == hex_digit_val(c),
        r < 16,
{
    let u = c as u32;
    if 48 <= u && u <= 57 {
        u - 48
    } else if 97 <= u && u <= 102 {
        u - 87
    } else {
        u - 55
    }
}

/// The upper-case hex digit with value `d`.
pub fn upper_digit(d: u32) -> (r: char)
    requires
        d < 16,
    ensures
        r == upper_hex_char(d),
{
    if d == 0 {
        '0'
    } else if d == 1 {
        '1'
    } else if d == 2 {
        '2'
    } else if d == 3 {
        '3'
    } else if d == 4 {
        '4'
    } else if d == 5 {
        '5'
    } else if d == 6 {
        '6'
    } else if d == 7 {
        '7'
    } else if d == 8 {
        '8'
    } else if d == 9 {
        '9'
    } else if d == 10 {
        'A'
    } else if d == 11 {
        'B'
    } else if d == 12 {
        'C'
    } else if d == 13 {
        'D'
    } else if d == 14 {
        'E'
    } else {
        'F'
    }
}

} // verus!
