//! Character classes and the small text-building steps the rest of the
//! library is written over.

use vstd::prelude::*;

verus! {

/// Whether the Unicode tables class `c` as a letter or a number.
pub uninterp spec fn unicode_alphanumeric(c: char) -> bool;

/// Whether the Unicode tables give `c` the property `White_Space`.
pub uninterp spec fn unicode_whitespace(c: char) -> bool;

/// A letter or a digit. Below 128 the class is written out; above, the
/// Unicode tables decide.
pub open spec fn is_letter_or_digit(c: char) -> bool {
    if c <= '\u{7f}' {
        ('0' <= c <= '9') || ('a' <= c <= 'z') || ('A' <= c <= 'Z')
    } else {
        unicode_alphanumeric(c)
    }
}

/// Whitespace. Below 128 these are the space and the controls from tab to
/// carriage return; above, the Unicode tables decide.
pub open spec fn is_space(c: char) -> bool {
    if c <= '\u{7f}' {
        c == ' ' || ('\t' <= c <= '\r')
    } else {
        unicode_whitespace(c)
    }
}

/// An ASCII decimal digit.
pub open spec fn is_digit(c: char) -> bool {
    '0' <= c <= '9'
}

/// The number a decimal digit stands for.
pub open spec fn digit_value(c: char) -> nat
    recommends
        is_digit(c),
{
    (c as u32 - '0' as u32) as nat
}

/// The character that writes the digit `d`.
pub open spec fn digit_char(d: nat) -> char
    recommends
        d < 10,
{
    (d + 48) as u8 as char
}

/// Calls `char::is_alphanumeric`, which std documents as the union of
/// `is_alphabetic` and `is_numeric`, both read off the Unicode tables. The
/// answer depends on the character alone and is given the name
/// `unicode_alphanumeric`.
#[verifier::external_body]
fn alphanumeric_by_table(c: char) -> (r: bool)
    ensures
        r == unicode_alphanumeric(c),
{
    c.is_alphanumeric()
}

/// Calls `char::is_whitespace`, which std documents as membership in the
/// Unicode property `White_Space`. The answer depends on the character alone
/// and is given the name `unicode_whitespace`.
#[verifier::external_body]
fn whitespace_by_table(c: char) -> (r: bool)
    ensures
        r == unicode_whitespace(c),
{
    c.is_whitespace()
}

/// Calls `String::push`, which appends one character to the end of the string.
#[verifier::external_body]
pub(crate) fn push_char(s: &mut String, c: char)
    ensures
        final(s)@ == old(s)@.push(c),
{
    s.push(c)
}

/// Decides whether `c` is a letter or a digit.
pub fn letter_or_digit(c: char) -> (r: bool)
    ensures
        r == is_letter_or_digit(c),
{
    let n: u32 = c as u32;
    if n < 128 {
        (48 <= n && n <= 57) || (97 <= n && n <= 122) || (65 <= n && n <= 90)
    } else {
        alphanumeric_by_table(c)
    }
}

/// Decides whether `c` is whitespace.
pub fn space(c: char) -> (r: bool)
    ensures
        r == is_space(c),
{
    let n: u32 = c as u32;
    if n < 128 {
        n == 32 || (9 <= n && n <= 13)
    } else {
        whitespace_by_table(c)
    }
}

/// The character for one decimal digit.
pub(crate) fn digit_to_char(d: u8) -> (c: char)
    requires
        d < 10,
    ensures
        c == digit_char(d as nat),
        is_digit(c),
        digit_value(c) == d,
{
    (d + 48) as char
}

} // verus!
