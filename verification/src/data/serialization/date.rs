//! Dates as text: a four-digit year, a two-digit month and a two-digit day,
//! with hyphens between them.

use vstd::prelude::*;
use vstd::string::StrSliceExecFns;
use vstd::string::StringSliceAdditionalSpecFns;
use vstd::string::is_ascii_spec_bytes;
use crate::data::{days_in_month, is_leap_year, Date, FormatError};
use crate::data::serialization::{digit_byte, pair_value, push_two_digits, two_digits};
use crate::text::{is_digit, push_char};

verus! {

/// Four digits, a hyphen, two digits, a hyphen, two digits.
pub open spec fn is_date_shape(s: Seq<char>) -> bool {
    &&& s.len() == 10
    &&& is_digit(s[0]) && is_digit(s[1]) && is_digit(s[2]) && is_digit(s[3])
    &&& s[4] == '-'
    &&& is_digit(s[5]) && is_digit(s[6])
    &&& s[7] == '-'
    &&& is_digit(s[8]) && is_digit(s[9])
}

/// The year, month and day that a text of that shape writes.
pub open spec fn date_fields(s: Seq<char>) -> Date {
    Date {
        year: (pair_value(s[0], s[1]) * 100 + pair_value(s[2], s[3])) as u16,
        month: pair_value(s[5], s[6]) as u8,
        day: pair_value(s[8], s[9]) as u8,
    }
}

/// What a text means as a date.
pub open spec fn date_of_text(s: Seq<char>) -> Result<Date, FormatError> {
    if is_date_shape(s) && date_fields(s).is_valid() {
        Ok(date_fields(s))
    } else {
        Err(FormatError::InvalidDate)
    }
}

/// The text of a date.
pub open spec fn date_text(d: Date) -> Seq<char> {
    two_digits((d.year / 100) as nat) + two_digits((d.year % 100) as nat) + seq!['-'] + two_digits(
        d.month as nat,
    ) + seq!['-'] + two_digits(d.day as nat)
}

/// Reading the text of a valid date gives the date back.
pub proof fn lemma_date_round_trip(d: Date)
    requires
        d.is_valid(),
    ensures
        date_of_text(date_text(d)) == Ok::<Date, FormatError>(d),
{
    let t = date_text(d);
    assert(t.len() == 10);
    assert(t =~= seq![
        two_digits((d.year / 100) as nat)[0],
        two_digits((d.year / 100) as nat)[1],
        two_digits((d.year % 100) as nat)[0],
        two_digits((d.year % 100) as nat)[1],
        '-',
        two_digits(d.month as nat)[0],
        two_digits(d.month as nat)[1],
        '-',
        two_digits(d.day as nat)[0],
        two_digits(d.day as nat)[1],
    ]);
    assert(date_fields(t) == d);
}

/// A text of another length than ten is no date.
pub proof fn lemma_date_rejects_length(s: Seq<char>)
    requires
        s.len() != 10,
    ensures
        date_of_text(s) == Err::<Date, FormatError>(FormatError::InvalidDate),
{
}

fn leap_year(year: u16) -> (r: bool)
    ensures
        r == is_leap_year(year as int),
{
    year % 4 == 0 && (year % 100 != 0 || year % 400 == 0)
}

fn month_length(year: u16, month: u8) -> (r: u8)
    ensures
        r == days_in_month(year as int, month as int),
{
    if month == 2 {
        if leap_year(year) {
            29
        } else {
            28
        }
    } else if month == 4 || month == 6 || month == 9 || month == 11 {
        30
    } else {
        31
    }
}

/// Writes a date as its text.
pub fn serialize(v: &Date) -> (text: String)
    ensures
        text@ == date_text(*v),
{
    let mut text = String::new();
    let century: u16 = v.year / 100;
    if century < 100 {
        push_two_digits(&mut text, century as u8);
    } else {
        crate::data::serialization::push_decimal(&mut text, century as u64);
    }
    push_two_digits(&mut text, (v.year % 100) as u8);
    push_char(&mut text, '-');
    push_two_digits(&mut text, v.month);
    push_char(&mut text, '-');
    push_two_digits(&mut text, v.day);
    text
}

/// Reads a date from its text. The text must have the shape of a date and
/// name a day of the calendar.
pub fn deserialize(text: &str) -> (r: Result<Date, FormatError>)
    ensures
        r == date_of_text(text@),
        r is Ok ==> r.unwrap().is_valid(),
{
    broadcast use is_ascii_spec_bytes;

    if !text.is_ascii() {
        proof {
            let s = text@;
            if is_date_shape(s) {
                assert forall|i: int| 0 <= i < s.len() implies '\0' <= #[trigger] s[i] <= '\u{7f}' by {
                    assert(i == 0 || i == 1 || i == 2 || i == 3 || i == 4 || i == 5 || i == 6 || i
                        == 7 || i == 8 || i == 9);
                }
            }
        }
        return Err(FormatError::InvalidDate);
    }
    let bytes = text.as_bytes();
    if bytes.len() != 10 {
        return Err(FormatError::InvalidDate);
    }
    proof {
        assert(bytes@[0] == text@[0] as u8 && bytes@[1] == text@[1] as u8 && bytes@[2] == text@[2] as u8);
        assert(bytes@[3] == text@[3] as u8 && bytes@[4] == text@[4] as u8 && bytes@[5] == text@[5] as u8);
        assert(bytes@[6] == text@[6] as u8 && bytes@[7] == text@[7] as u8 && bytes@[8] == text@[8] as u8);
        assert(bytes@[9] == text@[9] as u8);
    }
    let shaped = digit_byte(bytes[0]) && digit_byte(bytes[1]) && digit_byte(bytes[2]) && digit_byte(
        bytes[3],
    ) && bytes[4] == 45 && digit_byte(bytes[5]) && digit_byte(bytes[6]) && bytes[7] == 45
        && digit_byte(bytes[8]) && digit_byte(bytes[9]);
    if !shaped {
        return Err(FormatError::InvalidDate);
    }
    let year: u16 = ((bytes[0] - 48) as u16) * 1000 + ((bytes[1] - 48) as u16) * 100 + ((bytes[2]
        - 48) as u16) * 10 + ((bytes[3] - 48) as u16);
    let month: u8 = (bytes[5] - 48) * 10 + (bytes[6] - 48);
    let day: u8 = (bytes[8] - 48) * 10 + (bytes[9] - 48);
    if month < 1 || month > 12 || day < 1 || day > month_length(year, month) {
        return Err(FormatError::InvalidDate);
    }
    Ok(Date { year, month, day })
}

} // verus!
