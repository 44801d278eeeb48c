//! Times of day as text: a two-digit hour of 24 and a two-digit minute, with
//! a colon between them.

use vstd::prelude::*;
use vstd::string::StrSliceExecFns;
use vstd::string::StringSliceAdditionalSpecFns;
use vstd::string::is_ascii_spec_bytes;
use crate::data::{FormatError, Time};
use crate::data::serialization::{digit_byte, pair_value, push_two_digits, two_digits};
use crate::text::{is_digit, push_char};

verus! {

/// Two digits, a colon, two digits.
pub open spec fn is_time_shape(s: Seq<char>) -> bool {
    &&& s.len() == 5
    &&& is_digit(s[0]) && is_digit(s[1])
    &&& s[2] == ':'
    &&& is_digit(s[3]) && is_digit(s[4])
}

/// The hour and minute that a text of that shape writes.
pub open spec fn time_fields(s: Seq<char>) -> Time {
    Time { hour: pair_value(s[0], s[1]) as u8, minute: pair_value(s[3], s[4]) as u8 }
}

/// What a text means as a time of day.
pub open spec fn time_of_text(s: Seq<char>) -> Result<Time, FormatError> {
    if is_time_shape(s) && time_fields(s).is_valid() {
        Ok(time_fields(s))
    } else {
        Err(FormatError::InvalidTime)
    }
}

/// The text of a time of day.
pub open spec fn time_text(t: Time) -> Seq<char> {
    two_digits(t.hour as nat) + seq![':'] + two_digits(t.minute as nat)
}

/// Reading the text of a valid time gives the time back.
pub proof fn lemma_time_round_trip(t: Time)
    requires
        t.is_valid(),
    ensures
        time_of_text(time_text(t)) == Ok::<Time, FormatError>(t),
{
    let s = time_text(t);
    assert(s =~= seq![
        two_digits(t.hour as nat)[0],
        two_digits(t.hour as nat)[1],
        ':',
        two_digits(t.minute as nat)[0],
        two_digits(t.minute as nat)[1],
    ]);
    assert(time_fields(s) == t);
}

/// Writes a time of day as its text.
pub fn serialize(v: &Time) -> (text: String)
    ensures
        text@ == time_text(*v),
{
    let mut text = String::new();
    push_two_digits(&mut text, v.hour);
    push_char(&mut text, ':');
    push_two_digits(&mut text, v.minute);
    text
}

/// Reads a time of day from its text. The text must have the shape of a
/// time, with an hour below 24 and a minute below 60.
pub fn deserialize(text: &str) -> (r: Result<Time, FormatError>)
    ensures
        r == time_of_text(text@),
        r is Ok ==> r.unwrap().is_valid(),
{
    broadcast use is_ascii_spec_bytes;

    if !text.is_ascii() {
        proof {
            let s = text@;
            if is_time_shape(s) {
                assert forall|i: int| 0 <= i < s.len() implies '\0' <= #[trigger] s[i] <= '\u{7f}' by {
                    assert(i == 0 || i == 1 || i == 2 || i == 3 || i == 4);
                }
            }
        }
        return Err(FormatError::InvalidTime);
    }
    let bytes = text.as_bytes();
    if bytes.len() != 5 {
        return Err(FormatError::InvalidTime);
    }
    proof {
        assert(bytes@[0] == text@[0] as u8 && bytes@[1] == text@[1] as u8 && bytes@[2] == text@[2] as u8);
        assert(bytes@[3] == text@[3] as u8 && bytes@[4] == text@[4] as u8);
        assert(text@[0] <= '\u{7f}' && text@[1] <= '\u{7f}' && text@[2] <= '\u{7f}' && text@[3]
            <= '\u{7f}' && text@[4] <= '\u{7f}');
    }
    let shaped = digit_byte(bytes[0]) && digit_byte(bytes[1]) && bytes[2] == 58 && digit_byte(
        bytes[3],
    ) && digit_byte(bytes[4]);
    if !shaped {
        return Err(FormatError::InvalidTime);
    }
    let hour: u8 = (bytes[0] - 48) * 10 + (bytes[1] - 48);
    let minute: u8 = (bytes[3] - 48) * 10 + (bytes[4] - 48);
    if hour >= 24 || minute >= 60 {
        return Err(FormatError::InvalidTime);
    }
    Ok(Time { hour, minute })
}

} // verus!
