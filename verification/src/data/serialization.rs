//! The text forms of prices, dates and times.

use vstd::prelude::*;
use vstd::string::StrSliceExecFns;
use vstd::string::StringSliceAdditionalSpecFns;
use vstd::string::is_ascii_spec_bytes;
use vstd::utf8::is_ascii_chars;
use crate::data::{FormatError, Price};
use crate::text::{digit_char, digit_to_char, digit_value, is_digit, push_char};

pub mod date;
pub mod time;

verus! {

/// Every character is a decimal digit.
pub open spec fn all_digits(s: Seq<char>) -> bool {
    forall|i: int| 0 <= i < s.len() ==> is_digit(#[trigger] s[i])
}

/// The number that a run of decimal digits writes.
pub open spec fn decimal_value(s: Seq<char>) -> nat
    decreases s.len(),
{
    if s.len() == 0 {
        0
    } else {
        decimal_value(s.drop_last()) * 10 + digit_value(s.last())
    }
}

/// `n` in decimal digits, without leading zeros.
pub open spec fn decimal_text(n: nat) -> Seq<char>
    decreases n,
{
    if n < 10 {
        seq![digit_char(n)]
    } else {
        decimal_text(n / 10).push(digit_char(n % 10))
    }
}

/// `n` in decimal digits, with a leading zero below ten.
pub open spec fn two_digits(n: nat) -> Seq<char> {
    if n < 100 {
        seq![digit_char(n / 10), digit_char(n % 10)]
    } else {
        decimal_text(n)
    }
}

/// The number that the two digits `a` and `b` write.
pub open spec fn pair_value(a: char, b: char) -> nat {
    digit_value(a) * 10 + digit_value(b)
}

/// One or more digits, a point, and exactly two digits.
pub open spec fn is_price_text(s: Seq<char>) -> bool {
    &&& s.len() >= 4
    &&& all_digits(s.subrange(0, s.len() - 3))
    &&& s[s.len() - 3] == '.'
    &&& is_digit(s[s.len() - 2])
    &&& is_digit(s[s.len() - 1])
}

/// What a text means as a price.
pub open spec fn price_of_text(s: Seq<char>) -> Result<Price, FormatError> {
    if !is_price_text(s) {
        Err(FormatError::InvalidPrice)
    } else if decimal_value(s.subrange(0, s.len() - 3)) > u64::MAX {
        Err(FormatError::DollarsOutOfRange)
    } else {
        Ok(
            Price {
                dollars: decimal_value(s.subrange(0, s.len() - 3)) as u64,
                cents: pair_value(s[s.len() - 2], s[s.len() - 1]) as u8,
            },
        )
    }
}

/// The text of a price: the dollars, a point, and the cents in two digits.
pub open spec fn price_text(p: Price) -> Seq<char> {
    decimal_text(p.dollars as nat) + seq!['.'] + two_digits(p.cents as nat)
}

/// The decimal text of a number is made of digits and writes that number.
pub proof fn lemma_decimal_text(n: nat)
    ensures
        decimal_text(n).len() >= 1,
        all_digits(decimal_text(n)),
        decimal_value(decimal_text(n)) == n,
    decreases n,
{
    if n < 10 {
        let t = decimal_text(n);
        assert(t.drop_last() =~= Seq::<char>::empty());
        assert(decimal_value(t.drop_last()) == 0);
    } else {
        lemma_decimal_text(n / 10);
        let t = decimal_text(n);
        assert(t.drop_last() =~= decimal_text(n / 10));
    }
}

/// A run of digits writes at least what any of its prefixes writes.
pub proof fn lemma_decimal_value_prefix(s: Seq<char>, k: int)
    requires
        0 <= k <= s.len(),
    ensures
        decimal_value(s.subrange(0, k)) <= decimal_value(s),
    decreases s.len(),
{
    if k == s.len() {
        assert(s.subrange(0, k) =~= s);
    } else {
        lemma_decimal_value_prefix(s.drop_last(), k);
        assert(s.drop_last().subrange(0, k) =~= s.subrange(0, k));
    }
}

/// Reading the text of a valid price gives the price back, and so writing
/// what was read gives the text back.
pub proof fn lemma_price_round_trip(p: Price)
    requires
        p.is_valid(),
    ensures
        price_of_text(price_text(p)) == Ok::<Price, FormatError>(p),
        price_text(price_of_text(price_text(p)).unwrap()) == price_text(p),
{
    let d = decimal_text(p.dollars as nat);
    let t = price_text(p);
    lemma_decimal_text(p.dollars as nat);
    assert(t.len() == d.len() + 3);
    assert(t.subrange(0, t.len() - 3) =~= d);
    assert(t[t.len() - 3] == '.');
    assert(t[t.len() - 2] == digit_char((p.cents / 10) as nat));
    assert(t[t.len() - 1] == digit_char((p.cents % 10) as nat));
}

/// A text is no price when it holds, anywhere but third from the end, a
/// character that is no digit: a letter, a sign, or a point with fewer or
/// more than two characters behind it.
pub proof fn lemma_price_rejects_misplaced(s: Seq<char>, i: int)
    requires
        0 <= i < s.len(),
        !is_digit(s[i]),
        i != s.len() - 3,
    ensures
        price_of_text(s) == Err::<Price, FormatError>(FormatError::InvalidPrice),
{
    if is_price_text(s) {
        if i < s.len() - 3 {
            assert(s.subrange(0, s.len() - 3)[i] == s[i]);
        }
    }
}

/// A text is no price when the character third from its end is no point, and
/// so when it holds no point at all.
pub proof fn lemma_price_rejects_without_point(s: Seq<char>)
    requires
        s.len() < 4 || s[s.len() - 3] != '.',
    ensures
        price_of_text(s) == Err::<Price, FormatError>(FormatError::InvalidPrice),
{
}

/// The text of a price holds ASCII characters only.
proof fn lemma_price_text_is_ascii(s: Seq<char>)
    ensures
        is_price_text(s) ==> is_ascii_chars(s),
{
    if is_price_text(s) {
        assert forall|i: int| 0 <= i < s.len() implies '\0' <= #[trigger] s[i] <= '\u{7f}' by {
            if i < s.len() - 3 {
                assert(s.subrange(0, s.len() - 3)[i] == s[i]);
            }
        }
    }
}

/// Appends `n` in decimal digits.
pub(crate) fn push_decimal(out: &mut String, n: u64)
    ensures
        final(out)@ == old(out)@ + decimal_text(n as nat),
    decreases n,
{
    if n >= 10 {
        push_decimal(out, n / 10);
    }
    push_char(out, digit_to_char((n % 10) as u8));
}

/// Appends `n` in two decimal digits.
pub(crate) fn push_two_digits(out: &mut String, n: u8)
    ensures
        final(out)@ == old(out)@ + two_digits(n as nat),
{
    if n < 100 {
        push_char(out, digit_to_char(n / 10));
        push_char(out, digit_to_char(n % 10));
    } else {
        push_decimal(out, n as u64);
    }
}

/// Whether the byte is an ASCII decimal digit.
pub(crate) fn digit_byte(b: u8) -> (r: bool)
    ensures
        r == (48 <= b <= 57),
{
    48 <= b && b <= 57
}

impl Price {
    /// Writes the price as its text.
    pub fn serialize(&self) -> (text: String)
        ensures
            text@ == price_text(*self),
    {
        let mut text = String::new();
        push_decimal(&mut text, self.dollars);
        push_char(&mut text, '.');
        push_two_digits(&mut text, self.cents);
        text
    }

    /// Reads a price from its text. The text must be digits, a point and two
    /// digits, and the dollars must fit in 64 bits.
    pub fn deserialize(text: &str) -> (r: Result<Price, FormatError>)
        ensures
            r == price_of_text(text@),
            r is Ok ==> r.unwrap().is_valid(),
    {
        broadcast use is_ascii_spec_bytes;

        if !text.is_ascii() {
            proof {
                lemma_price_text_is_ascii(text@);
            }
            return Err(FormatError::InvalidPrice);
        }
        let bytes = text.as_bytes();
        let n = bytes.len();
        if n < 4 {
            return Err(FormatError::InvalidPrice);
        }
        if bytes[n - 3] != 46 || !digit_byte(bytes[n - 2]) || !digit_byte(bytes[n - 1]) {
            return Err(FormatError::InvalidPrice);
        }
        let whole = n - 3;
        let mut i: usize = 0;
        while i < whole
            invariant
                i <= whole,
                whole == n - 3,
                n == text@.len(),
                text.is_ascii(),
                bytes@ == text.spec_bytes(),
                all_digits(text@.subrange(0, i as int)),
            decreases whole - i,
        {
            proof {
                assert(bytes@[i as int] == text@[i as int] as u8);
                assert(text@[i as int] <= '\u{7f}');
            }
            if !digit_byte(bytes[i]) {
                proof {
                    assert(text@.subrange(0, whole as int)[i as int] == text@[i as int]);
                }
                return Err(FormatError::InvalidPrice);
            }
            i += 1;
        }
        proof {
            assert(bytes@[n - 3] == text@[n - 3] as u8);
            assert(bytes@[n - 2] == text@[n - 2] as u8);
            assert(bytes@[n - 1] == text@[n - 1] as u8);
            assert(text@[n - 3] <= '\u{7f}' && text@[n - 2] <= '\u{7f}' && text@[n - 1] <= '\u{7f}');
            assert(is_price_text(text@));
        }
        let mut dollars: u64 = 0;
        let mut k: usize = 0;
        while k < whole
            invariant
                is_price_text(text@),
                k <= whole,
                whole == n - 3,
                n == text@.len(),
                text.is_ascii(),
                bytes@ == text.spec_bytes(),
                all_digits(text@.subrange(0, whole as int)),
                dollars == decimal_value(text@.subrange(0, k as int)),
            decreases whole - k,
        {
            proof {
                assert(bytes@[k as int] == text@[k as int] as u8);
                assert(text@.subrange(0, whole as int)[k as int] == text@[k as int]);
                assert(is_digit(text@[k as int]));
                assert(text@.subrange(0, k + 1).last() == text@[k as int]);
                assert(text@.subrange(0, k + 1).drop_last() =~= text@.subrange(0, k as int));
                lemma_decimal_value_prefix(text@.subrange(0, whole as int), k + 1);
                assert(text@.subrange(0, whole as int).subrange(0, k + 1) =~= text@.subrange(
                    0,
                    k + 1,
                ));
            }
            let d: u64 = (bytes[k] - 48) as u64;
            assert(d == digit_value(text@[k as int]));
            if dollars > (u64::MAX - d) / 10 {
                return Err(FormatError::DollarsOutOfRange);
            }
            dollars = dollars * 10 + d;
            k += 1;
        }
        let cents: u8 = (bytes[n - 2] - 48) * 10 + (bytes[n - 1] - 48);
        Ok(Price { dollars, cents })
    }
}

} // verus!
