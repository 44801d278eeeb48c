//! The points a receipt earns.

use vstd::prelude::*;
use vstd::string::StrSliceExecFns;
use crate::data::{ItemView, Price, Receipt, ReceiptView};
use crate::db::{loaded, Connection};
use crate::text::{is_letter_or_digit, is_space, letter_or_digit, space};

verus! {

/// How many characters of `s` are letters or digits.
pub open spec fn letter_digit_count(s: Seq<char>) -> nat
    decreases s.len(),
{
    if s.len() == 0 {
        0
    } else {
        letter_digit_count(s.drop_last()) + if is_letter_or_digit(s.last()) {
            1nat
        } else {
            0nat
        }
    }
}

/// The first index from `i` on that holds no whitespace, or the length.
pub open spec fn skip_spaces(s: Seq<char>, i: int) -> int
    decreases s.len() - i,
{
    if 0 <= i < s.len() && is_space(s[i]) {
        skip_spaces(s, i + 1)
    } else {
        i
    }
}

/// The end of `s` up to `j` once the whitespace before it is dropped, but
/// not below `low`.
pub open spec fn drop_spaces(s: Seq<char>, low: int, j: int) -> int
    decreases j,
{
    if 0 <= low < j <= s.len() && is_space(s[j - 1]) {
        drop_spaces(s, low, j - 1)
    } else {
        j
    }
}

/// `s` without its leading and trailing whitespace.
pub open spec fn trimmed(s: Seq<char>) -> Seq<char> {
    let from = skip_spaces(s, 0);
    s.subrange(from, drop_spaces(s, from, s.len() as int))
}

/// The number of bytes that UTF-8 takes for `c`.
pub open spec fn utf8_width(c: char) -> nat {
    if (c as u32) < 0x80 {
        1
    } else if (c as u32) < 0x800 {
        2
    } else if (c as u32) < 0x10000 {
        3
    } else {
        4
    }
}

/// The number of bytes that UTF-8 takes for `s`.
pub open spec fn utf8_length(s: Seq<char>) -> nat
    decreases s.len(),
{
    if s.len() == 0 {
        0
    } else {
        utf8_length(s.drop_last()) + utf8_width(s.last())
    }
}

/// A fifth of the price in dollars, rounded up to a whole number.
pub open spec fn price_bonus(p: Price) -> nat {
    ((p.dollars * 100 + p.cents + 499) / 500) as nat
}

/// What one item adds: a fifth of its price, rounded up, when the length in
/// bytes of its trimmed description is a multiple of three.
pub open spec fn item_points(item: ItemView) -> nat {
    if utf8_length(trimmed(item.short_description)) % 3 == 0 {
        price_bonus(item.price)
    } else {
        0
    }
}

/// What the items add one by one.
pub open spec fn items_points(items: Seq<ItemView>) -> nat
    decreases items.len(),
{
    if items.len() == 0 {
        0
    } else {
        items_points(items.drop_last()) + item_points(items.last())
    }
}

/// The points of a receipt before any cap: one for each letter or digit of
/// the retailer's name, 50 for a total without cents, 25 for a total that is
/// a multiple of a quarter, 5 for every two items, the items' own points, 6
/// for an odd day and 10 for a purchase after 14:00 and before 16:00.
pub open spec fn receipt_points(r: ReceiptView) -> nat {
    letter_digit_count(r.retailer) + (if r.total.cents == 0 {
        50nat
    } else {
        0nat
    }) + (if r.total.cents % 25 == 0 {
        25nat
    } else {
        0nat
    }) + 5 * (r.items.len() / 2) + items_points(r.items) + (if r.purchase_date.day % 2 != 0 {
        6nat
    } else {
        0nat
    }) + (if 14 * 60 < r.purchase_time.minute_of_day() < 16 * 60 {
        10nat
    } else {
        0nat
    })
}

/// `n` capped at the largest `u64`.
pub open spec fn saturated(n: nat) -> u64 {
    if n > u64::MAX {
        u64::MAX
    } else {
        n as u64
    }
}

fn add_capped(a: u64, b: u64) -> (r: u64)
    ensures
        r == saturated((a + b) as nat),
{
    if a > u64::MAX - b {
        u64::MAX
    } else {
        a + b
    }
}

/// Counts the letters and digits of `s`, capped.
fn count_letters_digits(s: &str) -> (r: u64)
    ensures
        r == saturated(letter_digit_count(s@)),
{
    let n = s.unicode_len();
    let mut count: u64 = 0;
    let mut i: usize = 0;
    while i < n
        invariant
            i <= n,
            n == s@.len(),
            count == saturated(letter_digit_count(s@.subrange(0, i as int))),
        decreases n - i,
    {
        let c = s.get_char(i);
        proof {
            assert(s@.subrange(0, i + 1).drop_last() =~= s@.subrange(0, i as int));
        }
        if letter_or_digit(c) {
            count = add_capped(count, 1);
        }
        i += 1;
    }
    proof {
        assert(s@.subrange(0, n as int) =~= s@);
    }
    count
}

/// Whether the trimmed text takes a multiple of three bytes.
fn trimmed_length_divides(s: &str) -> (r: bool)
    ensures
        r == (utf8_length(trimmed(s@)) % 3 == 0),
{
    let n = s.unicode_len();
    let mut from: usize = 0;
    while from < n && space(s.get_char(from))
        invariant
            from <= n,
            n == s@.len(),
            skip_spaces(s@, 0) == skip_spaces(s@, from as int),
        decreases n - from,
    {
        from += 1;
    }
    let mut to: usize = n;
    while to > from && space(s.get_char(to - 1))
        invariant
            from <= to <= n,
            n == s@.len(),
            drop_spaces(s@, from as int, n as int) == drop_spaces(s@, from as int, to as int),
        decreases to,
    {
        to -= 1;
    }
    let mut rest: u8 = 0;
    let mut i: usize = from;
    while i < to
        invariant
            from <= i <= to <= n,
            n == s@.len(),
            rest < 3,
            rest == utf8_length(s@.subrange(from as int, i as int)) % 3,
        decreases to - i,
    {
        let code: u32 = s.get_char(i) as u32;
        let width: u8 = if code < 0x80 {
            1
        } else if code < 0x800 {
            2
        } else if code < 0x10000 {
            3
        } else {
            4
        };
        proof {
            assert(s@.subrange(from as int, i + 1).drop_last() =~= s@.subrange(
                from as int,
                i as int,
            ));
        }
        rest = (rest + width) % 3;
        i += 1;
    }
    rest == 0
}

/// A fifth of the price, rounded up.
fn bonus_for_price(p: Price) -> (r: u64)
    ensures
        r == price_bonus(p),
{
    let part: u64 = (p.dollars % 5) * 100 + (p.cents as u64) + 499;
    p.dollars / 5 + part / 500
}

/// The items' points, capped.
fn points_for_items(receipt: &Receipt) -> (total: u64)
    ensures
        total == saturated(items_points(receipt@.items)),
{
    let items = &receipt.items;
    let ghost r = receipt@;
    let mut total: u64 = 0;
    let mut k: usize = 0;
    while k < items.len()
        invariant
            k <= items.len(),
            r.items.len() == items@.len(),
            forall|j: int| 0 <= j < items@.len() ==> r.items[j] == (#[trigger] items@[j])@,
            total == saturated(items_points(r.items.subrange(0, k as int))),
        decreases items.len() - k,
    {
        let item = &items[k];
        proof {
            assert(r.items.subrange(0, k + 1).drop_last() =~= r.items.subrange(0, k as int));
            assert(r.items.subrange(0, k + 1).last() == item@);
        }
        if trimmed_length_divides(item.short_description.as_str()) {
            total = add_capped(total, bonus_for_price(item.price));
        }
        k += 1;
    }
    proof {
        assert(r.items.subrange(0, items@.len() as int) =~= r.items);
    }
    total
}

/// Calculates the points of a receipt: the sum of its rules, capped at the
/// largest `u64`.
pub fn calculate_points(receipt: &Receipt) -> (points: u64)
    ensures
        points == saturated(receipt_points(receipt@)),
{
    let mut total: u64 = count_letters_digits(receipt.retailer.as_str());
    if receipt.total.cents == 0 {
        total = add_capped(total, 50);
    }
    if receipt.total.cents % 25 == 0 {
        total = add_capped(total, 25);
    }
    let pairs: usize = receipt.items.len() / 2;
    let pair_points: u64 = if pairs as u64 > u64::MAX / 5 {
        u64::MAX
    } else {
        5 * (pairs as u64)
    };
    total = add_capped(total, pair_points);
    total = add_capped(total, points_for_items(receipt));
    if receipt.purchase_date.day % 2 != 0 {
        total = add_capped(total, 6);
    }
    let minute: u32 = (receipt.purchase_time.hour as u32) * 60 + (receipt.purchase_time.minute as u32);
    if 14 * 60 < minute && minute < 16 * 60 {
        total = add_capped(total, 10);
    }
    total
}

/// The answer to a request for the points of a stored receipt.
#[derive(Debug, Clone, Copy, PartialEq, Eq, PartialOrd, Ord, Structural)]
pub struct PointsResponse {
    pub points: u64,
}

/// The points of the receipt stored under `id`, or `None` where the store
/// holds nothing under it.
pub fn get_points(connection: &Connection, id: u128) -> (r: Option<PointsResponse>)
    ensures
        r == match loaded(connection@, id) {
            Some(receipt) => Some(PointsResponse { points: saturated(receipt_points(receipt)) }),
            None => None,
        },
{
    match connection.load_receipt(id) {
        Some(receipt) => Some(PointsResponse { points: calculate_points(&receipt) }),
        None => None,
    }
}

/// Two receipts that hold the same earn the same points.
pub proof fn lemma_points_depend_on_contents(a: Receipt, b: Receipt)
    requires
        a@ == b@,
    ensures
        saturated(receipt_points(a@)) == saturated(receipt_points(b@)),
{
}

} // verus!
