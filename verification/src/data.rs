//! The data on a receipt, and the rules that make a receipt acceptable.

use vstd::prelude::*;
use vstd::string::StrSliceExecFns;
use crate::text::{is_letter_or_digit, is_space, letter_or_digit, space};

pub mod order;
pub mod serialization;

verus! {

/// An amount of money in whole dollars and cents. Prices are ordered by
/// their dollars first and by their cents second.
#[derive(Debug, Clone, Copy, PartialEq, Eq, Ord, Structural)]
pub struct Price {
    pub dollars: u64,
    pub cents: u8,
}

impl Price {
    /// The cents are a remainder of a dollar.
    pub open spec fn is_valid(&self) -> bool {
        self.cents <= 99
    }
}

/// A calendar date without a time zone.
#[derive(Debug, Clone, Copy, PartialEq, Eq, PartialOrd, Ord, Structural)]
pub struct Date {
    pub year: u16,
    pub month: u8,
    pub day: u8,
}

/// A wall-clock time of day to the minute.
#[derive(Debug, Clone, Copy, PartialEq, Eq, PartialOrd, Ord, Structural)]
pub struct Time {
    pub hour: u8,
    pub minute: u8,
}

/// The Gregorian leap-year rule.
pub open spec fn is_leap_year(year: int) -> bool {
    year % 4 == 0 && (year % 100 != 0 || year % 400 == 0)
}

/// The number of days of a month, for `month` from 1 to 12.
pub open spec fn days_in_month(year: int, month: int) -> int {
    if month == 2 {
        if is_leap_year(year) {
            29
        } else {
            28
        }
    } else if month == 4 || month == 6 || month == 9 || month == 11 {
        30
    } else {
        31
    }
}

impl Date {
    /// A day that exists in the calendar, in a year of at most four digits.
    pub open spec fn is_valid(&self) -> bool {
        &&& self.year <= 9999
        &&& 1 <= self.month <= 12
        &&& 1 <= self.day <= days_in_month(self.year as int, self.month as int)
    }
}

impl Time {
    /// An hour below 24 and a minute below 60.
    pub open spec fn is_valid(&self) -> bool {
        self.hour < 24 && self.minute < 60
    }

    /// Minutes since midnight.
    pub open spec fn minute_of_day(&self) -> int {
        self.hour * 60 + self.minute
    }
}

/// Why a text was not read as a value.
#[derive(Debug, Clone, Copy, PartialEq, Eq, Structural)]
pub enum FormatError {
    /// The text is not digits, a point and two digits.
    InvalidPrice,
    /// The dollars do not fit in 64 bits.
    DollarsOutOfRange,
    /// The text is not a date written as year, month and day.
    InvalidDate,
    /// The text is not a time written as hour and minute.
    InvalidTime,
}

/// One line of a receipt.
#[derive(Debug, PartialEq, Eq)]
pub struct Item {
    /// The short product description for the item.
    pub short_description: String,
    /// The total price paid for this item.
    pub price: Price,
}

/// A receipt as submitted.
#[derive(Debug, PartialEq, Eq)]
pub struct Receipt {
    pub retailer: String,
    pub purchase_date: Date,
    pub purchase_time: Time,
    pub items: Vec<Item>,
    pub total: Price,
}

/// What an item holds.
pub struct ItemView {
    pub short_description: Seq<char>,
    pub price: Price,
}

/// What a receipt holds.
pub struct ReceiptView {
    pub retailer: Seq<char>,
    pub purchase_date: Date,
    pub purchase_time: Time,
    pub items: Seq<ItemView>,
    pub total: Price,
}

impl View for Item {
    type V = ItemView;

    open spec fn view(&self) -> ItemView {
        ItemView { short_description: self.short_description@, price: self.price }
    }
}

impl View for Receipt {
    type V = ReceiptView;

    open spec fn view(&self) -> ReceiptView {
        ReceiptView {
            retailer: self.retailer@,
            purchase_date: self.purchase_date,
            purchase_time: self.purchase_time,
            items: Seq::new(self.items@.len(), |i: int| self.items@[i]@),
            total: self.total,
        }
    }
}

impl Clone for Item {
    /// A copy that holds the same.
    fn clone(&self) -> (copy: Self)
        ensures
            copy@ == self@,
    {
        Item { short_description: self.short_description.clone(), price: self.price }
    }
}

impl Clone for Receipt {
    /// A copy that holds the same, item by item.
    fn clone(&self) -> (copy: Self)
        ensures
            copy@ == self@,
    {
        let mut items: Vec<Item> = Vec::new();
        let mut k: usize = 0;
        while k < self.items.len()
            invariant
                k <= self.items.len(),
                items@.len() == k,
                forall|j: int| 0 <= j < k ==> (#[trigger] items@[j])@ == self.items@[j]@,
            decreases self.items.len() - k,
        {
            items.push(self.items[k].clone());
            k += 1;
        }
        let copy = Receipt {
            retailer: self.retailer.clone(),
            purchase_date: self.purchase_date,
            purchase_time: self.purchase_time,
            items,
            total: self.total,
        };
        proof {
            assert(copy@.items =~= self@.items);
        }
        copy
    }
}

/// A character that may stand in a retailer's name.
pub open spec fn is_retailer_char(c: char) -> bool {
    is_letter_or_digit(c) || is_space(c) || c == '&' || c == '-'
}

/// A character that may stand in an item's description.
pub open spec fn is_description_char(c: char) -> bool {
    is_letter_or_digit(c) || is_space(c) || c == '-' || c == '_'
}

/// A retailer's name: one or more characters, all of the retailer class.
pub open spec fn is_retailer_name(s: Seq<char>) -> bool {
    s.len() > 0 && forall|i: int| 0 <= i < s.len() ==> is_retailer_char(#[trigger] s[i])
}

/// A description: one or more characters, all of the description class.
pub open spec fn is_description(s: Seq<char>) -> bool {
    s.len() > 0 && forall|i: int| 0 <= i < s.len() ==> is_description_char(#[trigger] s[i])
}

impl ItemView {
    /// An item is acceptable when its description is one.
    pub open spec fn is_acceptable(&self) -> bool {
        is_description(self.short_description)
    }
}

impl ReceiptView {
    /// A receipt is acceptable when its retailer's name is one, it has an
    /// item, and every item is acceptable.
    pub open spec fn is_acceptable(&self) -> bool {
        &&& is_retailer_name(self.retailer)
        &&& self.items.len() > 0
        &&& forall|i: int| 0 <= i < self.items.len() ==> (#[trigger] self.items[i]).is_acceptable()
    }
}

fn retailer_char(c: char) -> (r: bool)
    ensures
        r == is_retailer_char(c),
{
    letter_or_digit(c) || space(c) || c == '&' || c == '-'
}

fn description_char(c: char) -> (r: bool)
    ensures
        r == is_description_char(c),
{
    letter_or_digit(c) || space(c) || c == '-' || c == '_'
}

impl Item {
    /// Determines whether this item is acceptable.
    pub fn is_acceptable(&self) -> (r: bool)
        ensures
            r == self@.is_acceptable(),
    {
        let text = self.short_description.as_str();
        let n = text.unicode_len();
        if n == 0 {
            return false;
        }
        let mut i: usize = 0;
        while i < n
            invariant
                i <= n,
                n == text@.len(),
                text@ == self.short_description@,
                forall|j: int| 0 <= j < i ==> is_description_char(#[trigger] text@[j]),
            decreases n - i,
        {
            if !description_char(text.get_char(i)) {
                assert(!is_description_char(self@.short_description[i as int]));
                return false;
            }
            i += 1;
        }
        true
    }
}

impl Receipt {
    /// Determines whether this receipt is acceptable: the retailer's name is
    /// well formed, there is at least one item, and all items are acceptable.
    pub fn is_acceptable(&self) -> (r: bool)
        ensures
            r == self@.is_acceptable(),
    {
        let text = self.retailer.as_str();
        let n = text.unicode_len();
        if n == 0 || self.items.len() == 0 {
            return false;
        }
        let mut i: usize = 0;
        while i < n
            invariant
                i <= n,
                n == text@.len(),
                text@ == self.retailer@,
                forall|j: int| 0 <= j < i ==> is_retailer_char(#[trigger] text@[j]),
            decreases n - i,
        {
            if !retailer_char(text.get_char(i)) {
                assert(!is_retailer_char(self@.retailer[i as int]));
                return false;
            }
            i += 1;
        }
        let mut k: usize = 0;
        while k < self.items.len()
            invariant
                k <= self.items.len(),
                forall|j: int| 0 <= j < k ==> (#[trigger] self@.items[j]).is_acceptable(),
            decreases self.items.len() - k,
        {
            if !self.items[k].is_acceptable() {
                assert(!self@.items[k as int].is_acceptable());
                return false;
            }
            k += 1;
        }
        true
    }
}

/// A receipt without items is not acceptable, whatever else it holds.
pub proof fn lemma_no_items_not_acceptable(r: ReceiptView)
    requires
        r.items.len() == 0,
    ensures
        !r.is_acceptable(),
{
}

/// A receipt is not acceptable when its retailer's name holds a character
/// that is neither a letter, a digit, whitespace, an ampersand nor a hyphen.
pub proof fn lemma_retailer_char_outside_class(r: ReceiptView, i: int)
    requires
        0 <= i < r.retailer.len(),
        !is_letter_or_digit(r.retailer[i]),
        !is_space(r.retailer[i]),
        r.retailer[i] != '&',
        r.retailer[i] != '-',
    ensures
        !r.is_acceptable(),
{
}

/// An item is not acceptable when its description holds an ampersand,
/// though a retailer's name may hold one.
pub proof fn lemma_ampersand_in_description(item: ItemView, i: int)
    requires
        0 <= i < item.short_description.len(),
        item.short_description[i] == '&',
    ensures
        !item.is_acceptable(),
        is_retailer_char('&'),
{
}

/// A receipt is not acceptable when one of its items is not.
pub proof fn lemma_unacceptable_item(r: ReceiptView, i: int)
    requires
        0 <= i < r.items.len(),
        !r.items[i].is_acceptable(),
    ensures
        !r.is_acceptable(),
{
}

} // verus!
