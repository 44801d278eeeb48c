//! The order of prices: by dollars first, then by cents.

use core::cmp::Ordering;
use vstd::prelude::*;
use vstd::std_specs::cmp::PartialOrdSpecImpl;
use crate::data::Price;

verus! {

impl PartialOrd for Price {
    fn partial_cmp(&self, other: &Price) -> (r: Option<Ordering>) {
        if self.dollars < other.dollars {
            Some(Ordering::Less)
        } else if self.dollars > other.dollars {
            Some(Ordering::Greater)
        } else if self.cents < other.cents {
            Some(Ordering::Less)
        } else if self.cents > other.cents {
            Some(Ordering::Greater)
        } else {
            Some(Ordering::Equal)
        }
    }
}

impl PartialOrdSpecImpl for Price {
    open spec fn obeys_partial_cmp_spec() -> bool {
        true
    }

    open spec fn partial_cmp_spec(&self, other: &Price) -> Option<Ordering> {
        if self.dollars < other.dollars || (self.dollars == other.dollars && self.cents
            < other.cents) {
            Some(Ordering::Less)
        } else if self.dollars == other.dollars && self.cents == other.cents {
            Some(Ordering::Equal)
        } else {
            Some(Ordering::Greater)
        }
    }
}

} // verus!
