//! The store of accepted receipts, each under the identifier it was given.

use std::collections::HashMap;
use vstd::prelude::*;
use vstd::std_specs::hash::group_hash_axioms;
use crate::data::{Receipt, ReceiptView};

verus! {

broadcast use group_hash_axioms;

/// Holds the accepted receipts by identifier. A receipt enters only through
/// a successful store, and none is changed or removed afterwards.
#[derive(Debug)]
pub struct Connection {
    /// The receipts in the store.
    receipts: HashMap<u128, Receipt>,
}

/// The store `m` after `r` was offered under `id`: with `r` under `id` when
/// `r` is acceptable, unchanged when it is not.
pub open spec fn stored(m: Map<u128, ReceiptView>, id: u128, r: ReceiptView) -> Map<
    u128,
    ReceiptView,
> {
    if r.is_acceptable() {
        m.insert(id, r)
    } else {
        m
    }
}

/// What the store `m` holds under `id`, if anything.
pub open spec fn loaded(m: Map<u128, ReceiptView>, id: u128) -> Option<ReceiptView> {
    if m.contains_key(id) {
        Some(m[id])
    } else {
        None
    }
}

/// The bits that mark an identifier as a random one of the standard layout:
/// version 4 in bits 76 to 79, variant `10` in bits 62 and 63.
pub open spec fn is_random_identifier(id: u128) -> bool {
    id & 0xF000_C000_0000_0000_0000u128 == 0x4000_8000_0000_0000_0000u128
}

/// Calls `uuid::Uuid::new_v4` and hands the identifier out as the number it
/// is. Its 122 free bits are random, so nothing is said of them; the call
/// sets the version to 4 and the variant to `10`, and `as_u128` reads the
/// sixteen bytes back in the order in which the call wrote them. The call
/// panics where the operating system yields no random bytes.
#[verifier::external_body]
fn fresh_identifier() -> (id: u128)
    ensures
        is_random_identifier(id),
{
    uuid::Uuid::new_v4().as_u128()
}

impl View for Connection {
    type V = Map<u128, ReceiptView>;

    closed spec fn view(&self) -> Map<u128, ReceiptView> {
        self.receipts@.map_values(|r: Receipt| r@)
    }
}

impl Connection {
    /// An empty store.
    pub fn new() -> (c: Self)
        ensures
            c@ == Map::<u128, ReceiptView>::empty(),
    {
        let c = Connection { receipts: HashMap::new() };
        proof {
            assert(c@ =~= Map::<u128, ReceiptView>::empty());
        }
        c
    }

    /// Offers a receipt under a given identifier. An acceptable receipt is
    /// stored under it; another leaves the store as it was.
    pub fn store_with_id(&mut self, id: u128, receipt: Receipt) -> (accepted: bool)
        ensures
            accepted == receipt@.is_acceptable(),
            final(self)@ == stored(old(self)@, id, receipt@),
    {
        if !receipt.is_acceptable() {
            return false;
        }
        let ghost before = self.receipts@;
        self.receipts.insert(id, receipt);
        proof {
            assert(self.receipts@ == before.insert(id, receipt));
            assert(self@ =~= old(self)@.insert(id, receipt@));
        }
        true
    }

    /// Stores a receipt under a fresh random identifier and returns the
    /// identifier. A receipt that is not acceptable is not stored, and `None`
    /// is returned. That two stores draw the same identifier is left to
    /// chance: with 122 random bits it is not expected to happen, and if it
    /// does the later receipt takes the place of the earlier.
    pub fn store_receipt(&mut self, receipt: Receipt) -> (id: Option<u128>)
        ensures
            id is Some <==> receipt@.is_acceptable(),
            id is Some ==> is_random_identifier(id.unwrap()) && final(self)@ == stored(
                old(self)@,
                id.unwrap(),
                receipt@,
            ),
            id is None ==> final(self)@ == old(self)@,
    {
        if !receipt.is_acceptable() {
            return None;
        }
        let id = fresh_identifier();
        self.store_with_id(id, receipt);
        Some(id)
    }

    /// Loads a copy of the receipt stored under `id`, or `None` if there is
    /// none.
    pub fn load_receipt(&self, id: u128) -> (r: Option<Receipt>)
        ensures
            r is Some <==> self@.contains_key(id),
            match r {
                Some(receipt) => loaded(self@, id) == Some(receipt@),
                None => loaded(self@, id) is None,
            },
    {
        match self.receipts.get(&id) {
            Some(receipt) => Some(receipt.clone()),
            None => None,
        }
    }
}

/// Loading under the identifier of a successful store gives what was stored.
pub proof fn lemma_load_after_store(m: Map<u128, ReceiptView>, id: u128, r: ReceiptView)
    requires
        r.is_acceptable(),
    ensures
        loaded(stored(m, id, r), id) == Some(r),
{
}

/// An identifier under which nothing was stored holds nothing: none does in
/// an empty store, and a store under one identifier leaves every other as
/// it was.
pub proof fn lemma_absent_until_stored(
    m: Map<u128, ReceiptView>,
    id: u128,
    r: ReceiptView,
    other: u128,
)
    requires
        other != id,
    ensures
        loaded(Map::<u128, ReceiptView>::empty(), other) is None,
        loaded(stored(m, id, r), other) == loaded(m, other),
{
}

/// A receipt that is not acceptable leaves the store as it was.
pub proof fn lemma_rejected_changes_nothing(m: Map<u128, ReceiptView>, id: u128, r: ReceiptView)
    requires
        !r.is_acceptable(),
    ensures
        stored(m, id, r) == m,
{
}

} // verus!
