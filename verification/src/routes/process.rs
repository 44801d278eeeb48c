//! Submitting a receipt.

use vstd::prelude::*;
use crate::data::Receipt;
use crate::db::{is_random_identifier, stored, Connection};

verus! {

/// The answer to an accepted receipt: the identifier it was stored under.
#[derive(Debug, Clone, Copy, PartialEq, Eq, PartialOrd, Ord, Structural)]
pub struct ProcessReceiptResponse {
    pub id: u128,
}

/// Hands a new receipt to the store. An acceptable receipt is stored and
/// its identifier returned; another is refused with `None` and the store is
/// left as it was.
pub fn process_receipt(connection: &mut Connection, receipt: Receipt) -> (r: Option<
    ProcessReceiptResponse,
>)
    ensures
        r is Some <==> receipt@.is_acceptable(),
        r is Some ==> is_random_identifier(r.unwrap().id) && final(connection)@ == stored(
            old(connection)@,
            r.unwrap().id,
            receipt@,
        ),
        r is None ==> final(connection)@ == old(connection)@,
{
    match connection.store_receipt(receipt) {
        Some(id) => Some(ProcessReceiptResponse { id }),
        None => None,
    }
}

} // verus!
