//! The expense record: the one entity the ledger stores.

use vstd::prelude::*;

use crate::MERCHANT_NAME_CAPACITY;
use crate::OWNER_LEN;

verus! {

/// One expense record. `owner` is the 32-byte identity of the caller that
/// created the record; it is set once at creation and never rewritten.
/// `merchant_name` holds the UTF-8 bytes of the merchant's name.
#[derive(Debug, Clone, PartialEq, Eq)]
pub struct ExpenseAccount {
    pub id: u64,
    pub owner: Vec<u8>,
    pub merchant_name: Vec<u8>,
    pub amount: u64,
}

/// The mathematical value of a record: the same four fields, with the byte
/// vectors abstracted to sequences.
#[verifier::ext_equal]
pub struct RecordView {
    pub id: u64,
    pub owner: Seq<u8>,
    pub merchant_name: Seq<u8>,
    pub amount: u64,
}

impl RecordView {
    /// A well-formed record carries a full-length owner identity and a
    /// merchant name that fits the reserved slot capacity.
    pub open spec fn wf(self) -> bool {
        &&& self.owner.len() == OWNER_LEN
        &&& self.merchant_name.len() <= MERCHANT_NAME_CAPACITY
    }
}

impl View for ExpenseAccount {
    type V = RecordView;

    open spec fn view(&self) -> RecordView {
        RecordView {
            id: self.id,
            owner: self.owner@,
            merchant_name: self.merchant_name@,
            amount: self.amount,
        }
    }
}

} // verus!
