//! A verified expense-record ledger.
//!
//! The ledger keeps at most one expense record per (owner, id) pair. Each
//! record lives in a fixed-size storage slot addressed by a key derived
//! deterministically from the owner's 32-byte identity and the record's
//! numeric id, so that ownership is enforced structurally: only the owner
//! can name the slot that holds their record. Records are serialized into
//! the slot in a fixed layout with a capped merchant-name field, and every
//! allocation charges a flat cost that deleting the record refunds.

use vstd::prelude::*;

pub mod address;
pub mod codec;
pub mod kv;
pub mod laws;
pub mod record;
pub mod store;

verus! {

/// Number of bytes in an owner identity.
pub const OWNER_LEN: usize = 32;

/// Largest serialized merchant name a record slot can hold, in bytes.
pub const MERCHANT_NAME_CAPACITY: usize = 196;

/// Size of one record slot: an 8-byte discriminator, the 8-byte id, the
/// 32-byte owner identity, a 4-byte length prefix, the reserved name
/// capacity, and the 8-byte amount.
pub const RECORD_SPACE: usize = 8 + 8 + OWNER_LEN + 4 + MERCHANT_NAME_CAPACITY + 8;

/// Flat cost charged to a caller when a record slot is allocated, and
/// refunded in full when the record is deleted.
pub const ALLOCATION_COST: u64 = 1_000_000;

/// Why an operation on the ledger failed.
#[derive(Clone, Copy, Debug, PartialEq, Eq, Structural)]
pub enum RecordError {
    /// A create found a record already stored at the derived address.
    AddressCollision,
    /// An update, delete or read found no record at the derived address.
    RecordNotFound,
    /// The merchant name does not fit the reserved capacity of a slot.
    SerializationOverflow,
    /// The caller's balance cannot cover the allocation cost.
    InsufficientFunds,
}

} // verus!
