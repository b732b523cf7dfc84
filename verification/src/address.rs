//! Deterministic slot addresses derived from (owner, id).
//!
//! Every operation on the ledger addresses a record through this one
//! derivation, a pure function of the owner identity and the record id, so
//! that create, update and delete always agree on which slot they touch.
//! The derivation is injective on full-length owner identities: distinct
//! (owner, id) pairs can never share a slot, which is what enforces
//! ownership structurally.

use vstd::prelude::*;

use crate::kv::copy_bytes;
use crate::OWNER_LEN;

verus! {

broadcast use vstd::seq::group_seq_axioms;

/// Number of bytes in a derived address: the seed tag, the owner identity
/// and the little-endian id.
pub const ADDRESS_LEN: usize = 7 + OWNER_LEN + 8;

/// The fixed seed tag that starts every derived address: the bytes of
/// `"expense"`.
pub open spec fn spec_seed_tag() -> Seq<u8> {
    seq![0x65u8, 0x78u8, 0x70u8, 0x65u8, 0x6eu8, 0x73u8, 0x65u8]
}

/// The address of the slot that holds the record `id` of `owner`: the seed
/// tag, then the owner identity, then the id in little-endian bytes.
pub open spec fn spec_derive_address(owner: Seq<u8>, id: u64) -> Seq<u8> {
    spec_seed_tag() + owner + vstd::bytes::spec_u64_to_le_bytes(id)
}

/// Distinct (owner, id) pairs derive distinct addresses.
pub proof fn lemma_derive_address_injective(o1: Seq<u8>, i1: u64, o2: Seq<u8>, i2: u64)
    requires
        o1.len() == OWNER_LEN,
        o2.len() == OWNER_LEN,
        spec_derive_address(o1, i1) == spec_derive_address(o2, i2),
    ensures
        o1 == o2,
        i1 == i2,
{
    vstd::bytes::lemma_auto_spec_u64_to_from_le_bytes();
    let a1 = spec_derive_address(o1, i1);
    let a2 = spec_derive_address(o2, i2);
    assert(a1.subrange(7, 39) =~= o1);
    assert(a1.subrange(39, 47) =~= vstd::bytes::spec_u64_to_le_bytes(i1));
    assert(a2.subrange(7, 39) =~= o2);
    assert(a2.subrange(39, 47) =~= vstd::bytes::spec_u64_to_le_bytes(i2));
    assert(o1 == o2);
    assert(vstd::bytes::spec_u64_to_le_bytes(i1) == vstd::bytes::spec_u64_to_le_bytes(i2));
    assert(vstd::bytes::spec_u64_from_le_bytes(vstd::bytes::spec_u64_to_le_bytes(i1)) == i1);
}

/// Computes the derived address of `(owner, id)`.
pub fn derive_address(owner: &Vec<u8>, id: u64) -> (a: Vec<u8>)
    requires
        owner@.len() == OWNER_LEN,
    ensures
        a@ == spec_derive_address(owner@, id),
        a@.len() == ADDRESS_LEN,
{
    let mut a: Vec<u8> = Vec::new();
    a.push(0x65);
    a.push(0x78);
    a.push(0x70);
    a.push(0x65);
    a.push(0x6e);
    a.push(0x73);
    a.push(0x65);
    proof {
        assert(a@ =~= spec_seed_tag());
    }
    let mut ob = copy_bytes(owner);
    a.append(&mut ob);
    let mut ib = vstd::bytes::u64_to_le_bytes(id);
    a.append(&mut ib);
    proof {
        vstd::bytes::lemma_auto_spec_u64_to_from_le_bytes();
    }
    a
}

} // verus!
