//! The fixed-width serialized layout of a record slot.
//!
//! A slot holds exactly [`RECORD_SPACE`] bytes: an 8-byte discriminator
//! that marks the slot as an expense record, the 8-byte little-endian id,
//! the 32-byte owner identity, a 4-byte little-endian length prefix, the
//! merchant-name bytes followed by zero padding up to the reserved
//! capacity, and the 8-byte little-endian amount right after the name. A
//! name longer than the reserved capacity cannot be serialized; that is
//! the overflow every write of a record checks for.

use vstd::prelude::*;

use crate::record::ExpenseAccount;
use crate::record::RecordView;
use crate::RecordError;
use crate::MERCHANT_NAME_CAPACITY;
use crate::OWNER_LEN;
use crate::RECORD_SPACE;

verus! {

broadcast use vstd::seq::group_seq_axioms;

/// The 8-byte tag that opens every record slot: the bytes of `"expense"`
/// and a closing zero.
pub open spec fn spec_discriminator() -> Seq<u8> {
    seq![0x65u8, 0x78u8, 0x70u8, 0x65u8, 0x6eu8, 0x73u8, 0x65u8, 0x00u8]
}

/// The serialized form of the record `r`.
pub open spec fn spec_encode(r: RecordView) -> Seq<u8>
    recommends
        r.wf(),
{
    spec_discriminator() + vstd::bytes::spec_u64_to_le_bytes(r.id) + r.owner
        + vstd::bytes::spec_u32_to_le_bytes(r.merchant_name.len() as u32) + r.merchant_name
        + vstd::bytes::spec_u64_to_le_bytes(r.amount)
        + Seq::new((MERCHANT_NAME_CAPACITY - r.merchant_name.len()) as nat, |i: int| 0u8)
}

/// The record serialized in `data`, if `data` is a well-formed slot: full
/// size, the discriminator in place, and a name length within capacity.
/// Padding bytes are not inspected.
pub open spec fn spec_decode(data: Seq<u8>) -> Option<RecordView> {
    if data.len() == RECORD_SPACE && data.subrange(0, 8) == spec_discriminator() {
        let n = vstd::bytes::spec_u32_from_le_bytes(data.subrange(48, 52)) as int;
        if n <= MERCHANT_NAME_CAPACITY {
            Some(
                RecordView {
                    id: vstd::bytes::spec_u64_from_le_bytes(data.subrange(8, 16)),
                    owner: data.subrange(16, 48),
                    merchant_name: data.subrange(52, 52 + n),
                    amount: vstd::bytes::spec_u64_from_le_bytes(data.subrange(52 + n, 60 + n)),
                },
            )
        } else {
            None
        }
    } else {
        None
    }
}

/// Decoding undoes encoding: serializing a well-formed record and reading
/// the slot back yields exactly the record that was written.
pub proof fn lemma_encode_decode_round_trip(r: RecordView)
    requires
        r.wf(),
    ensures
        spec_encode(r).len() == RECORD_SPACE,
        spec_decode(spec_encode(r)) == Some(r),
{
    vstd::bytes::lemma_auto_spec_u64_to_from_le_bytes();
    vstd::bytes::lemma_auto_spec_u32_to_from_le_bytes();
    let e = spec_encode(r);
    let n = r.merchant_name.len() as int;
    assert(e.len() == RECORD_SPACE);
    assert(e.subrange(0, 8) =~= spec_discriminator());
    assert(e.subrange(8, 16) =~= vstd::bytes::spec_u64_to_le_bytes(r.id));
    assert(e.subrange(16, 48) =~= r.owner);
    assert(e.subrange(48, 52) =~= vstd::bytes::spec_u32_to_le_bytes(r.merchant_name.len() as u32));
    assert(vstd::bytes::spec_u32_from_le_bytes(e.subrange(48, 52)) == n);
    assert(e.subrange(52, 52 + n) =~= r.merchant_name);
    assert(e.subrange(52 + n, 60 + n) =~= vstd::bytes::spec_u64_to_le_bytes(r.amount));
    assert(spec_decode(e)->0 =~= r);
}

/// Serializes `r` into a fresh slot, or reports that the merchant name
/// does not fit the reserved capacity.
pub fn encode_record(r: &ExpenseAccount) -> (out: Result<Vec<u8>, RecordError>)
    requires
        r@.owner.len() == OWNER_LEN,
    ensures
        match out {
            Ok(v) => {
                &&& r@.merchant_name.len() <= MERCHANT_NAME_CAPACITY
                &&& v@ == spec_encode(r@)
                &&& v@.len() == RECORD_SPACE
            },
            Err(e) => {
                &&& r@.merchant_name.len() > MERCHANT_NAME_CAPACITY
                &&& e == RecordError::SerializationOverflow
            },
        },
{
    if r.merchant_name.len() > MERCHANT_NAME_CAPACITY {
        return Err(RecordError::SerializationOverflow);
    }
    let ghost gn = r.merchant_name@.len() as int;
    let mut v: Vec<u8> = Vec::new();
    v.push(0x65);
    v.push(0x78);
    v.push(0x70);
    v.push(0x65);
    v.push(0x6e);
    v.push(0x73);
    v.push(0x65);
    v.push(0x00);
    proof {
        assert(v@ =~= spec_discriminator());
    }
    let mut ib = vstd::bytes::u64_to_le_bytes(r.id);
    v.append(&mut ib);
    let mut ob = crate::kv::copy_bytes(&r.owner);
    v.append(&mut ob);
    let mut lb = vstd::bytes::u32_to_le_bytes(r.merchant_name.len() as u32);
    v.append(&mut lb);
    let mut nb = crate::kv::copy_bytes(&r.merchant_name);
    v.append(&mut nb);
    let mut ab = vstd::bytes::u64_to_le_bytes(r.amount);
    v.append(&mut ab);
    let ghost core = v@;
    proof {
        assert(core + Seq::new(0nat, |i: int| 0u8) =~= core);
    }
    let mut i: usize = r.merchant_name.len();
    while i < MERCHANT_NAME_CAPACITY
        invariant
            gn == r.merchant_name@.len(),
            gn <= i <= MERCHANT_NAME_CAPACITY,
            v@ == core + Seq::new((i - gn) as nat, |j: int| 0u8),
        decreases MERCHANT_NAME_CAPACITY - i,
    {
        v.push(0x00);
        proof {
            assert(Seq::new((i - gn) as nat, |j: int| 0u8).push(0u8) =~= Seq::new(
                (i + 1 - gn) as nat,
                |j: int| 0u8,
            ));
            assert((core + Seq::new((i - gn) as nat, |j: int| 0u8)).push(0u8) =~= core + Seq::new(
                (i + 1 - gn) as nat,
                |j: int| 0u8,
            ));
        }
        i += 1;
    }
    proof {
        vstd::bytes::lemma_auto_spec_u64_to_from_le_bytes();
        vstd::bytes::lemma_auto_spec_u32_to_from_le_bytes();
        assert(v@ == spec_encode(r@));
        assert(v@.len() == RECORD_SPACE);
    }
    Ok(v)
}

/// Reads the record serialized in `data`, or reports that `data` is not a
/// well-formed slot.
pub fn decode_record(data: &Vec<u8>) -> (out: Option<ExpenseAccount>)
    ensures
        match out {
            Some(rec) => spec_decode(data@) == Some(rec@),
            None => spec_decode(data@) is None,
        },
{
    if data.len() != RECORD_SPACE {
        return None;
    }
    if data[0] != 0x65 || data[1] != 0x78 || data[2] != 0x70 || data[3] != 0x65 || data[4] != 0x6e
        || data[5] != 0x73 || data[6] != 0x65 || data[7] != 0x00 {
        proof {
            assert(data@.subrange(0, 8) != spec_discriminator());
        }
        return None;
    }
    proof {
        assert(data@.subrange(0, 8) =~= spec_discriminator());
    }
    let s = data.as_slice();
    let id = vstd::bytes::u64_from_le_bytes(vstd::slice::slice_subrange(s, 8, 16));
    let owner = vstd::slice::slice_to_vec(vstd::slice::slice_subrange(s, 16, 48));
    let nlen = vstd::bytes::u32_from_le_bytes(vstd::slice::slice_subrange(s, 48, 52));
    if nlen > MERCHANT_NAME_CAPACITY as u32 {
        return None;
    }
    let n = nlen as usize;
    let merchant_name = vstd::slice::slice_to_vec(vstd::slice::slice_subrange(s, 52, 52 + n));
    let amount = vstd::bytes::u64_from_le_bytes(vstd::slice::slice_subrange(s, 52 + n, 60 + n));
    let rec = ExpenseAccount { id, owner, merchant_name, amount };
    proof {
        assert(spec_decode(data@)->0 =~= rec@);
    }
    Some(rec)
}

} // verus!
