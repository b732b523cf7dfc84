//! The guarantees the ledger gives across operations, stated and proved
//! over the store's mathematical view and its transition functions.

use vstd::prelude::*;

use crate::address::lemma_derive_address_injective;
use crate::address::spec_derive_address;
use crate::record::RecordView;
use crate::store::spec_balance;
use crate::store::spec_delete;
use crate::store::spec_initialize;
use crate::store::spec_read;
use crate::store::spec_update;
use crate::store::view_wf;
use crate::store::StoreView;
use crate::RecordError;
use crate::ALLOCATION_COST;
use crate::MERCHANT_NAME_CAPACITY;
use crate::OWNER_LEN;

verus! {

/// Creating a record and immediately reading it back yields a record with
/// exactly the created fields, owned by the caller.
pub proof fn lemma_create_then_read(
    v: StoreView,
    caller: Seq<u8>,
    id: u64,
    merchant_name: Seq<u8>,
    amount: u64,
)
    requires
        caller.len() == OWNER_LEN,
        merchant_name.len() <= MERCHANT_NAME_CAPACITY,
        !v.records.contains_key(spec_derive_address(caller, id)),
        spec_balance(v.balances, caller) >= ALLOCATION_COST,
    ensures
        ({
            let (v1, r1) = spec_initialize(v, caller, id, merchant_name, amount);
            &&& r1 == Ok::<(), RecordError>(())
            &&& spec_read(v1, caller, id) == Ok::<RecordView, RecordError>(
                RecordView { id, owner: caller, merchant_name, amount },
            )
        }),
{
}

/// Creating twice at the same (owner, id) fails the second time with an
/// address collision and leaves the store, the first record included,
/// exactly as the first create left it.
pub proof fn lemma_create_twice_collides(
    v: StoreView,
    caller: Seq<u8>,
    id: u64,
    merchant_name: Seq<u8>,
    amount: u64,
    merchant_name2: Seq<u8>,
    amount2: u64,
)
    requires
        caller.len() == OWNER_LEN,
        merchant_name.len() <= MERCHANT_NAME_CAPACITY,
        !v.records.contains_key(spec_derive_address(caller, id)),
        spec_balance(v.balances, caller) >= ALLOCATION_COST,
    ensures
        ({
            let (v1, r1) = spec_initialize(v, caller, id, merchant_name, amount);
            let (v2, r2) = spec_initialize(v1, caller, id, merchant_name2, amount2);
            &&& r1 == Ok::<(), RecordError>(())
            &&& r2 == Err::<(), RecordError>(RecordError::AddressCollision)
            &&& v2 == v1
            &&& v2.records[spec_derive_address(caller, id)] == RecordView {
                id,
                owner: caller,
                merchant_name,
                amount,
            }
        }),
{
}

/// Updating at a (owner, id) that holds no record fails with
/// `RecordNotFound` and creates nothing: the store is untouched.
pub proof fn lemma_update_missing_record(
    v: StoreView,
    caller: Seq<u8>,
    id: u64,
    merchant_name: Seq<u8>,
    amount: u64,
)
    requires
        !v.records.contains_key(spec_derive_address(caller, id)),
    ensures
        spec_update(v, caller, id, merchant_name, amount) == (
            v,
            Err::<(), RecordError>(RecordError::RecordNotFound),
        ),
{
}

/// An update never creates or destroys a record, and every record's owner
/// after the update is exactly its owner before.
pub proof fn lemma_update_preserves_owner(
    v: StoreView,
    caller: Seq<u8>,
    id: u64,
    merchant_name: Seq<u8>,
    amount: u64,
)
    ensures
        ({
            let (v1, r1) = spec_update(v, caller, id, merchant_name, amount);
            &&& v1.records.dom() == v.records.dom()
            &&& forall|a: Seq<u8>| #[trigger] v1.records.contains_key(a)
                ==> v1.records[a].owner == v.records[a].owner
        }),
{
    let (v1, r1) = spec_update(v, caller, id, merchant_name, amount);
    let addr = spec_derive_address(caller, id);
    if v.records.contains_key(addr) && merchant_name.len() <= MERCHANT_NAME_CAPACITY {
        assert(v1.records.dom() =~= v.records.dom());
    }
}

/// Deleting a record removes it, so that a subsequent read fails with
/// `RecordNotFound`, and refunds the caller exactly the allocation cost.
pub proof fn lemma_delete_removes_and_refunds(v: StoreView, caller: Seq<u8>, id: u64)
    requires
        v.records.contains_key(spec_derive_address(caller, id)),
        spec_balance(v.balances, caller) + ALLOCATION_COST <= u64::MAX,
    ensures
        ({
            let (v1, r1) = spec_delete(v, caller, id);
            &&& r1 == Ok::<(), RecordError>(())
            &&& !v1.records.contains_key(spec_derive_address(caller, id))
            &&& spec_read(v1, caller, id) == Err::<RecordView, RecordError>(
                RecordError::RecordNotFound,
            )
            &&& spec_balance(v1.balances, caller) == spec_balance(v.balances, caller)
                + ALLOCATION_COST
        }),
{
}

/// A merchant name beyond the reserved capacity makes both create and
/// update fail and mutate nothing; when no earlier check trips first, the
/// failure is `SerializationOverflow`.
pub proof fn lemma_oversized_name_rejected(
    v: StoreView,
    caller: Seq<u8>,
    id: u64,
    merchant_name: Seq<u8>,
    amount: u64,
)
    requires
        merchant_name.len() > MERCHANT_NAME_CAPACITY,
    ensures
        ({
            let (v1, r1) = spec_initialize(v, caller, id, merchant_name, amount);
            &&& v1 == v
            &&& r1 is Err
            &&& (!v.records.contains_key(spec_derive_address(caller, id)) && spec_balance(
                v.balances,
                caller,
            ) >= ALLOCATION_COST) ==> r1 == Err::<(), RecordError>(
                RecordError::SerializationOverflow,
            )
        }),
        ({
            let (v2, r2) = spec_update(v, caller, id, merchant_name, amount);
            &&& v2 == v
            &&& r2 is Err
            &&& v.records.contains_key(spec_derive_address(caller, id)) ==> r2 == Err::<
                (),
                RecordError,
            >(RecordError::SerializationOverflow)
        }),
{
}

/// At most one record per (owner, id): in a well-formed store, two
/// occupied addresses whose records agree on owner and id are the same
/// address.
pub proof fn lemma_one_record_per_owner_and_id(v: StoreView, a1: Seq<u8>, a2: Seq<u8>)
    requires
        view_wf(v),
        v.records.contains_key(a1),
        v.records.contains_key(a2),
        v.records[a1].owner == v.records[a2].owner,
        v.records[a1].id == v.records[a2].id,
    ensures
        a1 == a2,
{
}

/// Address-as-authorization: a caller reaches an existing record through
/// its derived address only if the record is the caller's own — matching
/// identity and matching id.
pub proof fn lemma_address_reaches_own_record(v: StoreView, caller: Seq<u8>, id: u64)
    requires
        view_wf(v),
        caller.len() == OWNER_LEN,
        v.records.contains_key(spec_derive_address(caller, id)),
    ensures
        v.records[spec_derive_address(caller, id)].owner == caller,
        v.records[spec_derive_address(caller, id)].id == id,
{
    let addr = spec_derive_address(caller, id);
    let rec = v.records[addr];
    lemma_derive_address_injective(rec.owner, rec.id, caller, id);
}

} // verus!
