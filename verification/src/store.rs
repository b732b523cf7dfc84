//! The record store: one create/update/delete/read transition at a time.
//!
//! The store models the ledger a deployed record manager lives in: a set
//! of fixed-size storage slots keyed by derived addresses, and a balance
//! per identity. Creating a record allocates the slot at the address
//! derived from (caller, id) and charges the caller the allocation cost;
//! deleting the record frees the slot and refunds that cost; updating
//! rewrites the record in place but never its owner. Every operation
//! derives the address with the same pure function, so a caller can only
//! ever reach the slots of its own records.

use vstd::prelude::*;

use crate::address::derive_address;
use crate::address::lemma_derive_address_injective;
use crate::address::spec_derive_address;
use crate::codec::decode_record;
use crate::codec::encode_record;
use crate::codec::lemma_encode_decode_round_trip;
use crate::codec::spec_decode;
use crate::kv::distinct_keys;
use crate::kv::has_key;
use crate::kv::kv_find;
use crate::kv::kv_map;
use crate::kv::copy_bytes;
use crate::kv::lemma_kv_push;
use crate::kv::lemma_kv_remove;
use crate::kv::lemma_kv_update;
use crate::kv::lemma_kv_value_at;
use crate::kv::Entry;
use crate::record::ExpenseAccount;
use crate::record::RecordView;
use crate::RecordError;
use crate::ALLOCATION_COST;
use crate::MERCHANT_NAME_CAPACITY;
use crate::OWNER_LEN;

verus! {

/// The mathematical value of a store: the record held at each occupied
/// address, and the balance of each identity.
#[verifier::ext_equal]
pub struct StoreView {
    pub records: Map<Seq<u8>, RecordView>,
    pub balances: Map<Seq<u8>, u64>,
}

/// The balance of `owner` under the balance map `b`: identities never
/// funded hold zero.
pub open spec fn spec_balance(b: Map<Seq<u8>, u64>, owner: Seq<u8>) -> u64 {
    if b.contains_key(owner) {
        b[owner]
    } else {
        0u64
    }
}

/// Every record of `v` is well formed and stands at the address derived
/// from its own owner and id.
pub open spec fn view_wf(v: StoreView) -> bool {
    forall|a: Seq<u8>| #[trigger] v.records.contains_key(a) ==> {
        &&& v.records[a].wf()
        &&& a == spec_derive_address(v.records[a].owner, v.records[a].id)
    }
}

/// What creating the record (id, merchant_name, amount) for `caller` does
/// to the store `v`, and what it returns. A create fails on an occupied
/// address, on a balance that cannot cover the allocation cost, and on a
/// merchant name beyond the reserved capacity; otherwise it stores the
/// record with `caller` as its owner and charges the cost.
pub open spec fn spec_initialize(
    v: StoreView,
    caller: Seq<u8>,
    id: u64,
    merchant_name: Seq<u8>,
    amount: u64,
) -> (StoreView, Result<(), RecordError>) {
    let addr = spec_derive_address(caller, id);
    if v.records.contains_key(addr) {
        (v, Err(RecordError::AddressCollision))
    } else if spec_balance(v.balances, caller) < ALLOCATION_COST {
        (v, Err(RecordError::InsufficientFunds))
    } else if merchant_name.len() > MERCHANT_NAME_CAPACITY {
        (v, Err(RecordError::SerializationOverflow))
    } else {
        (
            StoreView {
                records: v.records.insert(
                    addr,
                    RecordView { id, owner: caller, merchant_name, amount },
                ),
                balances: v.balances.insert(
                    caller,
                    (spec_balance(v.balances, caller) - ALLOCATION_COST) as u64,
                ),
            },
            Ok(()),
        )
    }
}

/// What updating the record at (caller, id) does to the store `v`, and
/// what it returns. An update fails on a missing record and on an
/// oversized merchant name; otherwise it rewrites id, merchant name and
/// amount in place and keeps the stored owner exactly as it was. The id
/// field is rewritten from the same argument that derived the slot's
/// address, so the stored id and the address can never diverge.
pub open spec fn spec_update(
    v: StoreView,
    caller: Seq<u8>,
    id: u64,
    merchant_name: Seq<u8>,
    amount: u64,
) -> (StoreView, Result<(), RecordError>) {
    let addr = spec_derive_address(caller, id);
    if !v.records.contains_key(addr) {
        (v, Err(RecordError::RecordNotFound))
    } else if merchant_name.len() > MERCHANT_NAME_CAPACITY {
        (v, Err(RecordError::SerializationOverflow))
    } else {
        (
            StoreView {
                records: v.records.insert(
                    addr,
                    RecordView { id, owner: v.records[addr].owner, merchant_name, amount },
                ),
                balances: v.balances,
            },
            Ok(()),
        )
    }
}

/// What deleting the record at (caller, id) does to the store `v`, and
/// what it returns: the slot is freed and the allocation cost flows back
/// to the caller, or the record was never there.
pub open spec fn spec_delete(v: StoreView, caller: Seq<u8>, id: u64) -> (
    StoreView,
    Result<(), RecordError>,
) {
    let addr = spec_derive_address(caller, id);
    if !v.records.contains_key(addr) {
        (v, Err(RecordError::RecordNotFound))
    } else {
        (
            StoreView {
                records: v.records.remove(addr),
                balances: v.balances.insert(
                    caller,
                    (spec_balance(v.balances, caller) + ALLOCATION_COST) as u64,
                ),
            },
            Ok(()),
        )
    }
}

/// The record stored at (owner, id) in `v`, or `RecordNotFound`.
pub open spec fn spec_read(v: StoreView, owner: Seq<u8>, id: u64) -> Result<
    RecordView,
    RecordError,
> {
    let addr = spec_derive_address(owner, id);
    if v.records.contains_key(addr) {
        Ok(v.records[addr])
    } else {
        Err(RecordError::RecordNotFound)
    }
}

/// A slot entry is valid when its bytes decode to a well-formed record
/// that stands at the address derived from its own owner and id.
spec fn valid_slot(e: Entry<Vec<u8>>) -> bool {
    &&& spec_decode(e.val@) is Some
    &&& (spec_decode(e.val@)->0).wf()
    &&& e.key@ == spec_derive_address((spec_decode(e.val@)->0).owner, (spec_decode(e.val@)->0).id)
}

/// The record store: the storage slots, keyed by derived address, and the
/// balances, keyed by identity.
pub struct RecordStore {
    slots: Vec<Entry<Vec<u8>>>,
    balances: Vec<Entry<u64>>,
}

impl View for RecordStore {
    type V = StoreView;

    closed spec fn view(&self) -> StoreView {
        StoreView {
            records: Map::new(
                |a: Seq<u8>| kv_map(self.slots@).contains_key(a),
                |a: Seq<u8>| spec_decode(kv_map(self.slots@)[a]@)->0,
            ),
            balances: kv_map(self.balances@),
        }
    }
}

impl RecordStore {
    /// The store's internal invariant: slot and balance keys are distinct,
    /// and every slot holds a valid serialized record.
    pub closed spec fn wf(&self) -> bool {
        &&& distinct_keys(self.slots@)
        &&& distinct_keys(self.balances@)
        &&& forall|i: int| 0 <= i < self.slots@.len() ==> valid_slot(#[trigger] self.slots@[i])
    }

    /// A well-formed store presents a well-formed view.
    pub proof fn lemma_wf_view(&self)
        requires
            self.wf(),
        ensures
            view_wf(self@),
    {
        assert forall|a: Seq<u8>| #[trigger] self@.records.contains_key(a) implies {
            &&& self@.records[a].wf()
            &&& a == spec_derive_address(self@.records[a].owner, self@.records[a].id)
        } by {
            let s = self.slots@;
            let i = choose|i: int| 0 <= i < s.len() && s[i].key@ == a;
            lemma_kv_value_at(s, i);
            assert(valid_slot(s[i]));
        }
    }

    /// An empty ledger: no records, no balances.
    pub fn new() -> (s: Self)
        ensures
            s.wf(),
            s@.records == Map::<Seq<u8>, RecordView>::empty(),
            s@.balances == Map::<Seq<u8>, u64>::empty(),
    {
        let s = RecordStore { slots: Vec::new(), balances: Vec::new() };
        proof {
            assert(s@.records =~= Map::<Seq<u8>, RecordView>::empty());
            assert(s@.balances =~= Map::<Seq<u8>, u64>::empty());
        }
        s
    }

    /// The balance `owner` currently holds.
    pub fn balance_of(&self, owner: &Vec<u8>) -> (b: u64)
        requires
            self.wf(),
        ensures
            b == spec_balance(self@.balances, owner@),
    {
        match kv_find(&self.balances, owner) {
            Some(i) => {
                proof {
                    lemma_kv_value_at(self.balances@, i as int);
                }
                self.balances[i].val
            },
            None => 0,
        }
    }

    /// Sets the stored balance of `owner` to exactly `b`.
    fn set_balance(&mut self, owner: &Vec<u8>, b: u64)
        requires
            distinct_keys(old(self).balances@),
        ensures
            final(self).slots == old(self).slots,
            distinct_keys(final(self).balances@),
            kv_map(final(self).balances@) == kv_map(old(self).balances@).insert(owner@, b),
    {
        let entry = Entry { key: copy_bytes(owner), val: b };
        let ghost b0 = self.balances@;
        let ghost ge = entry;
        match kv_find(&self.balances, owner) {
            Some(i) => {
                self.balances[i] = entry;
                proof {
                    lemma_kv_update(b0, i as int, ge);
                }
            },
            None => {
                self.balances.push(entry);
                proof {
                    lemma_kv_push(b0, ge);
                }
            },
        }
    }

    /// Credits `amount` to `owner`, as the surrounding runtime does when
    /// it funds an identity.
    pub fn fund(&mut self, owner: &Vec<u8>, amount: u64)
        requires
            old(self).wf(),
            spec_balance(old(self)@.balances, owner@) + amount <= u64::MAX,
        ensures
            final(self).wf(),
            final(self)@.records == old(self)@.records,
            final(self)@.balances == old(self)@.balances.insert(
                owner@,
                (spec_balance(old(self)@.balances, owner@) + amount) as u64,
            ),
    {
        let bal = self.balance_of(owner);
        self.set_balance(owner, bal + amount);
        proof {
            assert(self@.records =~= old(self)@.records);
        }
    }

    /// Creates the record (id, merchant_name, amount) for `caller`,
    /// storing it at the derived address with `caller` as its owner.
    pub fn initialize(
        &mut self,
        caller: &Vec<u8>,
        id: u64,
        merchant_name: &Vec<u8>,
        amount: u64,
    ) -> (r: Result<(), RecordError>)
        requires
            old(self).wf(),
            caller@.len() == OWNER_LEN,
        ensures
            final(self).wf(),
            final(self)@ == spec_initialize(old(self)@, caller@, id, merchant_name@, amount).0,
            r == spec_initialize(old(self)@, caller@, id, merchant_name@, amount).1,
    {
        let addr = derive_address(caller, id);
        match kv_find(&self.slots, &addr) {
            Some(i) => {
                proof {
                    assert(has_key(self.slots@, addr@));
                }
                Err(RecordError::AddressCollision)
            },
            None => {
                let bal = self.balance_of(caller);
                if bal < ALLOCATION_COST {
                    return Err(RecordError::InsufficientFunds);
                }
                if merchant_name.len() > MERCHANT_NAME_CAPACITY {
                    return Err(RecordError::SerializationOverflow);
                }
                let rec = ExpenseAccount {
                    id,
                    owner: copy_bytes(caller),
                    merchant_name: copy_bytes(merchant_name),
                    amount,
                };
                let data = match encode_record(&rec) {
                    Ok(d) => d,
                    Err(_) => vstd::pervasive::unreached(),
                };
                let entry = Entry { key: addr, val: data };
                let ghost s0 = self.slots@;
                let ghost ge = entry;
                self.slots.push(entry);
                proof {
                    lemma_kv_push(s0, ge);
                    lemma_encode_decode_round_trip(rec@);
                    assert forall|j: int| 0 <= j < self.slots@.len() implies valid_slot(
                        #[trigger] self.slots@[j],
                    ) by {
                        if j < s0.len() {
                            assert(self.slots@[j] == s0[j]);
                        } else {
                            assert(self.slots@[j] == ge);
                        }
                    }
                    assert(self@.records =~= old(self)@.records.insert(ge.key@, rec@));
                }
                self.set_balance(caller, bal - ALLOCATION_COST);
                proof {
                    assert(self@ =~= spec_initialize(
                        old(self)@,
                        caller@,
                        id,
                        merchant_name@,
                        amount,
                    ).0);
                }
                Ok(())
            },
        }
    }

    /// Rewrites the record at (caller, id) with the given fields, keeping
    /// its stored owner untouched.
    pub fn update(
        &mut self,
        caller: &Vec<u8>,
        id: u64,
        merchant_name: &Vec<u8>,
        amount: u64,
    ) -> (r: Result<(), RecordError>)
        requires
            old(self).wf(),
            caller@.len() == OWNER_LEN,
        ensures
            final(self).wf(),
            final(self)@ == spec_update(old(self)@, caller@, id, merchant_name@, amount).0,
            r == spec_update(old(self)@, caller@, id, merchant_name@, amount).1,
    {
        let addr = derive_address(caller, id);
        match kv_find(&self.slots, &addr) {
            None => Err(RecordError::RecordNotFound),
            Some(i) => {
                proof {
                    assert(has_key(self.slots@, addr@));
                    lemma_kv_value_at(self.slots@, i as int);
                }
                if merchant_name.len() > MERCHANT_NAME_CAPACITY {
                    return Err(RecordError::SerializationOverflow);
                }
                let old_rec = match decode_record(&self.slots[i].val) {
                    Some(rc) => rc,
                    None => vstd::pervasive::unreached(),
                };
                proof {
                    lemma_derive_address_injective(
                        old_rec@.owner,
                        old_rec.id,
                        caller@,
                        id,
                    );
                }
                let rec = ExpenseAccount {
                    id,
                    owner: old_rec.owner,
                    merchant_name: copy_bytes(merchant_name),
                    amount,
                };
                let data = match encode_record(&rec) {
                    Ok(d) => d,
                    Err(_) => vstd::pervasive::unreached(),
                };
                let entry = Entry { key: addr, val: data };
                let ghost s0 = self.slots@;
                let ghost ge = entry;
                self.slots[i] = entry;
                proof {
                    lemma_kv_update(s0, i as int, ge);
                    lemma_encode_decode_round_trip(rec@);
                    assert forall|j: int| 0 <= j < self.slots@.len() implies valid_slot(
                        #[trigger] self.slots@[j],
                    ) by {
                        if j != i {
                            assert(self.slots@[j] == s0[j]);
                        } else {
                            assert(self.slots@[j] == ge);
                        }
                    }
                    assert(self@.records =~= old(self)@.records.insert(
                        ge.key@,
                        rec@,
                    ));
                    assert(self@ =~= spec_update(
                        old(self)@,
                        caller@,
                        id,
                        merchant_name@,
                        amount,
                    ).0);
                }
                Ok(())
            },
        }
    }

    /// Deletes the record at (caller, id), freeing its slot and refunding
    /// the allocation cost to the caller.
    pub fn delete(&mut self, caller: &Vec<u8>, id: u64) -> (r: Result<(), RecordError>)
        requires
            old(self).wf(),
            caller@.len() == OWNER_LEN,
            old(self)@.records.contains_key(spec_derive_address(caller@, id)) ==> spec_balance(
                old(self)@.balances,
                caller@,
            ) + ALLOCATION_COST <= u64::MAX,
        ensures
            final(self).wf(),
            final(self)@ == spec_delete(old(self)@, caller@, id).0,
            r == spec_delete(old(self)@, caller@, id).1,
    {
        let addr = derive_address(caller, id);
        match kv_find(&self.slots, &addr) {
            None => Err(RecordError::RecordNotFound),
            Some(i) => {
                proof {
                    assert(has_key(self.slots@, addr@));
                }
                let ghost s0 = self.slots@;
                self.slots.remove(i);
                proof {
                    lemma_kv_remove(s0, i as int);
                    assert forall|j: int| 0 <= j < self.slots@.len() implies valid_slot(
                        #[trigger] self.slots@[j],
                    ) by {
                        if j < i {
                            assert(self.slots@[j] == s0[j]);
                        } else {
                            assert(self.slots@[j] == s0[j + 1]);
                        }
                    }
                    assert(self@.records =~= old(self)@.records.remove(addr@));
                }
                let bal = self.balance_of(caller);
                self.set_balance(caller, bal + ALLOCATION_COST);
                proof {
                    assert(self@ =~= spec_delete(old(self)@, caller@, id).0);
                }
                Ok(())
            },
        }
    }

    /// Reads the record stored at (owner, id).
    pub fn read(&self, owner: &Vec<u8>, id: u64) -> (r: Result<ExpenseAccount, RecordError>)
        requires
            self.wf(),
            owner@.len() == OWNER_LEN,
        ensures
            match r {
                Ok(rec) => spec_read(self@, owner@, id) == Ok::<RecordView, RecordError>(rec@),
                Err(e) => spec_read(self@, owner@, id) == Err::<RecordView, RecordError>(e),
            },
    {
        let addr = derive_address(owner, id);
        match kv_find(&self.slots, &addr) {
            None => Err(RecordError::RecordNotFound),
            Some(i) => {
                proof {
                    assert(has_key(self.slots@, addr@));
                    lemma_kv_value_at(self.slots@, i as int);
                }
                match decode_record(&self.slots[i].val) {
                    Some(rec) => Ok(rec),
                    None => vstd::pervasive::unreached(),
                }
            },
        }
    }
}

} // verus!
