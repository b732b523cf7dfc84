//! Byte-keyed association lists with a `Map` view.
//!
//! The ledger keeps its storage slots and its balances as vectors of
//! key/value entries whose keys are byte strings. This module gives such a
//! vector a mathematical `Map` view and proves how pushing, updating and
//! removing an entry act on that view, provided the keys stay distinct.

use vstd::prelude::*;

verus! {

broadcast use vstd::seq_lib::group_seq_properties;

/// One entry of an association list: a byte-string key and a value.
pub struct Entry<V> {
    pub key: Vec<u8>,
    pub val: V,
}

/// Whether some entry of `s` has key `k`.
pub open spec fn has_key<V>(s: Seq<Entry<V>>, k: Seq<u8>) -> bool {
    exists|i: int| 0 <= i < s.len() && s[i].key@ == k
}

/// The index of an entry of `s` whose key is `k`.
pub open spec fn index_of<V>(s: Seq<Entry<V>>, k: Seq<u8>) -> int {
    choose|i: int| 0 <= i < s.len() && s[i].key@ == k
}

/// No two entries of `s` share a key.
pub open spec fn distinct_keys<V>(s: Seq<Entry<V>>) -> bool {
    forall|i: int, j: int| 0 <= i < j < s.len() ==> s[i].key@ != s[j].key@
}

/// The map that `s` represents: each key present in `s` is sent to the
/// value stored beside it.
pub open spec fn kv_map<V>(s: Seq<Entry<V>>) -> Map<Seq<u8>, V> {
    Map::new(|k: Seq<u8>| has_key(s, k), |k: Seq<u8>| s[index_of(s, k)].val)
}

/// With distinct keys, the entry at index `i` is exactly what the map view
/// stores under that entry's key.
pub proof fn lemma_kv_value_at<V>(s: Seq<Entry<V>>, i: int)
    requires
        distinct_keys(s),
        0 <= i < s.len(),
    ensures
        kv_map(s).contains_key(s[i].key@),
        kv_map(s)[s[i].key@] == s[i].val,
{
    let k = s[i].key@;
    assert(has_key(s, k));
    let j = index_of(s, k);
    assert(0 <= j < s.len() && s[j].key@ == k);
    assert(j == i);
}

/// Pushing an entry with a fresh key inserts it into the map view.
pub proof fn lemma_kv_push<V>(s: Seq<Entry<V>>, e: Entry<V>)
    requires
        distinct_keys(s),
        !has_key(s, e.key@),
    ensures
        distinct_keys(s.push(e)),
        kv_map(s.push(e)) == kv_map(s).insert(e.key@, e.val),
{
    let t = s.push(e);
    assert forall|i: int, j: int| 0 <= i < j < t.len() implies t[i].key@ != t[j].key@ by {
        if j == s.len() {
            assert(t[i] == s[i]);
            assert(has_key(s, s[i].key@));
        }
    }
    assert forall|k: Seq<u8>| #[trigger] kv_map(t).contains_key(k)
        <==> kv_map(s).insert(e.key@, e.val).contains_key(k) by {
        if k == e.key@ {
            assert(t[s.len() as int].key@ == k);
            assert(has_key(t, k));
        } else {
            if has_key(t, k) {
                let i = choose|i: int| 0 <= i < t.len() && t[i].key@ == k;
                assert(i < s.len());
                assert(s[i].key@ == k);
                assert(has_key(s, k));
            }
            if has_key(s, k) {
                let i = choose|i: int| 0 <= i < s.len() && s[i].key@ == k;
                assert(t[i].key@ == k);
                assert(has_key(t, k));
            }
        }
    }
    assert forall|k: Seq<u8>| kv_map(t).contains_key(k) implies #[trigger] kv_map(t)[k]
        == kv_map(s).insert(e.key@, e.val)[k] by {
        let i = index_of(t, k);
        assert(0 <= i < t.len() && t[i].key@ == k);
        if k == e.key@ {
            if i < s.len() {
                assert(s[i].key@ == k);
                assert(has_key(s, k));
                assert(false);
            }
            assert(t[i].val == e.val);
        } else {
            assert(i < s.len());
            assert(s[i].key@ == k);
            lemma_kv_value_at(s, i);
        }
    }
    assert(kv_map(t) =~= kv_map(s).insert(e.key@, e.val));
}

/// Replacing the entry at index `i` by one with the same key updates the
/// map view at that key.
pub proof fn lemma_kv_update<V>(s: Seq<Entry<V>>, i: int, e: Entry<V>)
    requires
        distinct_keys(s),
        0 <= i < s.len(),
        e.key@ == s[i].key@,
    ensures
        distinct_keys(s.update(i, e)),
        kv_map(s.update(i, e)) == kv_map(s).insert(e.key@, e.val),
{
    let t = s.update(i, e);
    assert forall|k: Seq<u8>| #[trigger] kv_map(t).contains_key(k)
        <==> kv_map(s).insert(e.key@, e.val).contains_key(k) by {
        if has_key(t, k) {
            let j = choose|j: int| 0 <= j < t.len() && t[j].key@ == k;
            assert(s[j].key@ == k);
            assert(has_key(s, k));
        }
        if has_key(s, k) {
            let j = choose|j: int| 0 <= j < s.len() && s[j].key@ == k;
            assert(t[j].key@ == k);
            assert(has_key(t, k));
        }
    }
    assert forall|k: Seq<u8>| kv_map(t).contains_key(k) implies #[trigger] kv_map(t)[k]
        == kv_map(s).insert(e.key@, e.val)[k] by {
        let j = index_of(t, k);
        assert(0 <= j < t.len() && t[j].key@ == k);
        if k == e.key@ {
            if j != i {
                assert(s[j].key@ == k);
                assert(false);
            }
            assert(t[j].val == e.val);
        } else {
            assert(j != i);
            assert(s[j].key@ == k);
            lemma_kv_value_at(s, j);
        }
    }
    assert(kv_map(t) =~= kv_map(s).insert(e.key@, e.val));
}

/// Removing the entry at index `i` removes that entry's key from the map
/// view.
pub proof fn lemma_kv_remove<V>(s: Seq<Entry<V>>, i: int)
    requires
        distinct_keys(s),
        0 <= i < s.len(),
    ensures
        distinct_keys(s.remove(i)),
        kv_map(s.remove(i)) == kv_map(s).remove(s[i].key@),
{
    let t = s.remove(i);
    assert forall|p: int, q: int| 0 <= p < q < t.len() implies t[p].key@ != t[q].key@ by {
        let p0: int = if p < i { p } else { p + 1 };
        let q0: int = if q < i { q } else { q + 1 };
        assert(t[p] == s[p0]);
        assert(t[q] == s[q0]);
    }
    assert forall|k: Seq<u8>| #[trigger] kv_map(t).contains_key(k)
        <==> kv_map(s).remove(s[i].key@).contains_key(k) by {
        if has_key(t, k) {
            let j = choose|j: int| 0 <= j < t.len() && t[j].key@ == k;
            let j0: int = if j < i { j } else { j + 1 };
            assert(t[j] == s[j0]);
            assert(s[j0].key@ == k);
            assert(has_key(s, k));
            assert(j0 != i);
            assert(k != s[i].key@);
        }
        if has_key(s, k) && k != s[i].key@ {
            let j = choose|j: int| 0 <= j < s.len() && s[j].key@ == k;
            assert(j != i);
            let j0: int = if j < i { j } else { j - 1 };
            assert(t[j0] == s[j]);
            assert(has_key(t, k));
        }
    }
    assert forall|k: Seq<u8>| kv_map(t).contains_key(k) implies #[trigger] kv_map(t)[k]
        == kv_map(s).remove(s[i].key@)[k] by {
        let j = index_of(t, k);
        assert(0 <= j < t.len() && t[j].key@ == k);
        let j0: int = if j < i { j } else { j + 1 };
        assert(t[j] == s[j0]);
        assert(s[j0].key@ == k);
        lemma_kv_value_at(s, j0);
        assert(j0 != i);
        assert(k != s[i].key@);
    }
    assert(kv_map(t) =~= kv_map(s).remove(s[i].key@));
}

/// Whether the byte vectors `a` and `b` hold the same bytes.
pub fn bytes_eq(a: &Vec<u8>, b: &Vec<u8>) -> (r: bool)
    ensures
        r <==> a@ == b@,
{
    if a.len() != b.len() {
        return false;
    }
    let mut i: usize = 0;
    while i < a.len()
        invariant
            i <= a@.len(),
            a@.len() == b@.len(),
            forall|j: int| 0 <= j < i ==> a@[j] == b@[j],
        decreases a@.len() - i,
    {
        if a[i] != b[i] {
            return false;
        }
        i += 1;
    }
    proof {
        assert(a@ =~= b@);
    }
    true
}

/// A fresh copy of the byte vector `v`.
pub fn copy_bytes(v: &Vec<u8>) -> (r: Vec<u8>)
    ensures
        r@ == v@,
{
    vstd::slice::slice_to_vec(v.as_slice())
}

/// The index of the entry of `entries` whose key holds the same bytes as
/// `key`, if there is one.
pub fn kv_find<V>(entries: &Vec<Entry<V>>, key: &Vec<u8>) -> (r: Option<usize>)
    ensures
        match r {
            Some(i) => i < entries@.len() && entries@[i as int].key@ == key@,
            None => !has_key(entries@, key@),
        },
{
    let mut i: usize = 0;
    while i < entries.len()
        invariant
            i <= entries@.len(),
            forall|j: int| 0 <= j < i ==> entries@[j].key@ != key@,
        decreases entries@.len() - i,
    {
        if bytes_eq(&entries[i].key, key) {
            return Some(i);
        }
        i += 1;
    }
    None
}

} // verus!
