//! The map that a pair of parallel key and value sequences stands for, and
//! how it changes when entries are inserted, updated or removed.
use vstd::prelude::*;
use crate::order::{
    holds_key, insertion_point, key_eq, lawful_order, lemma_order_facts, lemma_unique_key,
    strictly_sorted,
};

verus! {

/// The value stored under a key equal to `k`, if any: the value at the
/// position of the (only) such key.
pub open spec fn value_of<K: Ord, V>(keys: Seq<K>, values: Seq<V>, k: K) -> Option<V> {
    if holds_key(keys, k) {
        Some(values[index_of_key(keys, k)])
    } else {
        None
    }
}

/// The position of a key equal to `k`, when there is one.
pub open spec fn index_of_key<K: Ord>(keys: Seq<K>, k: K) -> int {
    choose|i: int| 0 <= i < keys.len() && key_eq(#[trigger] keys[i], k)
}

/// `after` is `before` with `k` mapped to `v`: the value of a present equal
/// key is replaced (the key stays), otherwise the entry is inserted where
/// `k` belongs.
pub open spec fn inserted<K: Ord, V>(
    before_keys: Seq<K>,
    before_values: Seq<V>,
    after_keys: Seq<K>,
    after_values: Seq<V>,
    k: K,
    v: V,
) -> bool {
    if holds_key(before_keys, k) {
        &&& after_keys == before_keys
        &&& after_values == before_values.update(index_of_key(before_keys, k), v)
    } else {
        exists|pos: int|
            insertion_point(before_keys, k, pos) && after_keys == before_keys.insert(pos, k)
                && after_values == before_values.insert(pos, v)
    }
}

/// `after` is `before` without the entry whose key equals `k`, if there is one.
pub open spec fn removed<K: Ord, V>(
    before_keys: Seq<K>,
    before_values: Seq<V>,
    after_keys: Seq<K>,
    after_values: Seq<V>,
    k: K,
) -> bool {
    if holds_key(before_keys, k) {
        &&& after_keys == before_keys.remove(index_of_key(before_keys, k))
        &&& after_values == before_values.remove(index_of_key(before_keys, k))
    } else {
        &&& after_keys == before_keys
        &&& after_values == before_values
    }
}

/// Parallel sequences of strictly increasing keys and their values.
pub open spec fn well_keyed<K: Ord, V>(keys: Seq<K>, values: Seq<V>) -> bool {
    &&& keys.len() == values.len()
    &&& strictly_sorted(keys)
}

/// The value under a key equal to `k` is the one at the position of that key.
pub proof fn lemma_value_at<K: Ord, V>(keys: Seq<K>, values: Seq<V>, k: K, i: int)
    requires
        lawful_order::<K>(),
        well_keyed(keys, values),
        0 <= i < keys.len(),
        key_eq(keys[i], k),
    ensures
        index_of_key(keys, k) == i,
        value_of(keys, values, k) == Some(values[i]),
{
    assert(holds_key(keys, k));
    let j = index_of_key(keys, k);
    lemma_unique_key(keys, k, i, j);
}

/// After inserting `k` with `v` at its insertion point, `k` maps to `v` and
/// every other key keeps its value.
pub proof fn lemma_value_after_insert<K: Ord, V>(
    keys: Seq<K>,
    values: Seq<V>,
    k: K,
    v: V,
    pos: int,
    q: K,
)
    requires
        lawful_order::<K>(),
        well_keyed(keys, values),
        insertion_point(keys, k, pos),
    ensures
        well_keyed(keys.insert(pos, k), values.insert(pos, v)),
        value_of(keys.insert(pos, k), values.insert(pos, v), q) == if key_eq(q, k) {
            Some(v)
        } else {
            value_of(keys, values, q)
        },
{
    lemma_order_facts::<K>();
    crate::order::lemma_insert_sorted(keys, k, pos);
    let nk = keys.insert(pos, k);
    let nv = values.insert(pos, v);
    if key_eq(q, k) {
        assert(nk[pos] == k);
        lemma_value_at(nk, nv, q, pos);
    } else if holds_key(keys, q) {
        let i = choose|i: int| 0 <= i < keys.len() && key_eq(#[trigger] keys[i], q);
        lemma_value_at(keys, values, q, i);
        if i < pos {
            assert(nk[i] == keys[i] && nv[i] == values[i]);
            lemma_value_at(nk, nv, q, i);
        } else {
            assert(nk[i + 1] == keys[i] && nv[i + 1] == values[i]);
            lemma_value_at(nk, nv, q, i + 1);
        }
    } else {
        assert forall|j: int| 0 <= j < nk.len() implies !key_eq(#[trigger] nk[j], q) by {
            if j < pos {
                assert(nk[j] == keys[j]);
            } else if j > pos {
                assert(nk[j] == keys[j - 1]);
            }
        }
    }
}

/// After replacing the value at position `pos`, the key there maps to `v`
/// and every other key keeps its value.
pub proof fn lemma_value_after_update<K: Ord, V>(
    keys: Seq<K>,
    values: Seq<V>,
    pos: int,
    v: V,
    q: K,
)
    requires
        lawful_order::<K>(),
        well_keyed(keys, values),
        0 <= pos < keys.len(),
    ensures
        well_keyed(keys, values.update(pos, v)),
        value_of(keys, values.update(pos, v), q) == if key_eq(keys[pos], q) {
            Some(v)
        } else {
            value_of(keys, values, q)
        },
{
    lemma_order_facts::<K>();
    let nv = values.update(pos, v);
    if key_eq(keys[pos], q) {
        lemma_value_at(keys, nv, q, pos);
    } else if holds_key(keys, q) {
        let i = choose|i: int| 0 <= i < keys.len() && key_eq(#[trigger] keys[i], q);
        lemma_value_at(keys, values, q, i);
        lemma_value_at(keys, nv, q, i);
    }
}

/// After removing the entry at position `pos`, its key maps to nothing and
/// every other key keeps its value.
pub proof fn lemma_value_after_remove<K: Ord, V>(keys: Seq<K>, values: Seq<V>, pos: int, q: K)
    requires
        lawful_order::<K>(),
        well_keyed(keys, values),
        0 <= pos < keys.len(),
    ensures
        well_keyed(keys.remove(pos), values.remove(pos)),
        value_of(keys.remove(pos), values.remove(pos), q) == if key_eq(keys[pos], q) {
            None
        } else {
            value_of(keys, values, q)
        },
{
    lemma_order_facts::<K>();
    crate::order::lemma_remove_sorted(keys, pos);
    let nk = keys.remove(pos);
    let nv = values.remove(pos);
    if key_eq(keys[pos], q) {
        assert forall|j: int| 0 <= j < nk.len() implies !key_eq(#[trigger] nk[j], q) by {
            let a = if j < pos { j } else { j + 1 };
            assert(nk[j] == keys[a]);
            if key_eq(keys[a], q) {
                lemma_unique_key(keys, q, a, pos);
            }
        }
    } else if holds_key(keys, q) {
        let i = choose|i: int| 0 <= i < keys.len() && key_eq(#[trigger] keys[i], q);
        lemma_value_at(keys, values, q, i);
        if i < pos {
            assert(nk[i] == keys[i] && nv[i] == values[i]);
            lemma_value_at(nk, nv, q, i);
        } else {
            assert(i != pos);
            assert(nk[i - 1] == keys[i] && nv[i - 1] == values[i]);
            lemma_value_at(nk, nv, q, i - 1);
        }
    } else {
        assert forall|j: int| 0 <= j < nk.len() implies !key_eq(#[trigger] nk[j], q) by {
            let a = if j < pos { j } else { j + 1 };
            assert(nk[j] == keys[a]);
        }
    }
}

/// Removing a key that was absent and has just been inserted gives back
/// the entries as they were.
pub proof fn law_remove_undoes_insert<K: Ord, V>(
    keys0: Seq<K>,
    values0: Seq<V>,
    keys1: Seq<K>,
    values1: Seq<V>,
    keys2: Seq<K>,
    values2: Seq<V>,
    k: K,
    v: V,
)
    requires
        lawful_order::<K>(),
        well_keyed(keys0, values0),
        !holds_key(keys0, k),
        inserted(keys0, values0, keys1, values1, k, v),
        removed(keys1, values1, keys2, values2, k),
    ensures
        keys2 == keys0,
        values2 == values0,
{
    lemma_order_facts::<K>();
    let pos = choose|pos: int|
        insertion_point(keys0, k, pos) && keys1 == keys0.insert(pos, k) && values1 == values0.insert(
            pos,
            v,
        );
    lemma_value_after_insert(keys0, values0, k, v, pos, k);
    assert(keys1[pos] == k);
    lemma_value_at(keys1, values1, k, pos);
    assert(keys2 =~= keys0);
    assert(values2 =~= values0);
}

} // verus!
