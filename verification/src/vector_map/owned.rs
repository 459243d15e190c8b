//! A sorted-array map that aborts on allocation failure.
use vstd::prelude::*;
use vstd::std_specs::cmp::PartialEqSpec;
use crate::error::{AllocResult, array_layout_for, can_hold, zero_sized, refused_for};
use crate::order::{holds_key, key_eq, key_lt, lawful_order};
use crate::vec::allocated::{can_reserve, capacity_after_push, capacity_after_reserve};
use crate::vec::raw_vec::initial_capacity;
use super::allocated::AllocatedVectorMap;
use super::entry::Entry;
use super::iter::{Iter, IterMut, Keys, Values, ValuesMut};
use super::model::{index_of_key, inserted, removed};

verus! {

/// A map from keys to values owning its arrays.
#[derive(Debug)]
pub struct VectorMap<K: Ord, V> {
    raw: AllocatedVectorMap<K, V>,
}

impl<K: Ord, V> VectorMap<K, V> {
    /// The map as kept in its arrays.
    pub closed spec fn inner(&self) -> AllocatedVectorMap<K, V> {
        self.raw
    }

    pub open spec fn wf(&self) -> bool {
        self.inner().wf()
    }

    /// The value stored under a key equal to `k`, if any.
    pub open spec fn lookup(&self, k: K) -> Option<V> {
        self.inner().lookup(k)
    }

    /// The keys, in increasing order.
    pub open spec fn key_seq(&self) -> Seq<K> {
        self.inner().key_seq()
    }

    /// The values, in the order of their keys.
    pub open spec fn value_seq(&self) -> Seq<V> {
        self.inner().value_seq()
    }

    /// The number of entries.
    pub open spec fn size(&self) -> nat {
        self.inner().size()
    }

    /// A new, empty map; it allocates nothing.
    pub fn new() -> (r: Self)
        ensures
            r.wf(),
            r.key_seq() == Seq::<K>::empty(),
            r.value_seq() == Seq::<V>::empty(),
            r.inner().room() == initial_capacity::<K>(),
            r.inner().value_room() == initial_capacity::<V>(),
    {
        let raw = AllocatedVectorMap::new_in().unwrap();
        VectorMap { raw }
    }

    /// A new, empty map with room for `capacity` entries. It fails only when
    /// the global allocator does, which cannot happen for a capacity of zero.
    pub fn with_capacity_in(capacity: usize) -> (r: AllocResult<Self>)
        requires
            can_hold::<K>(capacity as int),
            can_hold::<V>(capacity as int),
        ensures
            r matches Ok(m) ==> m.wf() && m.key_seq() == Seq::<K>::empty() && m.value_seq()
                == Seq::<V>::empty() && m.inner().room() == (if zero_sized::<K>() {
                usize::MAX as int
            } else {
                capacity as int
            }) && m.inner().value_room() == (if zero_sized::<V>() {
                usize::MAX as int
            } else {
                capacity as int
            }),
            ((zero_sized::<K>() && zero_sized::<V>()) || capacity == 0) ==> r is Ok,
            r matches Err(e) ==> refused_for::<K>(e, capacity as int)
                || refused_for::<V>(e, capacity as int),
    {
        match AllocatedVectorMap::with_capacity_in(capacity) {
            Ok(raw) => Ok(VectorMap { raw }),
            Err(e) => Err(e),
        }
    }

    /// Take ownership of the map `raw`.
    pub fn bind(raw: AllocatedVectorMap<K, V>) -> (r: Self)
        ensures
            r.inner() == raw,
    {
        VectorMap { raw }
    }

    /// The number of entries.
    pub fn len(&self) -> (r: usize)
        ensures
            r == self.size(),
    {
        self.raw.len()
    }

    /// Whether the map has no entry.
    pub fn is_empty(&self) -> (r: bool)
        ensures
            r == (self.size() == 0),
    {
        self.raw.is_empty()
    }

    /// How many entries the key array has room for.
    pub fn capacity(&self) -> (r: usize)
        ensures
            r == self.inner().room(),
    {
        self.raw.capacity()
    }

    /// Remove every entry, keeping the capacity.
    pub fn clear(&mut self)
        requires
            old(self).wf(),
        ensures
            final(self).wf(),
            final(self).key_seq() == Seq::<K>::empty(),
            final(self).value_seq() == Seq::<V>::empty(),
            final(self).inner().room() == old(self).inner().room(),
            final(self).inner().value_room() == old(self).inner().value_room(),
    {
        self.raw.clear()
    }

    /// An iterator over the keys, in increasing order.
    pub fn keys(&self) -> (r: Keys<'_, K>)
        requires
            self.wf(),
        ensures
            r.wf(),
            r.remaining() == self.key_seq(),
    {
        self.raw.keys()
    }

    /// An iterator over the values, in the order of their keys.
    pub fn values(&self) -> (r: Values<'_, V>)
        requires
            self.wf(),
        ensures
            r.wf(),
            r.remaining() == self.value_seq(),
    {
        self.raw.values()
    }

    /// An iterator over the values, each for writing.
    pub fn values_mut(&mut self) -> (r: ValuesMut<'_, K, V>)
        requires
            old(self).wf(),
        ensures
            r.wf(),
            r.position() == 0,
            r.end() == old(self).size(),
            *r.target() == old(self).inner(),
            *final(r.target()) == final(self).inner(),
    {
        self.raw.values_mut()
    }

    /// An iterator over the entries, in increasing order of keys.
    pub fn iter(&self) -> (r: Iter<'_, K, V>)
        requires
            self.wf(),
        ensures
            r.wf(),
            r.remaining_keys() == self.key_seq(),
            r.remaining_values() == self.value_seq(),
    {
        self.raw.iter()
    }

    /// An iterator over the entries, each value for writing.
    pub fn iter_mut(&mut self) -> (r: IterMut<'_, K, V>)
        requires
            old(self).wf(),
        ensures
            r.wf(),
            r.position() == 0,
            r.end() == old(self).size(),
            *r.target() == old(self).inner(),
            *final(r.target()) == final(self).inner(),
    {
        self.raw.iter_mut()
    }

    /// Map `k` to `v`, returning the value a key equal to `k` had, if any.
    /// A present key keeps its place and is not replaced; a new one is
    /// inserted in its place.
    pub fn insert(&mut self, k: K, v: V) -> (r: Option<V>)
        requires
            lawful_order::<K>(),
            old(self).wf(),
            old(self).inner().can_insert(),
        ensures
            final(self).wf(),
            r == old(self).lookup(k),
            final(self).lookup(k) == Some(v),
            forall|q: K| !key_eq(q, k) ==> #[trigger] final(self).lookup(q) == old(self).lookup(q),
            inserted(old(self).key_seq(), old(self).value_seq(), final(self).key_seq(), final(self).value_seq(), k, v),
            holds_key(old(self).key_seq(), k) ==> final(self).inner().room() == old(self).inner().room()
                && final(self).inner().value_room() == old(self).inner().value_room(),
            !holds_key(old(self).key_seq(), k) ==> final(self).inner().room() == capacity_after_push(
                old(self).size() as int,
                old(self).inner().room() as int,
            ) && final(self).inner().value_room() == capacity_after_push(
                old(self).size() as int,
                old(self).inner().value_room() as int,
            ),
    {
        self.raw.insert(k, v)
    }

    /// Remove the entry whose key equals `k`, returning its value, or `None`
    /// if there is no such entry.
    pub fn remove(&mut self, k: K) -> (r: Option<V>)
        requires
            lawful_order::<K>(),
            old(self).wf(),
        ensures
            final(self).wf(),
            r == old(self).lookup(k),
            final(self).lookup(k) is None,
            forall|q: K| !key_eq(q, k) ==> #[trigger] final(self).lookup(q) == old(self).lookup(q),
            r is None ==> final(self).key_seq() == old(self).key_seq() && final(self).value_seq()
                == old(self).value_seq(),
            r is Some ==> final(self).size() + 1 == old(self).size(),
            removed(old(self).key_seq(), old(self).value_seq(), final(self).key_seq(), final(self).value_seq(), k),
            final(self).inner().room() == old(self).inner().room(),
            final(self).inner().value_room() == old(self).inner().value_room(),
    {
        self.raw.remove(k)
    }

    /// The value stored under a key equal to `k`, if any.
    pub fn get(&self, k: &K) -> (r: Option<&V>)
        requires
            lawful_order::<K>(),
            self.wf(),
        ensures
            r is Some == self.lookup(*k) is Some,
            r matches Some(x) ==> self.lookup(*k) == Some(*x),
    {
        self.raw.get(k)
    }

    /// The value stored under a key equal to `k`, for writing, if any.
    pub fn get_mut(&mut self, k: &K) -> (r: Option<&mut V>)
        requires
            lawful_order::<K>(),
            old(self).wf(),
        ensures
            final(self).wf(),
            final(self).key_seq() == old(self).key_seq(),
            r is Some == old(self).lookup(*k) is Some,
            r is None ==> final(self).value_seq() == old(self).value_seq(),
            r matches Some(x) ==> old(self).lookup(*k) == Some(*x) && final(self).value_seq()
                == old(self).value_seq().update(index_of_key(old(self).key_seq(), *k), *final(x)),
    {
        self.raw.get_mut(k)
    }

    /// Whether a key equal to `k` is present.
    pub fn contains_key(&self, k: &K) -> (r: bool)
        requires
            lawful_order::<K>(),
            self.wf(),
        ensures
            r == self.lookup(*k) is Some,
            r == holds_key(self.key_seq(), *k),
    {
        self.raw.get(k).is_some()
    }

    /// The entry for `k`, present or absent.
    pub fn entry(&mut self, k: K) -> (r: Entry<'_, K, V>)
        requires
            lawful_order::<K>(),
            old(self).wf(),
        ensures
            *r.target() == old(self).inner(),
            *final(r.target()) == final(self).inner(),
            match r {
                Entry::Vacant(e) => !holds_key(old(self).key_seq(), k) && e.key() == k
                    && crate::order::insertion_point(old(self).key_seq(), k, e.index()),
                Entry::Occupied(e) => holds_key(old(self).key_seq(), k) && e.wf() && key_eq(
                    old(self).key_seq()[e.index()],
                    k,
                ),
            },
    {
        self.raw.entry_in(k)
    }

    /// Make room for at least `additional` more entries.
    pub fn reserve(&mut self, additional: usize)
        requires
            old(self).wf(),
            can_reserve::<K>(old(self).size() as int, old(self).inner().room() as int, additional as int),
            can_reserve::<V>(
                old(self).size() as int,
                old(self).inner().value_room() as int,
                additional as int,
            ),
        ensures
            final(self).wf(),
            final(self).key_seq() == old(self).key_seq(),
            final(self).value_seq() == old(self).value_seq(),
            final(self).inner().room() == capacity_after_reserve(
                old(self).size() as int,
                old(self).inner().room() as int,
                additional as int,
            ),
            final(self).inner().value_room() == capacity_after_reserve(
                old(self).size() as int,
                old(self).inner().value_room() as int,
                additional as int,
            ),
    {
        self.raw.reserve_in(additional)
    }

    /// Shrink both arrays to the number of entries.
    pub fn shrink_to_fit(&mut self)
        requires
            old(self).wf(),
        ensures
            final(self).wf(),
            final(self).key_seq() == old(self).key_seq(),
            final(self).value_seq() == old(self).value_seq(),
            final(self).inner().room() == if zero_sized::<K>() {
                usize::MAX as int
            } else {
                old(self).size() as int
            },
            final(self).inner().value_room() == if zero_sized::<V>() {
                usize::MAX as int
            } else {
                old(self).size() as int
            },
    {
        self.raw.shrink_to_fit();
    }

    /// The entry with the least key, if any.
    pub fn first(&self) -> (r: Option<(&K, &V)>)
        requires
            self.wf(),
        ensures
            self.size() == 0 ==> r is None,
            self.size() > 0 ==> (r matches Some((k, v)) && *k == self.key_seq()[0] && *v
                == self.value_seq()[0]),
            r matches Some((k, v)) ==> forall|i: int|
                0 < i < self.size() ==> key_lt(*k, #[trigger] self.key_seq()[i]),
    {
        self.raw.first()
    }

    /// Remove the entry with the greatest key and return it, or `None` if the
    /// map is empty.
    pub fn pop(&mut self) -> (r: Option<(K, V)>)
        requires
            old(self).wf(),
        ensures
            final(self).wf(),
            final(self).inner().room() == old(self).inner().room(),
            final(self).inner().value_room() == old(self).inner().value_room(),
            old(self).size() == 0 ==> r is None && final(self).key_seq() == old(self).key_seq()
                && final(self).value_seq() == old(self).value_seq(),
            r matches Some((k, v)) ==> forall|i: int|
                0 <= i < final(self).size() ==> key_lt(#[trigger] final(self).key_seq()[i], k),
            old(self).size() > 0 ==> r == Some((old(self).key_seq().last(), old(self).value_seq().last()))
                && final(self).key_seq() == old(self).key_seq().drop_last()
                && final(self).value_seq() == old(self).value_seq().drop_last(),
    {
        self.raw.pop()
    }
}

impl<K: Ord, V> Default for VectorMap<K, V> {
    fn default() -> (r: Self)
        ensures
            r.wf(),
            r.key_seq() == Seq::<K>::empty(),
            r.value_seq() == Seq::<V>::empty(),
    {
        VectorMap::new()
    }
}

} // verus!

verus! {

impl<K: Ord, V: PartialEq> PartialEq for VectorMap<K, V> {
    /// Two maps are equal when their keys and their values are pairwise equal.
    fn eq(&self, other: &Self) -> (r: bool) {
        self.raw == other.raw
    }
}

impl<K: Ord, V: PartialEq> vstd::std_specs::cmp::PartialEqSpecImpl for VectorMap<K, V> {
    open spec fn obeys_eq_spec() -> bool {
        K::obeys_eq_spec() && V::obeys_eq_spec()
    }

    open spec fn eq_spec(&self, other: &Self) -> bool {
        &&& self.key_seq().len() == other.key_seq().len()
        &&& forall|j: int| 0 <= j < self.key_seq().len() ==> (#[trigger] self.key_seq()[j]).eq_spec(&other.key_seq()[j])
        &&& self.value_seq().len() == other.value_seq().len()
        &&& forall|j: int| 0 <= j < self.value_seq().len() ==> (#[trigger] self.value_seq()[j]).eq_spec(&other.value_seq()[j])
    }
}

impl<K: Ord, V: Eq> Eq for VectorMap<K, V> {
}

} // verus!
