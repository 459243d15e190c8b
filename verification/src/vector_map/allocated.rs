//! A map kept as two parallel arrays, the keys in strictly increasing order,
//! which reports allocation failures.
use vstd::prelude::*;
use vstd::std_specs::cmp::PartialEqSpec;
use crate::error::{AllocResult, array_layout_for, can_hold, zero_sized, refused_for};
use crate::order::{
    holds_key, insertion_point, key_eq, key_lt, lawful_order, search_sorted, strictly_sorted,
};
use crate::vec::allocated::{
    AllocatedVec, can_push, can_reserve, capacity_after_push, capacity_after_reserve,
};
use crate::vec::alloc_log::{AllocLog, one_request_if, refused, requested};
use crate::vec::raw_vec::{grown_capacity, initial_capacity, reserved_capacity, shrunk_capacity};
use super::model::{
    lemma_value_after_insert, lemma_value_after_remove, lemma_value_after_update, lemma_value_at,
    index_of_key, inserted, removed, value_of, well_keyed,
};

verus! {

/// What `insert_in` promises when it maps `k` to `v` in the map `m0`,
/// leaving the map `m1` and returning `r`.
pub open spec fn insert_in_outcome<K: Ord, V>(
    m0: AllocatedVectorMap<K, V>,
    m1: AllocatedVectorMap<K, V>,
    k: K,
    v: V,
    r: AllocResult<Option<V>>,
) -> bool {
    &&& m1.wf()
    &&& one_request_if(
        m0.key_log(),
        m1.key_log(),
        !holds_key(m0.key_seq(), k) && m0.size() == m0.room(),
        grown_capacity(m0.room() as int),
    )
    &&& one_request_if(
        m0.value_log(),
        m1.value_log(),
        !holds_key(m0.key_seq(), k) && m0.size() == m0.value_room() && !refused(
            m0.key_log(),
            m1.key_log(),
        ),
        grown_capacity(m0.value_room() as int),
    )
    &&& (r is Err <==> refused(m0.key_log(), m1.key_log()) || refused(m0.value_log(), m1.value_log()))
    &&& r matches Ok(prev) ==> {
        &&& prev == m0.lookup(k)
        &&& inserted(m0.key_seq(), m0.value_seq(), m1.key_seq(), m1.value_seq(), k, v)
    }
    &&& r is Err ==> m1.key_seq() == m0.key_seq() && m1.value_seq() == m0.value_seq()
    &&& r matches Err(e) ==> refused_for::<K>(e, grown_capacity(m0.room() as int)) || refused_for::<V>(
        e,
        grown_capacity(m0.value_room() as int),
    )
}

/// A map from keys to values, stored as sorted parallel arrays.
#[derive(Debug)]
pub struct AllocatedVectorMap<K: Ord, V> {
    keys: AllocatedVec<K>,
    values: AllocatedVec<V>,
}

impl<K: Ord, V> AllocatedVectorMap<K, V> {
    /// Both arrays are consistent, as long as each other, and the keys are
    /// strictly increasing.
    pub closed spec fn wf(&self) -> bool {
        &&& self.keys.wf()
        &&& self.values.wf()
        &&& well_keyed(self.keys@, self.values@)
    }

    /// The key and the value at `pos`, the value for writing.
    pub(crate) fn entry_at_mut(&mut self, pos: usize) -> (r: (&K, &mut V))
        requires
            old(self).wf(),
            pos < old(self).size(),
        ensures
            *r.0 == old(self).key_seq()[pos as int],
            *r.1 == old(self).value_seq()[pos as int],
            final(self).wf(),
            final(self).key_seq() == old(self).key_seq(),
            final(self).value_seq() == old(self).value_seq().update(pos as int, *final(r.1)),
            final(self).room() == old(self).room(),
            final(self).value_room() == old(self).value_room(),
    {
        (self.keys.get(pos), self.values.get_mut(pos))
    }

    /// The keys, in increasing order.
    pub closed spec fn key_seq(&self) -> Seq<K> {
        self.keys@
    }

    /// The values, in the order of their keys.
    pub closed spec fn value_seq(&self) -> Seq<V> {
        self.values@
    }

    /// How many keys the key array has room for.
    pub closed spec fn room(&self) -> nat {
        self.keys.room()
    }

    /// How many values the value array has room for.
    pub closed spec fn value_room(&self) -> nat {
        self.values.room()
    }

    /// The requests the key array has made of the global allocator.
    pub closed spec fn key_log(&self) -> AllocLog {
        self.keys.log()
    }

    /// The requests the value array has made of the global allocator.
    pub closed spec fn value_log(&self) -> AllocLog {
        self.values.log()
    }

    /// The value stored under a key equal to `k`, if any.
    pub open spec fn lookup(&self, k: K) -> Option<V> {
        value_of(self.key_seq(), self.value_seq(), k)
    }

    /// The number of entries.
    pub open spec fn size(&self) -> nat {
        self.key_seq().len()
    }

    /// A new entry can be added: both arrays have room or can grow.
    pub open spec fn can_insert(&self) -> bool {
        &&& can_push::<K>(self.size() as int, self.room() as int)
        &&& can_push::<V>(self.size() as int, self.value_room() as int)
    }

    pub proof fn lemma_wf(&self)
        requires
            self.wf(),
        ensures
            well_keyed(self.key_seq(), self.value_seq()),
            self.key_seq().len() <= self.room(),
            self.value_seq().len() <= self.value_room(),
            can_hold::<K>(self.room() as int),
            can_hold::<V>(self.value_room() as int),
            zero_sized::<K>() ==> self.room() == usize::MAX,
            zero_sized::<V>() ==> self.value_room() == usize::MAX,
    {
        self.keys.lemma_wf();
        self.values.lemma_wf();
    }

    /// A new, empty map. It allocates nothing, so it cannot fail.
    pub fn new_in() -> (r: AllocResult<Self>)
        ensures
            r matches Ok(m) && m.wf() && m.key_seq() == Seq::<K>::empty() && m.value_seq()
                == Seq::<V>::empty() && m.room() == initial_capacity::<K>() && m.value_room()
                == initial_capacity::<V>(),
    {
        let keys = match AllocatedVec::try_with_capacity_in(0) {
            Ok(keys) => keys,
            Err(e) => {
                return Err(e);
            },
        };
        let values = match AllocatedVec::try_with_capacity_in(0) {
            Ok(values) => values,
            Err(e) => {
                return Err(e);
            },
        };
        Ok(AllocatedVectorMap { keys, values })
    }

    /// A new, empty map with room for `capacity` entries. It fails only when
    /// the global allocator does, which cannot happen for a capacity of zero.
    pub fn with_capacity_in(capacity: usize) -> (r: AllocResult<Self>)
        requires
            can_hold::<K>(capacity as int),
            can_hold::<V>(capacity as int),
        ensures
            r matches Ok(m) ==> m.wf() && m.key_seq() == Seq::<K>::empty() && m.value_seq()
                == Seq::<V>::empty() && m.room() == (if zero_sized::<K>() {
                usize::MAX as int
            } else {
                capacity as int
            }) && m.value_room() == (if zero_sized::<V>() {
                usize::MAX as int
            } else {
                capacity as int
            }),
            ((zero_sized::<K>() && zero_sized::<V>()) || capacity == 0) ==> r is Ok,
            r matches Err(e) ==> refused_for::<K>(e, capacity as int)
                || refused_for::<V>(e, capacity as int),
    {
        let keys = match AllocatedVec::try_with_capacity_in(capacity) {
            Ok(keys) => keys,
            Err(e) => {
                return Err(e);
            },
        };
        let values = match AllocatedVec::try_with_capacity_in(capacity) {
            Ok(values) => values,
            Err(e) => {
                return Err(e);
            },
        };
        Ok(AllocatedVectorMap { keys, values })
    }

    /// A new map holding only `k` mapped to `v`, with room for one entry.
    pub fn one_in(k: K, v: V) -> (r: AllocResult<Self>)
        requires
            can_hold::<K>(1),
            can_hold::<V>(1),
        ensures
            r matches Ok(m) ==> m.wf() && m.key_seq() == seq![k] && m.value_seq() == seq![v]
                && m.room() == (if zero_sized::<K>() {
                usize::MAX as int
            } else {
                1
            }) && m.value_room() == (if zero_sized::<V>() {
                usize::MAX as int
            } else {
                1
            }),
            (zero_sized::<K>() && zero_sized::<V>()) ==> r is Ok,
            r matches Err(e) ==> refused_for::<K>(e, 1)
                || refused_for::<V>(e, 1),
    {
        let mut s = match Self::with_capacity_in(1) {
            Ok(s) => s,
            Err(e) => {
                return Err(e);
            },
        };
        proof { s.lemma_wf(); }
        match s.keys.insert_in(0, k) {
            Ok(()) => {},
            Err(e) => {
                return Err(e);
            },
        }
        match s.values.insert_in(0, v) {
            Ok(()) => {},
            Err(e) => {
                return Err(e);
            },
        }
        assert(s.keys@ =~= seq![k]);
        assert(s.values@ =~= seq![v]);
        Ok(s)
    }

    /// A map made of `keys` and `values`, which must be as long as each
    /// other, with the keys in strictly increasing order.
    pub fn zip(keys: AllocatedVec<K>, values: AllocatedVec<V>) -> (r: Self)
        requires
            keys.wf(),
            values.wf(),
            keys@.len() == values@.len(),
            strictly_sorted(keys@),
        ensures
            r.wf(),
            r.key_seq() == keys@,
            r.value_seq() == values@,
            r.room() == keys.room(),
            r.value_room() == values.room(),
    {
        AllocatedVectorMap { keys, values }
    }

    /// Append entries: `keys[i]` mapped to `values[i]`. The keys must come
    /// after every key of the map, in strictly increasing order. If an array
    /// cannot grow, the entries of the map are unchanged and the error is
    /// returned.
    pub fn extend_with_parts(&mut self, keys: std::vec::Vec<K>, values: std::vec::Vec<V>) -> (r:
        AllocResult<()>)
        requires
            old(self).wf(),
            keys@.len() == values@.len(),
            strictly_sorted(old(self).key_seq() + keys@),
            can_reserve::<K>(old(self).size() as int, old(self).room() as int, keys@.len() as int),
            can_reserve::<V>(
                old(self).size() as int,
                old(self).value_room() as int,
                values@.len() as int,
            ),
        ensures
            one_request_if(
                old(self).key_log(),
                final(self).key_log(),
                old(self).size() + keys@.len() > old(self).room(),
                reserved_capacity(old(self).room() as int, (old(self).size() + keys@.len()) as int),
            ),
            one_request_if(
                old(self).value_log(),
                final(self).value_log(),
                old(self).size() + values@.len() > old(self).value_room() && !refused(
                    old(self).key_log(),
                    final(self).key_log(),
                ),
                reserved_capacity(old(self).value_room() as int, (old(self).size() + values@.len()) as int),
            ),
            r is Err <==> refused(old(self).key_log(), final(self).key_log()) || refused(
                old(self).value_log(),
                final(self).value_log(),
            ),
            final(self).wf(),
            r is Ok ==> final(self).key_seq() == old(self).key_seq() + keys@,
            r is Ok ==> final(self).value_seq() == old(self).value_seq() + values@,
            r is Ok ==> final(self).room() == capacity_after_reserve(
                old(self).size() as int,
                old(self).room() as int,
                keys@.len() as int,
            ),
            r is Ok ==> final(self).value_room() == capacity_after_reserve(
                old(self).size() as int,
                old(self).value_room() as int,
                values@.len() as int,
            ),
            r is Err ==> final(self).key_seq() == old(self).key_seq() && final(self).value_seq()
                == old(self).value_seq(),
            old(self).size() + keys@.len() <= old(self).room() && old(self).size() + values@.len()
                <= old(self).value_room() ==> r is Ok,
            r matches Err(e) ==> refused_for::<K>(e, reserved_capacity(old(self).room() as int, (old(self).size() + keys@.len()) as int)) || refused_for::<V>(e, reserved_capacity(old(self).value_room() as int, (old(self).size() + values@.len()) as int)),
    {
        let old_len = self.keys.len();
        match self.keys.extend_in(keys) {
            Ok(()) => {},
            Err(e) => {
                return Err(e);
            },
        }
        match self.values.extend_in(values) {
            Ok(()) => Ok(()),
            Err(e) => {
                // put the keys back as they were, so that every key keeps a value
                self.keys.truncate(old_len);
                assert(self.keys@ =~= old(self).keys@);
                Err(e)
            },
        }
    }

    /// Make room for at least `additional` more entries in both arrays,
    /// aborting if the global allocator fails.
    pub fn reserve_in(&mut self, additional: usize)
        requires
            old(self).wf(),
            can_reserve::<K>(old(self).size() as int, old(self).room() as int, additional as int),
            can_reserve::<V>(
                old(self).size() as int,
                old(self).value_room() as int,
                additional as int,
            ),
        ensures
            final(self).wf(),
            final(self).key_seq() == old(self).key_seq(),
            final(self).value_seq() == old(self).value_seq(),
            final(self).room() == capacity_after_reserve(
                old(self).size() as int,
                old(self).room() as int,
                additional as int,
            ),
            final(self).value_room() == capacity_after_reserve(
                old(self).size() as int,
                old(self).value_room() as int,
                additional as int,
            ),
    {
        self.keys.reserve(additional);
        self.values.reserve(additional);
    }

    /// Shrink both arrays to the number of entries, the keys first. If the
    /// global allocator cannot give a smaller array, the error is returned and
    /// that array is unchanged; a failure on the values comes after the keys
    /// have shrunk. Neither can fail for a zero-sized type, an empty map or
    /// a full array.
    pub fn shrink_to_fit_in(&mut self) -> (r: AllocResult<()>)
        requires
            old(self).wf(),
        ensures
            one_request_if(
                old(self).key_log(),
                final(self).key_log(),
                !(zero_sized::<K>() || old(self).size() == 0 || old(self).size() == old(self).room()),
                old(self).size() as int,
            ),
            one_request_if(
                old(self).value_log(),
                final(self).value_log(),
                !(zero_sized::<V>() || old(self).size() == 0 || old(self).size()
                    == old(self).value_room()) && !refused(old(self).key_log(), final(self).key_log()),
                old(self).size() as int,
            ),
            r is Err <==> refused(old(self).key_log(), final(self).key_log()) || refused(
                old(self).value_log(),
                final(self).value_log(),
            ),
            final(self).wf(),
            final(self).key_seq() == old(self).key_seq(),
            final(self).value_seq() == old(self).value_seq(),
            r is Ok ==> final(self).room() == shrunk_capacity::<K>(old(self).size() as int)
                && final(self).value_room() == shrunk_capacity::<V>(old(self).size() as int),
            r matches Err(e) ==> final(self).value_room() == old(self).value_room() && ((
            refused_for::<K>(e, old(self).size() as int) && final(self).room()
                == old(self).room()) || (refused_for::<V>(e, old(self).size() as int) && final(self).room() == shrunk_capacity::<K>(old(self).size() as int))),
            (zero_sized::<K>() || old(self).size() == 0 || old(self).size() == old(self).room())
                && (zero_sized::<V>() || old(self).size() == 0 || old(self).size()
                == old(self).value_room()) ==> r is Ok,
    {
        proof { self.lemma_wf(); }
        match self.keys.shrink_to_fit_in() {
            Ok(()) => {},
            Err(e) => {
                return Err(e);
            },
        }
        self.values.shrink_to_fit_in()
    }

    /// Shrink both arrays to the number of entries, aborting if the global
    /// allocator fails.
    pub(crate) fn shrink_to_fit(&mut self)
        requires
            old(self).wf(),
        ensures
            final(self).wf(),
            final(self).key_seq() == old(self).key_seq(),
            final(self).value_seq() == old(self).value_seq(),
            final(self).room() == shrunk_capacity::<K>(old(self).size() as int),
            final(self).value_room() == shrunk_capacity::<V>(old(self).size() as int),
    {
        proof { self.lemma_wf(); }
        self.keys.shrink_to_fit();
        self.values.shrink_to_fit();
    }

    /// How many entries the key array has room for.
    pub fn capacity(&self) -> (r: usize)
        ensures
            r == self.room(),
    {
        self.keys.capacity()
    }

    /// The number of entries.
    pub fn len(&self) -> (r: usize)
        ensures
            r == self.size(),
    {
        self.keys.len()
    }

    /// Whether the map has no entry.
    pub fn is_empty(&self) -> (r: bool)
        ensures
            r == (self.size() == 0),
    {
        self.keys.is_empty()
    }

    /// Remove every entry, keeping the capacity.
    pub fn clear(&mut self)
        requires
            old(self).wf(),
        ensures
            final(self).wf(),
            final(self).key_seq() == Seq::<K>::empty(),
            final(self).value_seq() == Seq::<V>::empty(),
            final(self).room() == old(self).room(),
            final(self).value_room() == old(self).value_room(),
    {
        self.keys.clear();
        self.values.clear();
    }

    /// Map `k` to `v`. When a key equal to `k` is present, its value is
    /// replaced (the stored key stays) and the old value is returned;
    /// otherwise the entry is inserted in its place and `None` is returned.
    /// Inserting may need the arrays to grow; if the global allocator fails, the
    /// entries are unchanged and the error is returned.
    pub fn insert_in(&mut self, k: K, v: V) -> (r: AllocResult<Option<V>>)
        requires
            lawful_order::<K>(),
            old(self).wf(),
            old(self).can_insert(),
        ensures
            insert_in_outcome(*old(self), *final(self), k, v, r),
            holds_key(old(self).key_seq(), k) ==> final(self).key_log() == old(self).key_log()
                && final(self).value_log() == old(self).value_log(),
            one_request_if(
                old(self).key_log(),
                final(self).key_log(),
                !holds_key(old(self).key_seq(), k) && old(self).size() == old(self).room(),
                grown_capacity(old(self).room() as int),
            ),
            one_request_if(
                old(self).value_log(),
                final(self).value_log(),
                !holds_key(old(self).key_seq(), k) && old(self).size() == old(self).value_room()
                    && !refused(old(self).key_log(), final(self).key_log()),
                grown_capacity(old(self).value_room() as int),
            ),
            r is Err <==> refused(old(self).key_log(), final(self).key_log()) || refused(
                old(self).value_log(),
                final(self).value_log(),
            ),
            final(self).wf(),
            holds_key(old(self).key_seq(), k) ==> r is Ok,
            old(self).size() < old(self).room() && old(self).size() < old(self).value_room()
                ==> r is Ok,
            r is Err ==> old(self).size() == old(self).room() || old(self).size() == old(
                self).value_room(),
            r matches Ok(prev) ==> {
                &&& prev == old(self).lookup(k)
                &&& final(self).lookup(k) == Some(v)
                &&& forall|q: K|
                    !key_eq(q, k) ==> #[trigger] final(self).lookup(q) == old(self).lookup(q)
                &&& inserted(old(self).key_seq(), old(self).value_seq(), final(self).key_seq(), final(self).value_seq(), k, v)
            },
            r is Err ==> final(self).key_seq() == old(self).key_seq() && final(self).value_seq()
                == old(self).value_seq() && final(self).value_room() == old(self).value_room(),
            holds_key(old(self).key_seq(), k) ==> final(self).room() == old(self).room()
                && final(self).value_room() == old(self).value_room(),
            !holds_key(old(self).key_seq(), k) && r is Ok ==> final(self).room() == capacity_after_push(
                old(self).size() as int,
                old(self).room() as int,
            ) && final(self).value_room() == capacity_after_push(
                old(self).size() as int,
                old(self).value_room() as int,
            ),
            r matches Err(e) ==> refused_for::<K>(e, grown_capacity(old(self).room() as int)) || refused_for::<V>(e, grown_capacity(old(self).value_room() as int)),
    {
        proof { self.lemma_wf(); }
        match search_sorted(self.keys.as_slice(), &k) {
            Ok(pos) => Ok(self.replace_at(pos, k, v)),
            Err(pos) => {
                let ghost ks = self.keys@;
                let ghost vs = self.values@;
                match self.keys.insert_in(pos, k) {
                    Ok(()) => {},
                    Err(e) => {
                        return Err(e);
                    },
                }
                match self.values.insert_in(pos, v) {
                    Ok(()) => {},
                    Err(e) => {
                        // take the key out again, so that every key keeps a value
                        self.keys.remove(pos);
                        assert(self.keys@ =~= ks);
                        return Err(e);
                    },
                }
                proof {
                    assert forall|q: K| #[trigger] value_of(ks.insert(pos as int, k), vs.insert(pos as int, v), q) == if key_eq(q, k) { Some(v) } else { value_of(ks, vs, q) } by {
                        lemma_value_after_insert(ks, vs, k, v, pos as int, q);
                    }
                    lemma_value_after_insert(ks, vs, k, v, pos as int, k);
                    crate::order::lemma_order_facts::<K>();
                }
                Ok(None)
            },
        }
    }
    /// Map `k` to `v`, aborting if the arrays cannot grow. Returns the value
    /// that a key equal to `k` had, if any.
    pub(crate) fn insert(&mut self, k: K, v: V) -> (r: Option<V>)
        requires
            lawful_order::<K>(),
            old(self).wf(),
            old(self).can_insert(),
        ensures
            final(self).wf(),
            r == old(self).lookup(k),
            final(self).lookup(k) == Some(v),
            forall|q: K| !key_eq(q, k) ==> #[trigger] final(self).lookup(q) == old(self).lookup(q),
            inserted(old(self).key_seq(), old(self).value_seq(), final(self).key_seq(), final(self).value_seq(), k, v),
            holds_key(old(self).key_seq(), k) ==> final(self).room() == old(self).room()
                && final(self).value_room() == old(self).value_room(),
            !holds_key(old(self).key_seq(), k) ==> final(self).room() == capacity_after_push(
                old(self).size() as int,
                old(self).room() as int,
            ) && final(self).value_room() == capacity_after_push(
                old(self).size() as int,
                old(self).value_room() as int,
            ),
    {
        proof { self.lemma_wf(); }
        match search_sorted(self.keys.as_slice(), &k) {
            Ok(pos) => self.replace_at(pos, k, v),
            Err(pos) => {
                self.insert_at(pos, k, v);
                assert(insertion_point(old(self).key_seq(), k, pos as int));
                None
            },
        }
    }

    /// Replace the value at `pos`, whose key equals `k`, by `v`; returns the
    /// value it had.
    pub(crate) fn replace_at(&mut self, pos: usize, k: K, v: V) -> (r: Option<V>)
        requires
            lawful_order::<K>(),
            old(self).wf(),
            pos < old(self).size(),
            key_eq(old(self).key_seq()[pos as int], k),
        ensures
            final(self).key_log() == old(self).key_log(),
            final(self).value_log() == old(self).value_log(),
            final(self).wf(),
            r == old(self).lookup(k),
            final(self).lookup(k) == Some(v),
            forall|q: K| !key_eq(q, k) ==> #[trigger] final(self).lookup(q) == old(self).lookup(q),
            final(self).key_seq() == old(self).key_seq(),
            final(self).value_seq() == old(self).value_seq().update(pos as int, v),
            index_of_key(old(self).key_seq(), k) == pos,
            final(self).room() == old(self).room(),
            final(self).value_room() == old(self).value_room(),
    {
        let ghost ks = self.keys@;
        let ghost vs = self.values@;
        proof { lemma_value_at(ks, vs, k, pos as int); }
        let mut prev = v;
        let slot = self.values.get_mut(pos);
        core::mem::swap(slot, &mut prev);
        proof {
            assert forall|q: K| #[trigger] value_of(ks, vs.update(pos as int, v), q) == if key_eq(ks[pos as int], q) { Some(v) } else { value_of(ks, vs, q) } by {
                lemma_value_after_update(ks, vs, pos as int, v, q);
            }
            lemma_value_after_update(ks, vs, pos as int, v, k);
            crate::order::lemma_order_facts::<K>();
        }
        Some(prev)
    }

    /// Insert `k` mapped to `v` at `pos`, the place of `k` among the keys,
    /// aborting if the arrays cannot grow.
    pub(crate) fn insert_at(&mut self, pos: usize, k: K, v: V)
        requires
            lawful_order::<K>(),
            old(self).wf(),
            old(self).can_insert(),
            insertion_point(old(self).key_seq(), k, pos as int),
        ensures
            final(self).wf(),
            old(self).lookup(k) is None,
            final(self).lookup(k) == Some(v),
            forall|q: K| !key_eq(q, k) ==> #[trigger] final(self).lookup(q) == old(self).lookup(q),
            final(self).key_seq() == old(self).key_seq().insert(pos as int, k),
            final(self).value_seq() == old(self).value_seq().insert(pos as int, v),
            final(self).room() == capacity_after_push(old(self).size() as int, old(self).room() as int),
            final(self).value_room() == capacity_after_push(
                old(self).size() as int,
                old(self).value_room() as int,
            ),
    {
        let ghost ks = self.keys@;
        let ghost vs = self.values@;
        self.keys.insert(pos, k);
        self.values.insert(pos, v);
        proof {
            assert forall|q: K| #[trigger] value_of(ks.insert(pos as int, k), vs.insert(pos as int, v), q) == if key_eq(q, k) { Some(v) } else { value_of(ks, vs, q) } by {
                lemma_value_after_insert(ks, vs, k, v, pos as int, q);
            }
            lemma_value_after_insert(ks, vs, k, v, pos as int, k);
            crate::order::lemma_order_facts::<K>();
            assert(!holds_key(ks, k));
        }
    }

    /// Remove the entry at `pos` and return its key and value.
    pub(crate) fn remove_at(&mut self, pos: usize) -> (r: (K, V))
        requires
            lawful_order::<K>(),
            old(self).wf(),
            pos < old(self).size(),
        ensures
            final(self).wf(),
            r.0 == old(self).key_seq()[pos as int],
            r.1 == old(self).value_seq()[pos as int],
            final(self).key_seq() == old(self).key_seq().remove(pos as int),
            final(self).value_seq() == old(self).value_seq().remove(pos as int),
            final(self).lookup(r.0) is None,
            forall|q: K|
                !key_eq(old(self).key_seq()[pos as int], q) ==> #[trigger] final(self).lookup(q)
                    == old(self).lookup(q),
            final(self).room() == old(self).room(),
            final(self).value_room() == old(self).value_room(),
    {
        let ghost ks = self.keys@;
        let ghost vs = self.values@;
        let k = self.keys.remove(pos);
        let v = self.values.remove(pos);
        proof {
            assert forall|q: K| #[trigger] value_of(ks.remove(pos as int), vs.remove(pos as int), q) == if key_eq(ks[pos as int], q) { None } else { value_of(ks, vs, q) } by {
                lemma_value_after_remove(ks, vs, pos as int, q);
            }
            crate::order::lemma_order_facts::<K>();
            lemma_value_after_remove(ks, vs, pos as int, k);
        }
        (k, v)
    }

    /// Remove the entry whose key equals `k`, returning its value, or `None`
    /// if there is no such entry.
    pub fn remove(&mut self, k: K) -> (r: Option<V>)
        requires
            lawful_order::<K>(),
            old(self).wf(),
        ensures
            final(self).wf(),
            r == old(self).lookup(k),
            final(self).lookup(k) is None,
            forall|q: K| !key_eq(q, k) ==> #[trigger] final(self).lookup(q) == old(self).lookup(q),
            r is None ==> final(self).key_seq() == old(self).key_seq() && final(self).value_seq()
                == old(self).value_seq(),
            r is Some ==> final(self).size() + 1 == old(self).size(),
            removed(old(self).key_seq(), old(self).value_seq(), final(self).key_seq(), final(self).value_seq(), k),
            final(self).room() == old(self).room(),
            final(self).value_room() == old(self).value_room(),
    {
        proof { self.lemma_wf(); }
        match search_sorted(self.keys.as_slice(), &k) {
            Ok(pos) => {
                proof {
                    lemma_value_at(self.keys@, self.values@, k, pos as int);
                    crate::order::lemma_order_facts::<K>();
                }
                let ghost key = self.keys@[pos as int];
                let (_, v) = self.remove_at(pos);
                proof {
                    assert forall|q: K| !key_eq(q, k) implies #[trigger] self.lookup(q) == old(self).lookup(q) by {
                        crate::order::lemma_order_facts::<K>();
                        if key_eq(key, q) {
                            assert(key_eq(q, key));
                        }
                    }
                    assert(!key_eq(key, k) ==> false);
                }
                Some(v)
            },
            Err(_pos) => None,
        }
    }

    /// The value stored under a key equal to `k`, if any.
    pub fn get(&self, k: &K) -> (r: Option<&V>)
        requires
            lawful_order::<K>(),
            self.wf(),
        ensures
            r is Some == self.lookup(*k) is Some,
            r matches Some(x) ==> self.lookup(*k) == Some(*x),
    {
        proof { self.lemma_wf(); }
        match search_sorted(self.keys.as_slice(), k) {
            Ok(pos) => {
                proof { lemma_value_at(self.keys@, self.values@, *k, pos as int); }
                Some(self.values.get(pos))
            },
            Err(_pos) => None,
        }
    }

    /// The value stored under a key equal to `k`, for writing, if any.
    pub fn get_mut(&mut self, k: &K) -> (r: Option<&mut V>)
        requires
            lawful_order::<K>(),
            old(self).wf(),
        ensures
            final(self).wf(),
            final(self).key_seq() == old(self).key_seq(),
            final(self).room() == old(self).room(),
            r is Some == old(self).lookup(*k) is Some,
            r is None ==> final(self).value_seq() == old(self).value_seq(),
            r matches Some(x) ==> old(self).lookup(*k) == Some(*x) && final(self).value_seq()
                == old(self).value_seq().update(index_of_key(old(self).key_seq(), *k), *final(x)),
    {
        proof { self.lemma_wf(); }
        match search_sorted(self.keys.as_slice(), k) {
            Ok(pos) => {
                proof { lemma_value_at(self.keys@, self.values@, *k, pos as int); }
                Some(self.value_at_mut(pos))
            },
            Err(_pos) => None,
        }
    }

    /// The key at `pos`.
    pub(crate) fn key_at(&self, pos: usize) -> (r: &K)
        requires
            self.wf(),
            pos < self.size(),
        ensures
            *r == self.key_seq()[pos as int],
    {
        self.keys.get(pos)
    }

    /// The value at `pos`.
    pub(crate) fn value_at(&self, pos: usize) -> (r: &V)
        requires
            self.wf(),
            pos < self.size(),
        ensures
            *r == self.value_seq()[pos as int],
    {
        self.values.get(pos)
    }

    /// The value at `pos`, for writing.
    pub(crate) fn value_at_mut(&mut self, pos: usize) -> (r: &mut V)
        requires
            old(self).wf(),
            pos < old(self).size(),
        ensures
            *r == old(self).value_seq()[pos as int],
            final(self).wf(),
            final(self).key_seq() == old(self).key_seq(),
            final(self).value_seq() == old(self).value_seq().update(pos as int, *final(r)),
            final(self).room() == old(self).room(),
            final(self).value_room() == old(self).value_room(),
    {
        self.values.get_mut(pos)
    }

    /// The keys, in increasing order.
    pub(crate) fn key_slice(&self) -> (r: &[K])
        ensures
            r@ == self.key_seq(),
    {
        self.keys.as_slice()
    }

    /// The values, in the order of their keys.
    pub(crate) fn value_slice(&self) -> (r: &[V])
        ensures
            r@ == self.value_seq(),
    {
        self.values.as_slice()
    }

    /// The position of the key equal to `k`, or where `k` belongs.
    pub(crate) fn position(&self, k: &K) -> (r: Result<usize, usize>)
        requires
            lawful_order::<K>(),
            self.wf(),
        ensures
            match r {
                Ok(i) => i < self.size() && key_eq(self.key_seq()[i as int], *k),
                Err(i) => insertion_point(self.key_seq(), *k, i as int),
            },
            r is Ok <==> holds_key(self.key_seq(), *k),
    {
        proof { self.lemma_wf(); }
        search_sorted(self.keys.as_slice(), k)
    }

    /// The entry with the least key, if any.
    pub fn first(&self) -> (r: Option<(&K, &V)>)
        requires
            self.wf(),
        ensures
            self.size() == 0 ==> r is None,
            self.size() > 0 ==> (r matches Some((k, v)) && *k == self.key_seq()[0] && *v
                == self.value_seq()[0]),
            r matches Some((k, v)) ==> forall|i: int|
                0 < i < self.size() ==> key_lt(*k, #[trigger] self.key_seq()[i]),
    {
        if self.keys.len() == 0 {
            None
        } else {
            Some((self.keys.get(0), self.values.get(0)))
        }
    }

    /// Remove the entry with the greatest key and return it, or `None` if the
    /// map is empty.
    pub fn pop(&mut self) -> (r: Option<(K, V)>)
        requires
            old(self).wf(),
        ensures
            final(self).wf(),
            final(self).room() == old(self).room(),
            final(self).value_room() == old(self).value_room(),
            old(self).size() == 0 ==> r is None && final(self).key_seq() == old(self).key_seq()
                && final(self).value_seq() == old(self).value_seq(),
            r matches Some((k, v)) ==> forall|i: int|
                0 <= i < final(self).size() ==> key_lt(#[trigger] final(self).key_seq()[i], k),
            old(self).size() > 0 ==> r == Some((old(self).key_seq().last(), old(self).value_seq().last()))
                && final(self).key_seq() == old(self).key_seq().drop_last()
                && final(self).value_seq() == old(self).value_seq().drop_last(),
    {
        proof {
            if self.keys@.len() > 0 {
                crate::order::lemma_remove_sorted(self.keys@, self.keys@.len() - 1);
                assert(self.keys@.remove(self.keys@.len() - 1) =~= self.keys@.drop_last());
            }
        }
        match self.keys.pop() {
            Some(k) => {
                let v = self.values.pop().unwrap();
                Some((k, v))
            },
            None => None,
        }
    }

    /// The value stored under a key equal to `k`, which must be present.
    pub fn index(&self, k: &K) -> (r: &V)
        requires
            lawful_order::<K>(),
            self.wf(),
            self.lookup(*k) is Some,
        ensures
            self.lookup(*k) == Some(*r),
    {
        proof { self.lemma_wf(); }
        match search_sorted(self.keys.as_slice(), k) {
            Ok(pos) => {
                proof { lemma_value_at(self.keys@, self.values@, *k, pos as int); }
                self.values.get(pos)
            },
            Err(_pos) => {
                proof { assert(!holds_key(self.keys@, *k)); }
                self.values.get(0)
            },
        }
    }
}

} // verus!

verus! {

impl<K: Ord, V: PartialEq> PartialEq for AllocatedVectorMap<K, V> {
    /// Two maps are equal when their keys and their values are pairwise equal.
    fn eq(&self, other: &Self) -> (r: bool) {
        self.keys == other.keys && self.values == other.values
    }
}

impl<K: Ord, V: PartialEq> vstd::std_specs::cmp::PartialEqSpecImpl for AllocatedVectorMap<K, V> {
    open spec fn obeys_eq_spec() -> bool {
        K::obeys_eq_spec() && V::obeys_eq_spec()
    }

    open spec fn eq_spec(&self, other: &Self) -> bool {
        &&& self.key_seq().len() == other.key_seq().len()
        &&& forall|j: int| 0 <= j < self.key_seq().len() ==> (#[trigger] self.key_seq()[j]).eq_spec(&other.key_seq()[j])
        &&& self.value_seq().len() == other.value_seq().len()
        &&& forall|j: int| 0 <= j < self.value_seq().len() ==> (#[trigger] self.value_seq()[j]).eq_spec(&other.value_seq()[j])
    }
}

impl<K: Ord, V: Eq> Eq for AllocatedVectorMap<K, V> {
}

} // verus!

verus! {

/// A map holds as many values as keys and no two of its keys are equal, so
/// its length is the number of distinct keys it holds; a key has a value
/// exactly when it is one of them.
pub proof fn law_keys_are_distinct<K: Ord, V>(m: AllocatedVectorMap<K, V>)
    requires
        lawful_order::<K>(),
        m.wf(),
    ensures
        m.value_seq().len() == m.size(),
        forall|i: int, j: int|
            0 <= i < m.size() && 0 <= j < m.size() && i != j ==> !key_eq(
                #[trigger] m.key_seq()[i],
                #[trigger] m.key_seq()[j],
            ),
        forall|k: K| #[trigger] m.lookup(k) is Some <==> holds_key(m.key_seq(), k),
{
    m.lemma_wf();
    crate::order::lemma_order_facts::<K>();
    let s = m.key_seq();
    assert forall|i: int, j: int|
        0 <= i < m.size() && 0 <= j < m.size() && i != j implies !key_eq(
        #[trigger] s[i],
        #[trigger] s[j],
    ) by {
        if i < j {
            assert(key_lt(s[i], s[j]));
        } else {
            assert(key_lt(s[j], s[i]));
        }
    }
}


/// Inserting into a map fails exactly when the global allocator refused one
/// of its arrays a larger buffer. It asks only for a new key, and only for
/// an array that is full. When it succeeds, `k` maps to `v`, every other key
/// keeps its value, the map holds one more entry when `k` was new and as
/// many otherwise; when it fails, the map is as it was.
pub proof fn law_insert_in_fails_only_when_refused<K: Ord, V>(
    m0: AllocatedVectorMap<K, V>,
    m1: AllocatedVectorMap<K, V>,
    k: K,
    v: V,
    r: AllocResult<Option<V>>,
)
    requires
        lawful_order::<K>(),
        m0.wf(),
        insert_in_outcome(m0, m1, k, v, r),
    ensures
        requested(m0.key_log(), m1.key_log()) <==> !holds_key(m0.key_seq(), k) && m0.size()
            == m0.room(),
        requested(m0.value_log(), m1.value_log()) ==> !holds_key(m0.key_seq(), k) && m0.size()
            == m0.value_room(),
        !holds_key(m0.key_seq(), k) && m0.size() == m0.value_room() && !refused(
            m0.key_log(),
            m1.key_log(),
        ) ==> requested(m0.value_log(), m1.value_log()),
        r is Err <==> refused(m0.key_log(), m1.key_log()) || refused(m0.value_log(), m1.value_log()),
        r is Ok ==> m1.lookup(k) == Some(v) && m1.size() == m0.size() + (if holds_key(
            m0.key_seq(),
            k,
        ) {
            0int
        } else {
            1int
        }),
        r is Ok ==> forall|q: K| !key_eq(q, k) ==> #[trigger] m1.lookup(q) == m0.lookup(q),
        r matches Ok(prev) ==> prev == m0.lookup(k),
        r matches Err(e) ==> e.refused_count() is Some,
        r is Err ==> !holds_key(m0.key_seq(), k) && forall|q: K| #[trigger] m1.lookup(q)
            == m0.lookup(q),
{
    m0.lemma_wf();
    m1.lemma_wf();
    crate::order::lemma_order_facts::<K>();
    let ks = m0.key_seq();
    let vs = m0.value_seq();
    if r is Ok {
        if holds_key(ks, k) {
            let pos = index_of_key(ks, k);
            lemma_value_at(ks, vs, k, pos);
            assert forall|q: K| #[trigger] value_of(ks, vs.update(pos, v), q) == if key_eq(ks[pos], q) { Some(v) } else { value_of(ks, vs, q) } by {
                lemma_value_after_update(ks, vs, pos, v, q);
            }
            lemma_value_after_update(ks, vs, pos, v, k);
        } else {
            let pos = choose|pos: int| insertion_point(ks, k, pos) && m1.key_seq() == ks.insert(pos, k)
                && m1.value_seq() == vs.insert(pos, v);
            assert forall|q: K| #[trigger] value_of(ks.insert(pos, k), vs.insert(pos, v), q) == if key_eq(q, k) { Some(v) } else { value_of(ks, vs, q) } by {
                lemma_value_after_insert(ks, vs, k, v, pos, q);
            }
            lemma_value_after_insert(ks, vs, k, v, pos, k);
        }
    }
}

/// An insert that the global allocator refused leaves the map as it was,
/// so trying again is the same as trying the first time: once the
/// allocator grants the request, `k` maps to `v` and every other key keeps
/// the value it had before either attempt.
pub proof fn law_insert_in_retry_after_refusal<K: Ord, V>(
    m0: AllocatedVectorMap<K, V>,
    m1: AllocatedVectorMap<K, V>,
    m2: AllocatedVectorMap<K, V>,
    k: K,
    v: V,
    r1: AllocResult<Option<V>>,
    r2: AllocResult<Option<V>>,
)
    requires
        lawful_order::<K>(),
        m0.wf(),
        insert_in_outcome(m0, m1, k, v, r1),
        r1 is Err,
        insert_in_outcome(m1, m2, k, v, r2),
        r2 is Ok,
    ensures
        r2 == Ok::<Option<V>, crate::AllocErrorWithLayout>(None),
        m2.lookup(k) == Some(v),
        m2.size() == m0.size() + 1,
        forall|q: K| !key_eq(q, k) ==> #[trigger] m2.lookup(q) == m0.lookup(q),
{
    law_insert_in_fails_only_when_refused(m0, m1, k, v, r1);
    m0.lemma_wf();
    law_insert_in_fails_only_when_refused(m1, m2, k, v, r2);
    assert(m1.key_seq() == m0.key_seq());
    assert forall|q: K| !key_eq(q, k) implies #[trigger] m2.lookup(q) == m0.lookup(q) by {
        assert(m1.lookup(q) == m0.lookup(q));
    }
}
} // verus!
