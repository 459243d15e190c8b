//! A view into a single entry of an `AllocatedVectorMap`, present or absent.
use vstd::prelude::*;
use crate::order::{holds_key, insertion_point, key_eq, lawful_order};
use super::allocated::AllocatedVectorMap;

verus! {

/// The entry of a map for one key: either absent (`Vacant`) or present
/// (`Occupied`).
#[derive(Debug)]
pub enum Entry<'a, K: Ord, V> {
    Vacant(VacantEntry<'a, K, V>),
    Occupied(OccupiedEntry<'a, K, V>),
}

/// An absent entry: the map, the place where the key belongs, and the key.
#[derive(Debug)]
pub struct VacantEntry<'a, K: Ord, V> {
    this: &'a mut AllocatedVectorMap<K, V>,
    pos: usize,
    k: K,
}

/// A present entry: the map and the position of the key.
#[derive(Debug)]
pub struct OccupiedEntry<'a, K: Ord, V> {
    this: &'a mut AllocatedVectorMap<K, V>,
    pos: usize,
}

impl<'a, K: Ord, V> VacantEntry<'a, K, V> {
    /// The map the entry belongs to.
    pub closed spec fn target(&self) -> &'a mut AllocatedVectorMap<K, V> {
        self.this
    }

    /// Once the entry is no longer used, the map it borrowed ends up holding
    /// what the entry's target holds at that point.
    pub broadcast proof fn lemma_resolved(self)
        ensures
            #[trigger] has_resolved(self) ==> *final(self.target()) == *self.target(),
    {
    }

    /// Where the key belongs among the keys of the map.
    pub closed spec fn index(&self) -> int {
        self.pos as int
    }

    /// The key of the entry.
    pub closed spec fn key(&self) -> K {
        self.k
    }

    /// The entry can be filled: the map is consistent, the key belongs at
    /// the entry's position and the map can take one more entry.
    pub open spec fn wf(&self) -> bool {
        &&& lawful_order::<K>()
        &&& self.target().wf()
        &&& insertion_point(self.target().key_seq(), self.key(), self.index())
        &&& self.target().can_insert()
    }

    /// The absent entry for `k`, which belongs at `pos` among the keys of
    /// `this`.
    pub fn new(this: &'a mut AllocatedVectorMap<K, V>, pos: usize, k: K) -> (r: Self)
        ensures
            *r.target() == *old(this),
            *final(r.target()) == *final(this),
            r.index() == pos,
            r.key() == k,
    {
        VacantEntry { this, pos, k }
    }

    /// Fill the entry with `v` and return the stored value, for writing.
    /// The process aborts if the map cannot grow.
    pub fn insert(self, v: V) -> (r: &'a mut V)
        requires
            self.wf(),
        ensures
            *r == v,
            final(self.target()).wf(),
            final(self.target()).key_seq() == self.target().key_seq().insert(self.index(), self.key()),
            final(self.target()).value_seq() == self.target().value_seq().insert(self.index(), *final(r)),
    {
        let pos = self.pos;
        let this = self.this;
        let ghost before = this.value_seq();
        proof { this.lemma_wf(); }
        assert(pos <= before.len());
        this.insert_at(pos, self.k, v);
        assert forall|b: V| #[trigger] before.insert(pos as int, v).update(pos as int, b)
            == before.insert(pos as int, b) by {
            assert(before.insert(pos as int, v).update(pos as int, b) =~= before.insert(pos as int, b));
        }
        this.value_at_mut(pos)
    }
}

impl<'a, K: Ord, V> OccupiedEntry<'a, K, V> {
    /// The map the entry belongs to.
    pub closed spec fn target(&self) -> &'a mut AllocatedVectorMap<K, V> {
        self.this
    }

    /// Once the entry is no longer used, the map it borrowed ends up holding
    /// what the entry's target holds at that point.
    pub broadcast proof fn lemma_resolved(self)
        ensures
            #[trigger] has_resolved(self) ==> *final(self.target()) == *self.target(),
    {
    }

    /// The position of the entry's key among the keys of the map.
    pub closed spec fn index(&self) -> int {
        self.pos as int
    }

    /// The map is consistent and the entry's position is one of its entries.
    pub open spec fn wf(&self) -> bool {
        &&& self.target().wf()
        &&& 0 <= self.index() < self.target().size()
    }

    /// The present entry at position `pos` of `this`.
    pub fn new(this: &'a mut AllocatedVectorMap<K, V>, pos: usize) -> (r: Self)
        ensures
            *r.target() == *old(this),
            *final(r.target()) == *final(this),
            r.index() == pos,
    {
        OccupiedEntry { this, pos }
    }

    /// The value of the entry.
    pub fn get(&self) -> (r: &V)
        requires
            self.wf(),
        ensures
            *r == self.target().value_seq()[self.index()],
    {
        self.this.value_at(self.pos)
    }

    /// The value of the entry, for writing, for as long as the entry is borrowed.
    pub fn get_mut(&mut self) -> (r: &mut V)
        requires
            old(self).wf(),
        ensures
            *r == old(self).target().value_seq()[old(self).index()],
            final(self).index() == old(self).index(),
            final(self).target().wf(),
            final(self).target().key_seq() == old(self).target().key_seq(),
            final(self).target().value_seq() == old(self).target().value_seq().update(
                old(self).index(),
                *final(r),
            ),
            *final(final(self).target()) == *final(old(self).target()),
    {
        self.this.value_at_mut(self.pos)
    }

    /// The value of the entry, for writing, for as long as the map is borrowed.
    pub fn into_mut(self) -> (r: &'a mut V)
        requires
            self.wf(),
        ensures
            *r == self.target().value_seq()[self.index()],
            final(self.target()).wf(),
            final(self.target()).key_seq() == self.target().key_seq(),
            final(self.target()).value_seq() == self.target().value_seq().update(self.index(), *final(r)),
    {
        let pos = self.pos;
        let this = self.this;
        this.value_at_mut(pos)
    }

    /// Take the entry out of the map, returning its key and value.
    pub fn remove_entry(&mut self) -> (r: (K, V))
        requires
            old(self).wf(),
            lawful_order::<K>(),
        ensures
            r.0 == old(self).target().key_seq()[old(self).index()],
            r.1 == old(self).target().value_seq()[old(self).index()],
            final(self).index() == old(self).index(),
            final(self).target().wf(),
            final(self).target().key_seq() == old(self).target().key_seq().remove(old(self).index()),
            final(self).target().value_seq() == old(self).target().value_seq().remove(old(self).index()),
            *final(final(self).target()) == *final(old(self).target()),
    {
        self.this.remove_at(self.pos)
    }
}

impl<'a, K: Ord, V> Entry<'a, K, V> {
    /// The map the entry belongs to.
    pub open spec fn target(&self) -> &'a mut AllocatedVectorMap<K, V> {
        match self {
            Entry::Vacant(e) => e.target(),
            Entry::Occupied(e) => e.target(),
        }
    }

    /// Once the entry is no longer used, the map it borrowed ends up holding
    /// what the entry's target holds at that point.
    pub broadcast proof fn lemma_resolved(self)
        ensures
            #[trigger] has_resolved(self) ==> *final(self.target()) == *self.target(),
    {
        match self {
            Entry::Vacant(e) => e.lemma_resolved(),
            Entry::Occupied(e) => e.lemma_resolved(),
        }
    }

    /// The entry can be used: it is consistent with its map.
    pub open spec fn wf(&self) -> bool {
        match self {
            Entry::Vacant(e) => e.wf(),
            Entry::Occupied(e) => e.wf(),
        }
    }

    /// The value of the entry, for writing; an absent entry is filled with
    /// `default` first.
    pub fn or_insert(self, default: V) -> (r: &'a mut V)
        requires
            self.wf(),
        ensures
            final(self.target()).wf(),
            match self {
                Entry::Vacant(e) => *r == default && final(self.target()).key_seq()
                    == e.target().key_seq().insert(e.index(), e.key()) && final(
                    self.target()).value_seq() == e.target().value_seq().insert(
                    e.index(),
                    *final(r),
                ),
                Entry::Occupied(e) => *r == e.target().value_seq()[e.index()] && final(
                    self.target()).key_seq() == e.target().key_seq() && final(
                    self.target()).value_seq() == e.target().value_seq().update(
                    e.index(),
                    *final(r),
                ),
            },
    {
        match self {
            Entry::Vacant(entry) => entry.insert(default),
            Entry::Occupied(entry) => entry.into_mut(),
        }
    }
}

impl<K: Ord, V> AllocatedVectorMap<K, V> {
    /// The entry for `k`: occupied when a key equal to `k` is present, vacant
    /// otherwise.
    pub fn entry_in<'a>(&'a mut self, k: K) -> (r: Entry<'a, K, V>)
        requires
            lawful_order::<K>(),
            old(self).wf(),
        ensures
            *r.target() == *old(self),
            *final(r.target()) == *final(self),
            match r {
                Entry::Vacant(e) => !holds_key(old(self).key_seq(), k) && e.key() == k
                    && insertion_point(old(self).key_seq(), k, e.index()),
                Entry::Occupied(e) => holds_key(old(self).key_seq(), k) && e.wf() && key_eq(
                    old(self).key_seq()[e.index()],
                    k,
                ),
            },
    {
        match self.position(&k) {
            Ok(pos) => Entry::Occupied(OccupiedEntry::new(self, pos)),
            Err(pos) => Entry::Vacant(VacantEntry::new(self, pos, k)),
        }
    }
}

} // verus!
