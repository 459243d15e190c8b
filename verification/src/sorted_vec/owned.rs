//! A sorted dynamic array that aborts on allocation failure.
use vstd::prelude::*;
use vstd::std_specs::cmp::PartialEqSpec;
use crate::error::{AllocResult, can_hold, zero_sized};
use crate::order::{holds_key, insertion_point, key_eq, lawful_order, sorted};
use crate::vec::allocated::{can_push, capacity_after_push};
use crate::vec::raw_vec::initial_capacity;
use super::allocated::AllocatedSortedVec;

verus! {

/// A sorted dynamic array owning its buffer.
#[derive(Debug)]
pub struct SortedVec<T: Ord> {
    raw: AllocatedSortedVec<T>,
}

impl<T: Ord> View for SortedVec<T> {
    type V = Seq<T>;

    closed spec fn view(&self) -> Seq<T> {
        self.raw@
    }
}

impl<T: Ord> SortedVec<T> {
    /// The array is consistent and in order.
    pub closed spec fn wf(&self) -> bool {
        self.raw.wf()
    }

    /// How many values the array has room for.
    pub closed spec fn room(&self) -> nat {
        self.raw.room()
    }

    pub proof fn lemma_wf(&self)
        requires
            self.wf(),
        ensures
            sorted(self@),
            self@.len() <= self.room(),
            can_hold::<T>(self.room() as int),
            zero_sized::<T>() ==> self.room() == usize::MAX,
    {
        self.raw.lemma_wf();
    }

    /// A new, empty array; it allocates nothing.
    pub fn new() -> (r: Self)
        ensures
            r.wf(),
            r@ == Seq::<T>::empty(),
            r.room() == initial_capacity::<T>(),
    {
        let raw = AllocatedSortedVec::new_in().unwrap();
        SortedVec { raw }
    }

    /// A new, empty array; it allocates nothing, so it cannot fail.
    pub fn new_in() -> (r: AllocResult<Self>)
        ensures
            r matches Ok(v) && v.wf() && v@ == Seq::<T>::empty() && v.room()
                == initial_capacity::<T>(),
    {
        match AllocatedSortedVec::new_in() {
            Ok(raw) => Ok(SortedVec { raw }),
            Err(e) => Err(e),
        }
    }

    /// Insert `v` in its place unless an equal value is there already;
    /// returns whether `v` was inserted.
    pub fn insert(&mut self, v: T) -> (r: bool)
        requires
            lawful_order::<T>(),
            old(self).wf(),
            can_push::<T>(old(self)@.len() as int, old(self).room() as int),
        ensures
            final(self).wf(),
            holds_key(final(self)@, v),
            r == !holds_key(old(self)@, v),
            !r ==> final(self)@ == old(self)@ && final(self).room() == old(self).room(),
            r ==> final(self).room() == capacity_after_push(
                old(self)@.len() as int,
                old(self).room() as int,
            ) && exists|pos: int|
                insertion_point(old(self)@, v, pos) && final(self)@ == old(self)@.insert(pos, v),
    {
        self.raw.insert(v)
    }

    /// Remove one value equal to `v`, if there is one; returns whether one
    /// was removed. No memory is freed.
    pub fn remove(&mut self, v: &T) -> (r: bool)
        requires
            lawful_order::<T>(),
            old(self).wf(),
        ensures
            final(self).wf(),
            final(self).room() == old(self).room(),
            r == holds_key(old(self)@, *v),
            !r ==> final(self)@ == old(self)@,
            r ==> exists|i: int|
                0 <= i < old(self)@.len() && key_eq(old(self)@[i], *v) && final(self)@ == old(
                    self,
                )@.remove(i),
    {
        self.raw.remove(v)
    }

    /// Whether the array holds a value equal to `v`.
    pub fn contains(&self, v: &T) -> (r: bool)
        requires
            lawful_order::<T>(),
            self.wf(),
        ensures
            r == holds_key(self@, *v),
    {
        self.raw.contains(v)
    }

    /// A value equal to `v`, if the array holds one.
    pub fn get(&self, v: &T) -> (r: Option<&T>)
        requires
            lawful_order::<T>(),
            self.wf(),
        ensures
            r is Some == holds_key(self@, *v),
            r matches Some(x) ==> exists|i: int|
                0 <= i < self@.len() && key_eq(self@[i], *v) && *x == self@[i],
    {
        self.raw.get(v)
    }

    /// Remove the last (greatest) value and return it, or `None` if the array
    /// is empty.
    pub fn pop(&mut self) -> (r: Option<T>)
        requires
            old(self).wf(),
        ensures
            final(self).wf(),
            final(self).room() == old(self).room(),
            old(self)@.len() == 0 ==> r is None && final(self)@ == old(self)@,
            old(self)@.len() > 0 ==> r == Some(old(self)@.last()) && final(self)@ == old(
                self,
            )@.drop_last(),
    {
        self.raw.pop()
    }

    /// The values, in order.
    pub fn as_slice(&self) -> (r: &[T])
        ensures
            r@ == self@,
    {
        self.raw.as_slice()
    }

    /// How many values the array holds.
    pub fn len(&self) -> (r: usize)
        ensures
            r == self@.len(),
    {
        self.raw.len()
    }
}

impl<T: Ord> Default for SortedVec<T> {
    fn default() -> (r: Self)
        ensures
            r.wf(),
            r@ == Seq::<T>::empty(),
    {
        SortedVec::new()
    }
}

} // verus!

verus! {

impl<T: Ord> PartialEq for SortedVec<T> {
    /// Two arrays are equal when they are as long and their values are
    /// pairwise equal.
    fn eq(&self, other: &Self) -> (r: bool) {
        self.raw == other.raw
    }
}

impl<T: Ord> vstd::std_specs::cmp::PartialEqSpecImpl for SortedVec<T> {
    open spec fn obeys_eq_spec() -> bool {
        T::obeys_eq_spec()
    }

    open spec fn eq_spec(&self, other: &Self) -> bool {
        &&& self@.len() == other@.len()
        &&& forall|j: int| 0 <= j < self@.len() ==> (#[trigger] self@[j]).eq_spec(&other@[j])
    }
}

impl<T: Ord> Eq for SortedVec<T> {
}

} // verus!
