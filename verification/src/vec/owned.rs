//! A dynamic array that aborts on allocation failure, as `std::vec::Vec` does.
use vstd::prelude::*;
use vstd::std_specs::cmp::PartialEqSpec;
use vstd::layout::size_of;
use crate::error::{AllocResult, array_layout_for, can_hold, zero_sized, refused_for};
use super::allocated::{
    AllocatedVec, Drain, can_push, can_reserve, capacity_after_push, capacity_after_reserve,
};
use super::raw_vec::initial_capacity;

verus! {

/// A dynamic array owning its buffer.
#[derive(Debug)]
pub struct Vec<T> {
    raw: AllocatedVec<T>,
}

impl<T> View for Vec<T> {
    type V = Seq<T>;

    closed spec fn view(&self) -> Seq<T> {
        self.raw@
    }
}

impl<T> Vec<T> {
    /// The array is consistent.
    pub closed spec fn wf(&self) -> bool {
        self.raw.wf()
    }

    /// How many values the array has room for.
    pub closed spec fn room(&self) -> nat {
        self.raw.room()
    }

    pub proof fn lemma_wf(&self)
        requires
            self.wf(),
        ensures
            self@.len() <= self.room(),
            can_hold::<T>(self.room() as int),
            zero_sized::<T>() ==> self.room() == usize::MAX,
    {
        self.raw.lemma_wf();
    }

    /// A new, empty array; it allocates nothing.
    pub fn new() -> (r: Self)
        ensures
            r.wf(),
            r@ == Seq::<T>::empty(),
            r.room() == initial_capacity::<T>(),
    {
        let raw = AllocatedVec::new_in().unwrap();
        Vec { raw }
    }

    /// The capacity of the array.
    pub fn capacity(&self) -> (r: usize)
        ensures
            r == self.room(),
    {
        self.raw.capacity()
    }

    /// How many values the array holds.
    pub fn len(&self) -> (r: usize)
        ensures
            r == self@.len(),
    {
        self.raw.len()
    }

    /// Whether the array holds no value.
    pub fn is_empty(&self) -> (r: bool)
        ensures
            r == (self@.len() == 0),
    {
        self.raw.is_empty()
    }

    /// A new, empty array; it allocates nothing, so it cannot fail.
    pub fn new_in() -> (r: AllocResult<Self>)
        ensures
            r matches Ok(v) && v.wf() && v@ == Seq::<T>::empty() && v.room()
                == initial_capacity::<T>(),
    {
        match AllocatedVec::new_in() {
            Ok(raw) => Ok(Vec { raw }),
            Err(e) => Err(e),
        }
    }

    /// A new, empty array with room for `capacity` values. It fails only when
    /// the global allocator does, which cannot happen for a zero-sized type or a
    /// capacity of zero.
    pub fn try_with_capacity_in(capacity: usize) -> (r: AllocResult<Self>)
        requires
            can_hold::<T>(capacity as int),
        ensures
            r matches Ok(v) ==> v.wf() && v@ == Seq::<T>::empty() && v.room() == (
            if zero_sized::<T>() {
                usize::MAX as int
            } else {
                capacity as int
            }),
            (zero_sized::<T>() || capacity == 0) ==> r is Ok,
            r matches Err(e) ==> refused_for::<T>(e, capacity as int),
    {
        match AllocatedVec::try_with_capacity_in(capacity) {
            Ok(raw) => Ok(Vec { raw }),
            Err(e) => Err(e),
        }
    }

    /// Shrink the capacity to the length.
    pub fn shrink_to_fit(&mut self)
        requires
            old(self).wf(),
        ensures
            final(self).wf(),
            final(self)@ == old(self)@,
            final(self).room() == if zero_sized::<T>() {
                usize::MAX as int
            } else {
                old(self)@.len() as int
            },
    {
        self.raw.shrink_to_fit();
    }

    /// Keep the first `len` values and drop the rest; nothing happens if the
    /// array is not longer than `len`.
    pub fn truncate(&mut self, len: usize)
        requires
            old(self).wf(),
        ensures
            final(self).wf(),
            final(self).room() == old(self).room(),
            len <= old(self)@.len() ==> final(self)@ == old(self)@.subrange(0, len as int),
            len > old(self)@.len() ==> final(self)@ == old(self)@,
    {
        self.raw.truncate(len)
    }

    /// Append `elem`; a full array grows to `grown_capacity`.
    pub fn push(&mut self, elem: T)
        requires
            old(self).wf(),
            can_push::<T>(old(self)@.len() as int, old(self).room() as int),
        ensures
            final(self).wf(),
            final(self)@ == old(self)@.push(elem),
            final(self).room() == capacity_after_push(old(self)@.len() as int, old(self).room() as int),
    {
        self.raw.push(elem)
    }

    /// Remove the last value and return it, or `None` if the array is empty.
    pub fn pop(&mut self) -> (r: Option<T>)
        requires
            old(self).wf(),
        ensures
            final(self).wf(),
            final(self).room() == old(self).room(),
            old(self)@.len() == 0 ==> r is None && final(self)@ == old(self)@,
            old(self)@.len() > 0 ==> r == Some(old(self)@.last()) && final(self)@ == old(
                self,
            )@.drop_last(),
    {
        self.raw.pop()
    }

    /// Insert `elem` at `index`, shifting the later values.
    pub fn insert(&mut self, index: usize, elem: T)
        requires
            old(self).wf(),
            index <= old(self)@.len(),
            can_push::<T>(old(self)@.len() as int, old(self).room() as int),
        ensures
            final(self).wf(),
            final(self)@ == old(self)@.insert(index as int, elem),
            final(self).room() == capacity_after_push(old(self)@.len() as int, old(self).room() as int),
    {
        self.raw.insert(index, elem)
    }

    /// Make room for at least `additional` more values; nothing happens when
    /// the capacity suffices already.
    pub fn try_reserve(&mut self, additional: usize)
        requires
            old(self).wf(),
            can_reserve::<T>(old(self)@.len() as int, old(self).room() as int, additional as int),
        ensures
            final(self).wf(),
            final(self)@ == old(self)@,
            final(self).room() == capacity_after_reserve(
                old(self)@.len() as int,
                old(self).room() as int,
                additional as int,
            ),
            final(self).room() >= old(self)@.len() + additional,
    {
        self.raw.reserve(additional)
    }

    /// Append every value of `elems`, in order.
    pub fn extend(&mut self, elems: std::vec::Vec<T>)
        requires
            old(self).wf(),
            can_reserve::<T>(old(self)@.len() as int, old(self).room() as int, elems@.len() as int),
        ensures
            final(self).wf(),
            final(self)@ == old(self)@ + elems@,
            final(self).room() == capacity_after_reserve(
                old(self)@.len() as int,
                old(self).room() as int,
                elems@.len() as int,
            ),
    {
        self.raw.extend(elems)
    }

    /// Remove every value, keeping the capacity.
    pub fn clear(&mut self)
        requires
            old(self).wf(),
        ensures
            final(self).wf(),
            final(self).room() == old(self).room(),
            final(self)@ == Seq::<T>::empty(),
    {
        self.raw.clear()
    }

    /// Remove the value at `index` and return it, shifting the later values.
    pub fn remove(&mut self, index: usize) -> (r: T)
        requires
            old(self).wf(),
            index < old(self)@.len(),
        ensures
            final(self).wf(),
            final(self).room() == old(self).room(),
            r == old(self)@[index as int],
            final(self)@ == old(self)@.remove(index as int),
    {
        self.raw.remove(index)
    }

    /// Move every value out into an iterator, leaving the array empty.
    pub fn drain(&mut self) -> (r: Drain<T>)
        requires
            old(self).wf(),
        ensures
            final(self).wf(),
            final(self).room() == old(self).room(),
            final(self)@ == Seq::<T>::empty(),
            r.remaining() == old(self)@,
    {
        self.raw.drain()
    }

    /// The values, in order.
    pub fn as_slice(&self) -> (r: &[T])
        ensures
            r@ == self@,
    {
        self.raw.as_slice()
    }
}

impl<T> Default for Vec<T> {
    fn default() -> (r: Self)
        ensures
            r.wf(),
            r@ == Seq::<T>::empty(),
    {
        Vec::new()
    }
}

/// Copying a slice into a new `Vec`.
pub trait SliceExt {
    type Item;

    fn to_allocated_vec(&self) -> Vec<Self::Item>;
}

impl<T: Clone> SliceExt for [T] {
    type Item = T;

    /// A new array holding clones of the slice's values, in order.
    fn to_allocated_vec(&self) -> (r: Vec<T>)
        ensures
            r.wf(),
            can_hold::<T>(self@.len() as int) ==> r@.len() == self@.len(),
            can_hold::<T>(self@.len() as int) ==> forall|i: int|
                0 <= i < self@.len() ==> cloned::<T>(self@[i], #[trigger] r@[i]),
    {
        let mut result: Vec<T> = Vec::new();
        let mut items: std::vec::Vec<T> = std::vec::Vec::new();
        let mut i: usize = 0;
        while i < self.len()
            invariant
                0 <= i <= self@.len(),
                items@.len() == i,
                forall|j: int| 0 <= j < i ==> cloned::<T>(self@[j], #[trigger] items@[j]),
            decreases self@.len() - i,
        {
            items.push(self[i].clone());
            i = i + 1;
        }
        // A slice never spans more than `isize::MAX` bytes, so its copy always
        // fits; the comparison below only makes that known here.
        let size = core::mem::size_of::<T>();
        if size != 0 && items.len() > (isize::MAX as usize) / size {
            proof {
                let n = items@.len() as int;
                assert(n * size > isize::MAX) by (nonlinear_arith)
                    requires
                        n > (isize::MAX as int) / (size as int),
                        size > 0,
                ;
            }
            return result;
        }
        proof {
            result.lemma_wf();
            let n = items@.len() as int;
            if size != 0 {
                assert(n * size <= isize::MAX) by (nonlinear_arith)
                    requires
                        n <= (isize::MAX as int) / (size as int),
                        size > 0,
                ;
            }
        }
        result.extend(items);
        result
    }
}

} // verus!

verus! {

impl<T: PartialEq> PartialEq for Vec<T> {
    /// Two arrays are equal when they are as long and their values are
    /// pairwise equal.
    fn eq(&self, other: &Self) -> (r: bool) {
        self.raw == other.raw
    }
}

impl<T: PartialEq> vstd::std_specs::cmp::PartialEqSpecImpl for Vec<T> {
    open spec fn obeys_eq_spec() -> bool {
        T::obeys_eq_spec()
    }

    open spec fn eq_spec(&self, other: &Self) -> bool {
        &&& self@.len() == other@.len()
        &&& forall|j: int| 0 <= j < self@.len() ==> (#[trigger] self@[j]).eq_spec(&other@[j])
    }
}

impl<T: Eq> Eq for Vec<T> {
}

} // verus!
