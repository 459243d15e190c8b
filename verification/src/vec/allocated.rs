//! A dynamic array whose growth follows the policy of this crate and whose
//! allocation failures are reported to the caller.
use vstd::prelude::*;
use vstd::std_specs::cmp::PartialEqSpec;
use crate::error::{AllocResult, array_layout_for, can_hold, zero_sized, refused_for};
use super::alloc_log::{AllocLog, refused, requested, requested_if};
use super::raw_vec::{
    RawVec, RawValIter, IntoIter, grown_capacity, reserved_capacity, initial_capacity,
};

verus! {

/// The capacity after pushing onto an array of `len` values and capacity `cap`.
pub open spec fn capacity_after_push(len: int, cap: int) -> int {
    if len < cap {
        cap
    } else {
        grown_capacity(cap)
    }
}

/// The capacity after making room for `additional` more values in an array of
/// `len` values and capacity `cap`.
pub open spec fn capacity_after_reserve(len: int, cap: int, additional: int) -> int {
    if len + additional <= cap {
        cap
    } else {
        reserved_capacity(cap, len + additional)
    }
}

/// Pushing onto an array of `len` values and capacity `cap` is possible: either
/// there is room, or the buffer can grow.
pub open spec fn can_push<T>(len: int, cap: int) -> bool {
    len < cap || (!zero_sized::<T>() && can_hold::<T>(grown_capacity(cap)))
}

/// Making room for `additional` more values is possible.
pub open spec fn can_reserve<T>(len: int, cap: int, additional: int) -> bool {
    &&& len + additional <= usize::MAX
    &&& len + additional > cap ==> can_hold::<T>(reserved_capacity(cap, len + additional))
}

/// What `push_in` promises when it pushes `x` onto the array `v0`, leaving
/// the array `v1` and returning `r`.
pub open spec fn push_in_outcome<T>(v0: AllocatedVec<T>, v1: AllocatedVec<T>, x: T, r: AllocResult<()>) -> bool {
    &&& v1.wf()
    &&& requested_if(
        v0.log(),
        v1.log(),
        v0@.len() == v0.room(),
        grown_capacity(v0.room() as int),
        r is Ok,
    )
    &&& v0@.len() < v0.room() ==> r is Ok
    &&& r is Ok ==> v1@ == v0@.push(x)
    &&& r is Err ==> v1@ == v0@
    &&& r matches Err(e) ==> refused_for::<T>(e, grown_capacity(v0.room() as int))
}

/// What `extend_in` promises when it appends `elems` to the array `v0`,
/// leaving the array `v1` and returning `r`.
pub open spec fn extend_in_outcome<T>(v0: AllocatedVec<T>, v1: AllocatedVec<T>, elems: Seq<T>, r: AllocResult<()>) -> bool {
    &&& v1.wf()
    &&& requested_if(
        v0.log(),
        v1.log(),
        v0@.len() + elems.len() > v0.room(),
        reserved_capacity(v0.room() as int, (v0@.len() + elems.len()) as int),
        r is Ok,
    )
    &&& v0@.len() + elems.len() <= v0.room() ==> r is Ok
    &&& r is Ok ==> v1@ == v0@ + elems
    &&& r is Err ==> v1@ == v0@
    &&& r matches Err(e) ==> refused_for::<T>(
        e,
        reserved_capacity(v0.room() as int, (v0@.len() + elems.len()) as int),
    )
}

/// A dynamic array that reports allocation failures instead of aborting.
#[derive(Debug)]
pub struct AllocatedVec<T> {
    buf: RawVec<T>,
}

impl<T> View for AllocatedVec<T> {
    type V = Seq<T>;

    closed spec fn view(&self) -> Seq<T> {
        self.buf.items()
    }
}

impl<T> AllocatedVec<T> {
    /// The array is consistent.
    pub closed spec fn wf(&self) -> bool {
        self.buf.wf()
    }

    /// How many values the array has room for.
    pub closed spec fn room(&self) -> nat {
        self.buf.room()
    }

    /// The requests the array has made of the global allocator.
    pub closed spec fn log(&self) -> AllocLog {
        self.buf.log()
    }

    pub proof fn lemma_wf(&self)
        requires
            self.wf(),
        ensures
            self@.len() <= self.room(),
            can_hold::<T>(self.room() as int),
            zero_sized::<T>() ==> self.room() == usize::MAX,
    {
        self.buf.lemma_wf();
    }

    /// The capacity of the array.
    pub fn capacity(&self) -> (r: usize)
        ensures
            r == self.room(),
    {
        self.buf.capacity()
    }

    /// How many values the array holds.
    pub fn len(&self) -> (r: usize)
        ensures
            r == self@.len(),
    {
        self.buf.len()
    }

    /// Whether the array holds no value.
    pub fn is_empty(&self) -> (r: bool)
        ensures
            r == (self@.len() == 0),
    {
        self.buf.len() == 0
    }

    /// A new, empty array. It allocates nothing, so it cannot fail.
    pub fn new_in() -> (r: AllocResult<Self>)
        ensures
            r matches Ok(v) && v.wf() && v@ == Seq::<T>::empty() && v.room()
                == initial_capacity::<T>() && v.log().made() == 0 && v.log().last() is None,
    {
        match RawVec::new_in() {
            Ok(buf) => Ok(AllocatedVec { buf }),
            Err(e) => Err(e),
        }
    }

    /// A new, empty array with room for `capacity` values. It fails only when
    /// the global allocator does, which cannot happen for a zero-sized type or a
    /// capacity of zero.
    pub fn try_with_capacity_in(capacity: usize) -> (r: AllocResult<Self>)
        requires
            can_hold::<T>(capacity as int),
        ensures
            r matches Ok(v) ==> v.wf() && v@ == Seq::<T>::empty() && v.room() == (
            if zero_sized::<T>() {
                usize::MAX as int
            } else {
                capacity as int
            }),
            (zero_sized::<T>() || capacity == 0) ==> r is Ok,
            r matches Ok(v) ==> if zero_sized::<T>() || capacity == 0 {
                v.log().made() == 0 && v.log().last() is None
            } else {
                v.log().made() == 1 && v.log().last() == Some((capacity, true))
            },
            r matches Err(e) ==> refused_for::<T>(e, capacity as int),
    {
        match RawVec::try_with_capacity_in(capacity) {
            Ok(buf) => Ok(AllocatedVec { buf }),
            Err(e) => Err(e),
        }
    }

    /// Shrink the capacity to the length. If the global allocator cannot give
    /// the smaller buffer, the array is unchanged and the error is returned;
    /// that cannot happen for a zero-sized type, an empty array or a full one.
    pub fn shrink_to_fit_in(&mut self) -> (r: AllocResult<()>)
        requires
            old(self).wf(),
        ensures
            requested_if(
                old(self).log(),
                final(self).log(),
                !(zero_sized::<T>() || old(self)@.len() == 0 || old(self)@.len() == old(self).room()),
                old(self)@.len() as int,
                r is Ok,
            ),
            final(self).wf(),
            final(self)@ == old(self)@,
            r is Ok ==> final(self).room() == if zero_sized::<T>() {
                usize::MAX as int
            } else {
                old(self)@.len() as int
            },
            r is Err ==> final(self).room() == old(self).room(),
            r matches Err(e) ==> refused_for::<T>(e, old(self)@.len() as int),
            (zero_sized::<T>() || old(self)@.len() == 0 || old(self)@.len() == old(self).room())
                ==> r is Ok,
    {
        proof { self.buf.lemma_wf(); }
        let len = self.buf.len();
        self.buf.shrink_in(len)
    }

    /// Shrink the capacity to the length, aborting if the global allocator
    /// fails.
    pub(crate) fn shrink_to_fit(&mut self)
        requires
            old(self).wf(),
        ensures
            final(self).log() == old(self).log(),
            final(self).wf(),
            final(self)@ == old(self)@,
            final(self).room() == if zero_sized::<T>() {
                usize::MAX as int
            } else {
                old(self)@.len() as int
            },
    {
        proof { self.buf.lemma_wf(); }
        let len = self.buf.len();
        self.buf.shrink(len)
    }

    /// Append `elem`. When the array is full its buffer grows to
    /// `grown_capacity`; if the global allocator fails, the array is unchanged and
    /// the error is returned.
    pub fn push_in(&mut self, elem: T) -> (r: AllocResult<()>)
        requires
            old(self).wf(),
            can_push::<T>(old(self)@.len() as int, old(self).room() as int),
        ensures
            push_in_outcome(*old(self), *final(self), elem, r),
            requested_if(
                old(self).log(),
                final(self).log(),
                old(self)@.len() == old(self).room(),
                grown_capacity(old(self).room() as int),
                r is Ok,
            ),
            final(self).wf(),
            r is Ok ==> final(self)@ == old(self)@.push(elem) && final(self).room()
                == capacity_after_push(old(self)@.len() as int, old(self).room() as int),
            r is Err ==> final(self)@ == old(self)@ && final(self).room() == old(self).room()
                && old(self)@.len() == old(self).room(),
            r matches Err(e) ==> refused_for::<T>(e, grown_capacity(old(self).room() as int)),
    {
        proof { self.buf.lemma_wf(); }
        if self.buf.len() == self.buf.capacity() {
            match self.buf.grow_in() {
                Ok(()) => {},
                Err(e) => {
                    return Err(e);
                },
            }
        }
        proof { self.buf.lemma_wf(); }
        self.buf.push_within(elem);
        Ok(())
    }

    /// Append `elem`, aborting if the global allocator fails.
    pub(crate) fn push(&mut self, elem: T)
        requires
            old(self).wf(),
            can_push::<T>(old(self)@.len() as int, old(self).room() as int),
        ensures
            final(self).log() == old(self).log(),
            final(self).wf(),
            final(self)@ == old(self)@.push(elem),
            final(self).room() == capacity_after_push(old(self)@.len() as int, old(self).room() as int),
    {
        proof { self.buf.lemma_wf(); }
        if self.buf.len() == self.buf.capacity() {
            self.buf.grow();
        }
        proof { self.buf.lemma_wf(); }
        self.buf.push_within(elem);
    }

    /// Remove the last value and return it, or `None` if the array is empty.
    pub fn pop(&mut self) -> (r: Option<T>)
        requires
            old(self).wf(),
        ensures
            final(self).log() == old(self).log(),
            final(self).wf(),
            final(self).room() == old(self).room(),
            old(self)@.len() == 0 ==> r is None && final(self)@ == old(self)@,
            old(self)@.len() > 0 ==> r == Some(old(self)@.last()) && final(self)@ == old(
                self,
            )@.drop_last(),
    {
        self.buf.pop()
    }

    /// Insert `elem` at `index`, shifting the later values. When the array is
    /// full its buffer grows to `grown_capacity`; if the global allocator fails, the
    /// array is unchanged and the error is returned.
    pub fn insert_in(&mut self, index: usize, elem: T) -> (r: AllocResult<()>)
        requires
            old(self).wf(),
            index <= old(self)@.len(),
            can_push::<T>(old(self)@.len() as int, old(self).room() as int),
        ensures
            requested_if(
                old(self).log(),
                final(self).log(),
                old(self)@.len() == old(self).room(),
                grown_capacity(old(self).room() as int),
                r is Ok,
            ),
            final(self).wf(),
            r is Ok ==> final(self)@ == old(self)@.insert(index as int, elem) && final(self).room()
                == capacity_after_push(old(self)@.len() as int, old(self).room() as int),
            r is Err ==> final(self)@ == old(self)@ && final(self).room() == old(self).room()
                && old(self)@.len() == old(self).room(),
            r matches Err(e) ==> refused_for::<T>(e, grown_capacity(old(self).room() as int)),
    {
        proof { self.buf.lemma_wf(); }
        if self.buf.capacity() == self.buf.len() {
            match self.buf.grow_in() {
                Ok(()) => {},
                Err(e) => {
                    return Err(e);
                },
            }
        }
        proof { self.buf.lemma_wf(); }
        self.buf.insert_within(index, elem);
        Ok(())
    }

    /// Insert `elem` at `index`, aborting if the global allocator fails.
    pub(crate) fn insert(&mut self, index: usize, elem: T)
        requires
            old(self).wf(),
            index <= old(self)@.len(),
            can_push::<T>(old(self)@.len() as int, old(self).room() as int),
        ensures
            final(self).log() == old(self).log(),
            final(self).wf(),
            final(self)@ == old(self)@.insert(index as int, elem),
            final(self).room() == capacity_after_push(old(self)@.len() as int, old(self).room() as int),
    {
        proof { self.buf.lemma_wf(); }
        if self.buf.capacity() == self.buf.len() {
            self.buf.grow();
        }
        proof { self.buf.lemma_wf(); }
        self.buf.insert_within(index, elem);
    }

    /// Make room for at least `additional` more values. Nothing happens when
    /// the capacity suffices already; otherwise it becomes `reserved_capacity`,
    /// or, if the global allocator fails, stays as it was and the error is returned.
    pub fn try_reserve_in(&mut self, additional: usize) -> (r: AllocResult<()>)
        requires
            old(self).wf(),
            can_reserve::<T>(old(self)@.len() as int, old(self).room() as int, additional as int),
        ensures
            requested_if(
                old(self).log(),
                final(self).log(),
                old(self)@.len() + additional > old(self).room(),
                reserved_capacity(old(self).room() as int, old(self)@.len() + additional),
                r is Ok,
            ),
            final(self).wf(),
            final(self)@ == old(self)@,
            r is Ok ==> final(self).room() == capacity_after_reserve(
                old(self)@.len() as int,
                old(self).room() as int,
                additional as int,
            ),
            r is Ok ==> final(self).room() >= old(self)@.len() + additional,
            old(self)@.len() + additional <= old(self).room() ==> r is Ok && final(self).room()
                == old(self).room(),
            r is Err ==> final(self).room() == old(self).room() && old(self)@.len() + additional
                > old(self).room(),
            r matches Err(e) ==> refused_for::<T>(e, reserved_capacity(old(self).room() as int, old(self)@.len() + additional)),
    {
        self.buf.try_reserve_in(additional)
    }

    /// Make room for at least `additional` more values, aborting if the
    /// allocator fails.
    pub(crate) fn reserve(&mut self, additional: usize)
        requires
            old(self).wf(),
            can_reserve::<T>(old(self)@.len() as int, old(self).room() as int, additional as int),
        ensures
            final(self).log() == old(self).log(),
            final(self).wf(),
            final(self)@ == old(self)@,
            final(self).room() == capacity_after_reserve(
                old(self)@.len() as int,
                old(self).room() as int,
                additional as int,
            ),
            final(self).room() >= old(self)@.len() + additional,
    {
        self.buf.reserve(additional)
    }

    /// Append every value of `elems`, in order, after making room for all of
    /// them at once. If that fails, the array is unchanged and the error is
    /// returned.
    pub fn extend_in(&mut self, elems: std::vec::Vec<T>) -> (r: AllocResult<()>)
        requires
            old(self).wf(),
            can_reserve::<T>(old(self)@.len() as int, old(self).room() as int, elems@.len() as int),
        ensures
            extend_in_outcome(*old(self), *final(self), elems@, r),
            requested_if(
                old(self).log(),
                final(self).log(),
                old(self)@.len() + elems@.len() > old(self).room(),
                reserved_capacity(old(self).room() as int, (old(self)@.len() + elems@.len()) as int),
                r is Ok,
            ),
            final(self).wf(),
            r is Ok ==> final(self)@ == old(self)@ + elems@ && final(self).room()
                == capacity_after_reserve(
                old(self)@.len() as int,
                old(self).room() as int,
                elems@.len() as int,
            ),
            r is Err ==> final(self)@ == old(self)@ && final(self).room() == old(self).room(),
            old(self)@.len() + elems@.len() <= old(self).room() ==> r is Ok,
            r matches Err(e) ==> refused_for::<T>(e, reserved_capacity(old(self).room() as int, (old(self)@.len() + elems@.len()) as int)),
    {
        match self.try_reserve_in(elems.len()) {
            Ok(()) => {},
            Err(e) => {
                return Err(e);
            },
        }
        self.append_within(elems);
        Ok(())
    }

    /// Append every value of `elems`, in order, aborting if the global allocator fails.
    pub(crate) fn extend(&mut self, elems: std::vec::Vec<T>)
        requires
            old(self).wf(),
            can_reserve::<T>(old(self)@.len() as int, old(self).room() as int, elems@.len() as int),
        ensures
            final(self).log() == old(self).log(),
            final(self).wf(),
            final(self)@ == old(self)@ + elems@,
            final(self).room() == capacity_after_reserve(
                old(self)@.len() as int,
                old(self).room() as int,
                elems@.len() as int,
            ),
    {
        self.reserve(elems.len());
        self.append_within(elems);
    }

    /// Append every value of `elems`, for which there is room.
    fn append_within(&mut self, elems: std::vec::Vec<T>)
        requires
            old(self).wf(),
            old(self)@.len() + elems@.len() <= old(self).room(),
        ensures
            final(self).log() == old(self).log(),
            final(self).wf(),
            final(self)@ == old(self)@ + elems@,
            final(self).room() == old(self).room(),
    {
        let ghost start = self@;
        let mut iter = RawValIter::new(elems);
        let ghost all = iter.remaining();
        let mut i: usize = 0;
        let n = elems_len(&iter);
        while i < n
            invariant
                self.wf(),
                self.room() == old(self).room(),
                self.log() == old(self).log(),
                n == all.len(),
                0 <= i <= n,
                start.len() + n <= self.room(),
                iter.remaining() == all.subrange(i as int, n as int),
                self@ == start + all.subrange(0, i as int),
            decreases n - i,
        {
            proof { self.buf.lemma_wf(); }
            let v = iter.next().unwrap();
            self.buf.push_within(v);
            proof {
                assert(all.subrange(0, i + 1) =~= all.subrange(0, i as int).push(v));
                assert(iter.remaining() =~= all.subrange(i + 1, n as int));
            }
            i = i + 1;
        }
        assert(all.subrange(0, n as int) =~= all);
    }

    /// Keep the first `len` values and drop the rest; nothing happens if the
    /// array is not longer than `len`.
    pub fn truncate(&mut self, len: usize)
        requires
            old(self).wf(),
        ensures
            final(self).log() == old(self).log(),
            final(self).wf(),
            final(self).room() == old(self).room(),
            len <= old(self)@.len() ==> final(self)@ == old(self)@.subrange(0, len as int),
            len > old(self)@.len() ==> final(self)@ == old(self)@,
    {
        if len > self.buf.len() {
            return;
        }
        self.buf.truncate(len);
    }

    /// Remove every value, keeping the capacity.
    pub fn clear(&mut self)
        requires
            old(self).wf(),
        ensures
            final(self).log() == old(self).log(),
            final(self).wf(),
            final(self).room() == old(self).room(),
            final(self)@ == Seq::<T>::empty(),
    {
        while self.buf.len() > 0
            invariant
                self.wf(),
                self.room() == old(self).room(),
                self.log() == old(self).log(),
            decreases self@.len(),
        {
            self.buf.pop();
        }
    }

    /// Remove the value at `index` and return it, shifting the later values.
    pub fn remove(&mut self, index: usize) -> (r: T)
        requires
            old(self).wf(),
            index < old(self)@.len(),
        ensures
            final(self).log() == old(self).log(),
            final(self).wf(),
            final(self).room() == old(self).room(),
            r == old(self)@[index as int],
            final(self)@ == old(self)@.remove(index as int),
    {
        self.buf.remove(index)
    }

    /// Move every value out into an iterator, leaving the array empty with
    /// its capacity.
    pub fn drain(&mut self) -> (r: Drain<T>)
        requires
            old(self).wf(),
        ensures
            final(self).wf(),
            final(self).room() == old(self).room(),
            final(self)@ == Seq::<T>::empty(),
            r.remaining() == old(self)@,
    {
        let items = self.buf.take_all();
        Drain { iter: RawValIter::new(items) }
    }

    /// The values, in order.
    pub fn as_slice(&self) -> (r: &[T])
        ensures
            r@ == self@,
    {
        self.buf.as_slice()
    }

    /// The value at `index`.
    pub fn get(&self, index: usize) -> (r: &T)
        requires
            index < self@.len(),
        ensures
            *r == self@[index as int],
    {
        self.buf.get(index)
    }

    /// The value at `index`, for writing.
    pub fn get_mut(&mut self, index: usize) -> (r: &mut T)
        requires
            old(self).wf(),
            index < old(self)@.len(),
        ensures
            final(self).log() == old(self).log(),
            *r == old(self)@[index as int],
            final(self).wf(),
            final(self).room() == old(self).room(),
            final(self)@ == old(self)@.update(index as int, *final(r)),
    {
        self.buf.get_mut(index)
    }

    /// An iterator that owns the values, front to back.
    pub fn into_iter(self) -> (r: IntoIter<T>)
        requires
            self.wf(),
        ensures
            r.remaining() == self@,
    {
        let mut buf = self.buf;
        let items = buf.take_all();
        IntoIter::from_parts(RawValIter::new(items))
    }

    /// A new array holding the values of `items`, in order.
    pub fn from_iter_in(items: std::vec::Vec<T>) -> (r: AllocResult<Self>)
        requires
            can_reserve::<T>(0, initial_capacity::<T>(), items@.len() as int),
        ensures
            r matches Ok(v) ==> v.wf() && v@ == items@ && v.room() == capacity_after_reserve(
                0,
                initial_capacity::<T>(),
                items@.len() as int,
            ),
            (zero_sized::<T>() || items@.len() == 0) ==> r is Ok,
            r matches Err(e) ==> refused_for::<T>(e, items@.len() as int),
    {
        let mut v = match AllocatedVec::new_in() {
            Ok(v) => v,
            Err(e) => {
                return Err(e);
            },
        };
        proof { v.lemma_wf(); }
        match v.extend_in(items) {
            Ok(()) => Ok(v),
            Err(e) => Err(e),
        }
    }
}

/// How many values an iterator still holds.
fn elems_len<T>(iter: &RawValIter<T>) -> (r: usize)
    ensures
        r == iter.remaining().len(),
{
    iter.size_hint().0
}

/// An iterator moving the values out of an `AllocatedVec`.
pub struct Drain<T> {
    iter: RawValIter<T>,
}

impl<T> Drain<T> {
    /// The values still to come, in order.
    pub closed spec fn remaining(&self) -> Seq<T> {
        self.iter.remaining()
    }

    /// The next value from the front.
    pub fn next(&mut self) -> (r: Option<T>)
        ensures
            old(self).remaining().len() == 0 ==> r is None && final(self).remaining() == old(self).remaining(),
            old(self).remaining().len() > 0 ==> r == Some(old(self).remaining()[0])
                && final(self).remaining() == old(self).remaining().drop_first(),
    {
        self.iter.next()
    }

    /// The next value from the back.
    pub fn next_back(&mut self) -> (r: Option<T>)
        ensures
            old(self).remaining().len() == 0 ==> r is None && final(self).remaining() == old(self).remaining(),
            old(self).remaining().len() > 0 ==> r == Some(old(self).remaining().last())
                && final(self).remaining() == old(self).remaining().drop_last(),
    {
        self.iter.next_back()
    }

    /// How many values are still to come, as a lower and an upper bound.
    pub fn size_hint(&self) -> (r: (usize, Option<usize>))
        ensures
            r.0 == self.remaining().len(),
            r.1 == Some(r.0),
    {
        self.iter.size_hint()
    }
}

} // verus!

verus! {

/// Popping right after pushing `x` returns `x` and gives back the values as
/// they were (as `push_in` and `pop` state their effects on the view).
pub proof fn law_pop_undoes_push<T>(s0: Seq<T>, s1: Seq<T>, s2: Seq<T>, x: T, popped: Option<T>)
    requires
        s1 == s0.push(x),
        s1.len() > 0 ==> popped == Some(s1.last()) && s2 == s1.drop_last(),
    ensures
        popped == Some(x),
        s2 == s0,
{
    assert(s1.drop_last() =~= s0);
}

/// Removing at `index` right after inserting `x` there returns `x` and gives
/// back the values as they were.
pub proof fn law_remove_undoes_insert<T>(
    s0: Seq<T>,
    s1: Seq<T>,
    s2: Seq<T>,
    index: int,
    x: T,
    removed: T,
)
    requires
        0 <= index <= s0.len(),
        s1 == s0.insert(index, x),
        removed == s1[index],
        s2 == s1.remove(index),
    ensures
        removed == x,
        s2 == s0,
{
    assert(s2 =~= s0);
}

} // verus!

verus! {

impl<T: PartialEq> PartialEq for AllocatedVec<T> {
    /// Two arrays are equal when they are as long and their values are
    /// pairwise equal.
    fn eq(&self, other: &Self) -> (r: bool) {
        if self.len() != other.len() {
            return false;
        }
        let n = self.len();
        let mut i: usize = 0;
        while i < n
            invariant
                n == self@.len(),
                n == other@.len(),
                0 <= i <= n,
                T::obeys_eq_spec() ==> forall|j: int| 0 <= j < i ==> (#[trigger] self@[j]).eq_spec(&other@[j]),
            decreases n - i,
        {
            if !(self.get(i) == other.get(i)) {
                return false;
            }
            i = i + 1;
        }
        true
    }
}

impl<T: PartialEq> vstd::std_specs::cmp::PartialEqSpecImpl for AllocatedVec<T> {
    open spec fn obeys_eq_spec() -> bool {
        T::obeys_eq_spec()
    }

    open spec fn eq_spec(&self, other: &Self) -> bool {
        &&& self@.len() == other@.len()
        &&& forall|j: int| 0 <= j < self@.len() ==> (#[trigger] self@[j]).eq_spec(&other@[j])
    }
}

impl<T: Eq> Eq for AllocatedVec<T> {
}


/// A push fails exactly when the global allocator refused it a larger
/// buffer: it asks for one only when the array is full, and asks for the
/// grown capacity, which has room for the new value; when the answer is yes,
/// `x` is appended after the values, which stay as they were.
pub proof fn law_push_in_fails_only_when_refused<T>(
    v0: AllocatedVec<T>,
    v1: AllocatedVec<T>,
    x: T,
    r: AllocResult<()>,
)
    requires
        v0.wf(),
        can_push::<T>(v0@.len() as int, v0.room() as int),
        push_in_outcome(v0, v1, x, r),
    ensures
        requested(v0.log(), v1.log()) <==> v0@.len() == v0.room(),
        requested(v0.log(), v1.log()) ==> (v1.log().last() matches Some(p) && p.0 > v0@.len()),
        r is Err <==> refused(v0.log(), v1.log()),
        r matches Err(e) ==> (v1.log().last() matches Some(p) && e.refused_count() == Some(p.0)),
        r is Ok ==> v1@.len() == v0@.len() + 1 && v1@[v0@.len() as int] == x && forall|i: int|
            0 <= i < v0@.len() ==> v1@[i] == v0@[i],
        r is Err ==> v1@ == v0@,
{
    v0.lemma_wf();
}

/// Appending fails exactly when the global allocator refused it a larger
/// buffer: it asks for one only when the values do not fit, asks for room
/// for at least all of them, and when the answer is yes every value of
/// `elems` follows the array's values, in order.
pub proof fn law_extend_in_fails_only_when_refused<T>(
    v0: AllocatedVec<T>,
    v1: AllocatedVec<T>,
    elems: Seq<T>,
    r: AllocResult<()>,
)
    requires
        v0.wf(),
        can_reserve::<T>(v0@.len() as int, v0.room() as int, elems.len() as int),
        extend_in_outcome(v0, v1, elems, r),
    ensures
        requested(v0.log(), v1.log()) <==> v0@.len() + elems.len() > v0.room(),
        requested(v0.log(), v1.log()) ==> (v1.log().last() matches Some(p) && p.0 >= v0@.len()
            + elems.len()),
        r is Err <==> refused(v0.log(), v1.log()),
        r matches Err(e) ==> (v1.log().last() matches Some(p) && e.refused_count() == Some(p.0)),
        r is Ok ==> v1@.len() == v0@.len() + elems.len() && (forall|i: int|
            0 <= i < v0@.len() ==> v1@[i] == v0@[i]) && (forall|j: int|
            0 <= j < elems.len() ==> v1@[v0@.len() + j] == elems[j]),
        r is Err ==> v1@ == v0@,
{
    v0.lemma_wf();
}
} // verus!
