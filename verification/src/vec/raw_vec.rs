//! The buffer behind a dynamic array: its initialized slots and its
//! capacity, grown and shrunk by the policy of this crate.
use vstd::prelude::*;
use vstd::layout::size_of;
use crate::error::{
    AllocErrorWithLayout, AllocResult, array_layout, array_layout_for, can_hold, zero_sized, refused_for,
};
use super::alloc_log::{AllocLog, asked, requested_if};

verus! {

/// `Vec::reserve_exact`: makes room for `additional` more values, aborting
/// the process when the global allocator fails. Its contents stay the same. It
/// panics when the new capacity would exceed `isize::MAX` bytes, which the
/// precondition rules out.
#[verifier::external_body]
fn slots_reserve_exact<T>(slots: &mut std::vec::Vec<T>, additional: usize)
    requires
        can_hold::<T>(old(slots)@.len() + additional),
    ensures
        final(slots)@ == old(slots)@,
{
    slots.reserve_exact(additional)
}

/// `Vec::shrink_to`: releases memory beyond `min_capacity` (and beyond the
/// length). Its contents stay the same.
#[verifier::external_body]
fn slots_shrink_to<T>(slots: &mut std::vec::Vec<T>, min_capacity: usize)
    ensures
        final(slots)@ == old(slots)@,
{
    slots.shrink_to(min_capacity)
}

/// The capacity after growing a full buffer of capacity `cap`.
pub open spec fn grown_capacity(cap: int) -> int {
    if cap == 0 {
        1
    } else {
        2 * cap
    }
}

/// The capacity after reserving room for `new_len` values in a buffer of
/// capacity `cap` that is too small for them.
pub open spec fn reserved_capacity(cap: int, new_len: int) -> int {
    if cap == 0 {
        new_len
    } else if 2 * cap >= new_len {
        2 * cap
    } else {
        new_len
    }
}

/// The capacity of a new, empty buffer: a zero-sized type never needs memory.
pub open spec fn initial_capacity<T>() -> int {
    if zero_sized::<T>() {
        usize::MAX as int
    } else {
        0
    }
}

/// The capacity of a buffer shrunk to hold `len` values: a zero-sized type
/// keeps its room for `usize::MAX` values.
pub open spec fn shrunk_capacity<T>(len: int) -> int {
    if zero_sized::<T>() {
        usize::MAX as int
    } else {
        len
    }
}

/// A buffer of `T` values: the values written so far, and how many it has
/// room for.
#[derive(Debug)]
pub struct RawVec<T> {
    slots: std::vec::Vec<T>,
    cap: usize,
    log: AllocLog,
}

impl<T> RawVec<T> {
    /// The buffer is consistent: it never holds more values than it has room
    /// for, its room can be described by a `Layout`, and a buffer of a
    /// zero-sized type always has room for `usize::MAX` values.
    pub closed spec fn wf(&self) -> bool {
        &&& self.slots@.len() <= self.cap
        &&& can_hold::<T>(self.cap as int)
        &&& zero_sized::<T>() ==> self.cap == usize::MAX
    }

    /// The values the buffer holds.
    pub closed spec fn items(&self) -> Seq<T> {
        self.slots@
    }

    /// How many values the buffer has room for.
    pub closed spec fn room(&self) -> nat {
        self.cap as nat
    }

    /// The requests the buffer has made of the global allocator.
    pub closed spec fn log(&self) -> AllocLog {
        self.log
    }

    /// The capacity of the buffer.
    pub fn capacity(&self) -> (r: usize)
        ensures
            r == self.room(),
    {
        self.cap
    }

    /// A new, empty buffer; it allocates nothing.
    pub fn new_in() -> (r: AllocResult<Self>)
        ensures
            r matches Ok(b) && b.wf() && b.items() == Seq::<T>::empty()
                && b.room() == initial_capacity::<T>() && b.log().made() == 0
                && b.log().last() is None,
    {
        let cap: usize = if core::mem::size_of::<T>() == 0 { usize::MAX } else { 0 };
        Ok(RawVec { slots: std::vec::Vec::new(), cap, log: AllocLog::new() })
    }

    /// A new, empty buffer with room for `capacity` values. It fails only
    /// when the global allocator does, which cannot happen for a zero-sized type or
    /// a capacity of zero.
    pub fn try_with_capacity_in(capacity: usize) -> (r: AllocResult<Self>)
        requires
            can_hold::<T>(capacity as int),
        ensures
            r matches Ok(b) ==> b.wf() && b.items() == Seq::<T>::empty() && b.room() == (
            if zero_sized::<T>() {
                usize::MAX as int
            } else {
                capacity as int
            }),
            (zero_sized::<T>() || capacity == 0) ==> r is Ok,
            r matches Ok(b) ==> if zero_sized::<T>() || capacity == 0 {
                b.log().made() == 0 && b.log().last() is None
            } else {
                b.log().made() == 1 && b.log().last() == Some((capacity, true))
            },
            r matches Err(e) ==> refused_for::<T>(e, capacity as int),
    {
        let mut log = AllocLog::new();
        if core::mem::size_of::<T>() == 0 {
            return Ok(RawVec { slots: std::vec::Vec::new(), cap: usize::MAX, log });
        }
        let mut slots: std::vec::Vec<T> = std::vec::Vec::new();
        if capacity == 0 {
            return Ok(RawVec { slots, cap: 0, log });
        }
        match log.try_reserve_exact(&mut slots, capacity) {
            Ok(()) => Ok(RawVec { slots, cap: capacity, log }),
            Err(t) => Err(AllocErrorWithLayout::refused(array_layout::<T>(capacity), t)),
        }
    }

    /// Move to a capacity of `new_cap`, which holds every value. On failure
    /// the buffer is unchanged and the error names the layout requested.
    fn try_realloc(&mut self, new_cap: usize) -> (r: AllocResult<()>)
        requires
            old(self).wf(),
            old(self).slots@.len() <= new_cap,
            can_hold::<T>(new_cap as int),
            !zero_sized::<T>(),
        ensures
            final(self).wf(),
            final(self).items() == old(self).items(),
            r is Ok ==> final(self).room() == new_cap,
            r is Err ==> final(self).room() == old(self).room(),
            r matches Err(e) ==> refused_for::<T>(e, new_cap as int),
            asked(old(self).log(), final(self).log(), new_cap as int, r is Ok),
    {
        let additional = new_cap - self.slots.len();
        match self.log.try_reserve_exact(&mut self.slots, additional) {
            Ok(()) => {
                self.cap = new_cap;
                Ok(())
            },
            Err(t) => Err(AllocErrorWithLayout::refused(array_layout::<T>(new_cap), t)),
        }
    }

    /// Move to a capacity of `new_cap`, which holds every value; the process
    /// aborts if the global allocator fails.
    fn realloc(&mut self, new_cap: usize)
        requires
            old(self).wf(),
            old(self).slots@.len() <= new_cap,
            can_hold::<T>(new_cap as int),
            !zero_sized::<T>(),
        ensures
            final(self).log() == old(self).log(),
            final(self).wf(),
            final(self).items() == old(self).items(),
            final(self).room() == new_cap,
    {
        let additional = new_cap - self.slots.len();
        slots_reserve_exact(&mut self.slots, additional);
        self.cap = new_cap;
    }

    /// The capacity to grow a full buffer to: one, then doubling.
    fn next_capacity(&self) -> (r: usize)
        requires
            self.wf(),
            !zero_sized::<T>(),
            can_hold::<T>(grown_capacity(self.cap as int)),
        ensures
            r == grown_capacity(self.cap as int),
    {
        if self.cap == 0 {
            1
        } else {
            2 * self.cap
        }
    }

    /// Grow the buffer to `grown_capacity`. A zero-sized type never needs
    /// to grow, and growing it is refused.
    pub fn grow_in(&mut self) -> (r: AllocResult<()>)
        requires
            old(self).wf(),
            !zero_sized::<T>(),
            can_hold::<T>(grown_capacity(old(self).room() as int)),
        ensures
            final(self).wf(),
            final(self).items() == old(self).items(),
            r is Ok ==> final(self).room() == grown_capacity(old(self).room() as int),
            r is Err ==> final(self).room() == old(self).room(),
            r matches Err(e) ==> refused_for::<T>(e, grown_capacity(old(self).room() as int)),
            asked(old(self).log(), final(self).log(), grown_capacity(old(self).room() as int), r is Ok),
    {
        let new_cap = self.next_capacity();
        self.try_realloc(new_cap)
    }

    /// Grow the buffer to `grown_capacity`, aborting if the global allocator fails.
    pub(crate) fn grow(&mut self)
        requires
            old(self).wf(),
            !zero_sized::<T>(),
            can_hold::<T>(grown_capacity(old(self).room() as int)),
        ensures
            final(self).log() == old(self).log(),
            final(self).wf(),
            final(self).items() == old(self).items(),
            final(self).room() == grown_capacity(old(self).room() as int),
    {
        let new_cap = self.next_capacity();
        self.realloc(new_cap)
    }

    /// The capacity to move to so that `additional` more values fit, or
    /// `None` when they already do.
    fn capacity_for(&self, additional: usize) -> (r: Option<usize>)
        requires
            self.wf(),
            self.slots@.len() + additional <= usize::MAX,
            self.slots@.len() + additional > self.cap ==> can_hold::<T>(
                reserved_capacity(self.cap as int, self.slots@.len() + additional),
            ),
        ensures
            match r {
                None => self.slots@.len() + additional <= self.cap,
                Some(c) => self.slots@.len() + additional > self.cap && c == reserved_capacity(
                    self.cap as int,
                    self.slots@.len() + additional,
                ),
            },
    {
        let new_len = self.slots.len() + additional;
        if new_len <= self.cap {
            return None;
        }
        if self.cap == 0 {
            Some(new_len)
        } else if 2 * self.cap >= new_len {
            Some(2 * self.cap)
        } else {
            Some(new_len)
        }
    }

    /// Make room for at least `additional` more values than the buffer holds.
    /// Nothing happens when there is room already; otherwise the capacity
    /// becomes `reserved_capacity`, or stays as it was if the global allocator fails.
    pub fn try_reserve_in(&mut self, additional: usize) -> (r: AllocResult<()>)
        requires
            old(self).wf(),
            old(self).items().len() + additional <= usize::MAX,
            old(self).items().len() + additional > old(self).room() ==> can_hold::<T>(
                reserved_capacity(old(self).room() as int, old(self).items().len() + additional),
            ),
        ensures
            final(self).wf(),
            final(self).items() == old(self).items(),
            final(self).room() == (if old(self).items().len() + additional <= old(self).room() {
                old(self).room() as int
            } else if r is Ok {
                reserved_capacity(old(self).room() as int, old(self).items().len() + additional)
            } else {
                old(self).room() as int
            }),
            old(self).items().len() + additional <= old(self).room() ==> r is Ok,
            r matches Err(e) ==> refused_for::<T>(e, reserved_capacity(old(self).room() as int, old(self).items().len() + additional)),
            requested_if(
                old(self).log(),
                final(self).log(),
                old(self).items().len() + additional > old(self).room(),
                reserved_capacity(old(self).room() as int, old(self).items().len() + additional),
                r is Ok,
            ),
    {
        match self.capacity_for(additional) {
            None => Ok(()),
            Some(new_cap) => self.try_realloc(new_cap),
        }
    }

    /// Make room for at least `additional` more values, aborting if the
    /// allocator fails.
    pub(crate) fn reserve(&mut self, additional: usize)
        requires
            old(self).wf(),
            old(self).items().len() + additional <= usize::MAX,
            old(self).items().len() + additional > old(self).room() ==> can_hold::<T>(
                reserved_capacity(old(self).room() as int, old(self).items().len() + additional),
            ),
        ensures
            final(self).log() == old(self).log(),
            final(self).wf(),
            final(self).items() == old(self).items(),
            final(self).room() == (if old(self).items().len() + additional <= old(self).room() {
                old(self).room() as int
            } else {
                reserved_capacity(old(self).room() as int, old(self).items().len() + additional)
            }),
    {
        match self.capacity_for(additional) {
            None => {},
            Some(new_cap) => self.realloc(new_cap),
        }
    }

    /// Shrink the capacity to `new_cap`, which still holds every value. A
    /// zero-sized type needs no memory, so its capacity stays `usize::MAX`;
    /// nor does a capacity of zero. Otherwise the values move to a buffer
    /// of `new_cap` slots; if the global allocator cannot give it, the buffer
    /// is unchanged and the error names the layout requested.
    pub fn shrink_in(&mut self, new_cap: usize) -> (r: AllocResult<()>)
        requires
            old(self).wf(),
            old(self).items().len() <= new_cap <= old(self).room(),
        ensures
            final(self).wf(),
            final(self).items() == old(self).items(),
            r is Ok ==> final(self).room() == if zero_sized::<T>() {
                usize::MAX as int
            } else {
                new_cap as int
            },
            r is Err ==> final(self).room() == old(self).room(),
            r matches Err(e) ==> refused_for::<T>(e, new_cap as int),
            (zero_sized::<T>() || new_cap == 0 || new_cap == old(self).room()) ==> r is Ok,
            requested_if(
                old(self).log(),
                final(self).log(),
                !(zero_sized::<T>() || new_cap == 0 || new_cap == old(self).room()),
                new_cap as int,
                r is Ok,
            ),
    {
        if new_cap == self.cap || core::mem::size_of::<T>() == 0 {
            return Ok(());
        }
        proof {
            let size = size_of::<T>() as int;
            assert(new_cap * size <= self.cap * size) by (nonlinear_arith)
                requires
                    new_cap <= self.cap,
                    size >= 0,
            ;
        }
        let mut fresh: std::vec::Vec<T> = std::vec::Vec::new();
        if new_cap > 0 {
            match self.log.try_reserve_exact(&mut fresh, new_cap) {
                Ok(()) => {},
                Err(t) => {
                    return Err(AllocErrorWithLayout::refused(array_layout::<T>(new_cap), t));
                },
            }
        }
        let ghost before = self.slots@;
        fresh.append(&mut self.slots);
        assert(fresh@ =~= before);
        self.slots = fresh;
        self.cap = new_cap;
        Ok(())
    }

    /// Shrink the capacity to `new_cap`, which still holds every value; the
    /// process aborts if the global allocator fails. A zero-sized type keeps
    /// its capacity of `usize::MAX`.
    pub(crate) fn shrink(&mut self, new_cap: usize)
        requires
            old(self).wf(),
            old(self).items().len() <= new_cap <= old(self).room(),
        ensures
            final(self).log() == old(self).log(),
            final(self).wf(),
            final(self).items() == old(self).items(),
            final(self).room() == if zero_sized::<T>() {
                usize::MAX as int
            } else {
                new_cap as int
            },
    {
        if new_cap == self.cap || core::mem::size_of::<T>() == 0 {
            return;
        }
        proof {
            let size = size_of::<T>() as int;
            assert(new_cap * size <= self.cap * size) by (nonlinear_arith)
                requires
                    new_cap <= self.cap,
                    size >= 0,
            ;
        }
        slots_shrink_to(&mut self.slots, new_cap);
        self.cap = new_cap;
    }
    /// How many values the buffer holds.
    pub fn len(&self) -> (r: usize)
        ensures
            r == self.items().len(),
    {
        self.slots.len()
    }

    /// The buffer is consistent: it never holds more values than it has
    /// room for, and its room can be described by a `Layout`.
    pub proof fn lemma_wf(&self)
        requires
            self.wf(),
        ensures
            self.items().len() <= self.room(),
            can_hold::<T>(self.room() as int),
            zero_sized::<T>() ==> self.room() == usize::MAX,
    {
    }

    /// Write `v` after the last value; there must be room for it.
    pub(crate) fn push_within(&mut self, v: T)
        requires
            old(self).wf(),
            old(self).items().len() < old(self).room(),
        ensures
            final(self).log() == old(self).log(),
            final(self).wf(),
            final(self).items() == old(self).items().push(v),
            final(self).room() == old(self).room(),
    {
        self.slots.push(v);
    }

    /// Write `v` at `index`, shifting the later values; there must be room.
    pub(crate) fn insert_within(&mut self, index: usize, v: T)
        requires
            old(self).wf(),
            old(self).items().len() < old(self).room(),
            index <= old(self).items().len(),
        ensures
            final(self).log() == old(self).log(),
            final(self).wf(),
            final(self).items() == old(self).items().insert(index as int, v),
            final(self).room() == old(self).room(),
    {
        self.slots.insert(index, v);
    }

    /// Take the last value out.
    pub(crate) fn pop(&mut self) -> (r: Option<T>)
        requires
            old(self).wf(),
        ensures
            final(self).log() == old(self).log(),
            final(self).wf(),
            final(self).room() == old(self).room(),
            old(self).items().len() == 0 ==> r is None && final(self).items() == old(self).items(),
            old(self).items().len() > 0 ==> r == Some(old(self).items().last())
                && final(self).items() == old(self).items().drop_last(),
    {
        self.slots.pop()
    }

    /// Take the value at `index` out, shifting the later values.
    pub(crate) fn remove(&mut self, index: usize) -> (r: T)
        requires
            old(self).wf(),
            index < old(self).items().len(),
        ensures
            final(self).log() == old(self).log(),
            final(self).wf(),
            final(self).room() == old(self).room(),
            r == old(self).items()[index as int],
            final(self).items() == old(self).items().remove(index as int),
    {
        self.slots.remove(index)
    }

    /// Keep the first `len` values, dropping the rest.
    pub(crate) fn truncate(&mut self, len: usize)
        requires
            old(self).wf(),
            len <= old(self).items().len(),
        ensures
            final(self).log() == old(self).log(),
            final(self).wf(),
            final(self).room() == old(self).room(),
            final(self).items() == old(self).items().subrange(0, len as int),
    {
        self.slots.truncate(len);
    }

    /// Take every value out, leaving the room as it was.
    pub(crate) fn take_all(&mut self) -> (r: std::vec::Vec<T>)
        requires
            old(self).wf(),
        ensures
            final(self).log() == old(self).log(),
            final(self).wf(),
            final(self).room() == old(self).room(),
            final(self).items() == Seq::<T>::empty(),
            r@ == old(self).items(),
    {
        let mut taken: std::vec::Vec<T> = std::vec::Vec::new();
        core::mem::swap(&mut taken, &mut self.slots);
        taken
    }

    /// The values, in order.
    pub(crate) fn as_slice(&self) -> (r: &[T])
        ensures
            r@ == self.items(),
    {
        self.slots.as_slice()
    }

    /// The value at `index`, for reading.
    pub(crate) fn get(&self, index: usize) -> (r: &T)
        requires
            index < self.items().len(),
        ensures
            *r == self.items()[index as int],
    {
        &self.slots[index]
    }

    /// The value at `index`, for writing.
    pub(crate) fn get_mut(&mut self, index: usize) -> (r: &mut T)
        requires
            old(self).wf(),
            index < old(self).items().len(),
        ensures
            final(self).log() == old(self).log(),
            *r == old(self).items()[index as int],
            final(self).wf(),
            final(self).room() == old(self).room(),
            final(self).items() == old(self).items().update(index as int, *final(r)),
    {
        &mut self.slots[index]
    }
}

} // verus!

verus! {

/// The values of `s` in reverse order.
pub open spec fn reversed<T>(s: Seq<T>) -> Seq<T> {
    Seq::new(s.len(), |i: int| s[s.len() - 1 - i])
}

/// An iterator that moves values out of a buffer, from either end.
pub struct RawValIter<T> {
    // The values still to come, last one first.
    rest: std::vec::Vec<T>,
}

impl<T> RawValIter<T> {
    /// The values still to come, in order.
    pub closed spec fn remaining(&self) -> Seq<T> {
        reversed(self.rest@)
    }

    /// An iterator over `items`, front to back.
    pub fn new(items: std::vec::Vec<T>) -> (r: Self)
        ensures
            r.remaining() == items@,
    {
        let ghost orig = items@;
        let mut items = items;
        let mut rest: std::vec::Vec<T> = std::vec::Vec::new();
        while items.len() > 0
            invariant
                items@.len() + rest@.len() == orig.len(),
                items@ == orig.subrange(0, items@.len() as int),
                forall|j: int| 0 <= j < rest@.len() ==> #[trigger] rest@[j] == orig[orig.len() - 1 - j],
            decreases items@.len(),
        {
            let v = items.pop().unwrap();
            rest.push(v);
        }
        let r = RawValIter { rest };
        assert(r.remaining() =~= orig);
        r
    }

    /// The next value from the front.
    pub fn next(&mut self) -> (r: Option<T>)
        ensures
            old(self).remaining().len() == 0 ==> r is None && final(self).remaining() == old(self).remaining(),
            old(self).remaining().len() > 0 ==> r == Some(old(self).remaining()[0])
                && final(self).remaining() == old(self).remaining().drop_first(),
    {
        let r = self.rest.pop();
        proof {
            if old(self).rest@.len() > 0 {
                assert(final(self).remaining() =~= old(self).remaining().drop_first());
            }
        }
        r
    }

    /// The next value from the back.
    pub fn next_back(&mut self) -> (r: Option<T>)
        ensures
            old(self).remaining().len() == 0 ==> r is None && final(self).remaining() == old(self).remaining(),
            old(self).remaining().len() > 0 ==> r == Some(old(self).remaining().last())
                && final(self).remaining() == old(self).remaining().drop_last(),
    {
        if self.rest.len() == 0 {
            return None;
        }
        let r = self.rest.remove(0);
        assert(final(self).remaining() =~= old(self).remaining().drop_last());
        Some(r)
    }

    /// How many values are still to come, as a lower and an upper bound.
    pub fn size_hint(&self) -> (r: (usize, Option<usize>))
        ensures
            r.0 == self.remaining().len(),
            r.1 == Some(r.0),
    {
        let n = self.rest.len();
        (n, Some(n))
    }
}

/// An iterator that owns the values of a dynamic array.
pub struct IntoIter<T> {
    iter: RawValIter<T>,
}

impl<T> IntoIter<T> {
    /// The values still to come, in order.
    pub closed spec fn remaining(&self) -> Seq<T> {
        self.iter.remaining()
    }

    /// Put an iterator over the values of a buffer into an `IntoIter`.
    pub fn from_parts(iter: RawValIter<T>) -> (r: Self)
        ensures
            r.remaining() == iter.remaining(),
    {
        IntoIter { iter }
    }

    /// The next value from the front.
    pub fn next(&mut self) -> (r: Option<T>)
        ensures
            old(self).remaining().len() == 0 ==> r is None && final(self).remaining() == old(self).remaining(),
            old(self).remaining().len() > 0 ==> r == Some(old(self).remaining()[0])
                && final(self).remaining() == old(self).remaining().drop_first(),
    {
        self.iter.next()
    }

    /// The next value from the back.
    pub fn next_back(&mut self) -> (r: Option<T>)
        ensures
            old(self).remaining().len() == 0 ==> r is None && final(self).remaining() == old(self).remaining(),
            old(self).remaining().len() > 0 ==> r == Some(old(self).remaining().last())
                && final(self).remaining() == old(self).remaining().drop_last(),
    {
        self.iter.next_back()
    }

    /// How many values are still to come, as a lower and an upper bound.
    pub fn size_hint(&self) -> (r: (usize, Option<usize>))
        ensures
            r.0 == self.remaining().len(),
            r.1 == Some(r.0),
    {
        self.iter.size_hint()
    }
}

} // verus!
