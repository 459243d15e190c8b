//! A sorted dynamic array that reports allocation failures.
use vstd::prelude::*;
use vstd::std_specs::cmp::PartialEqSpec;
use crate::error::{AllocResult, array_layout_for, can_hold, zero_sized, refused_for};
use crate::order::{
    holds_key, insertion_point, key_eq, lawful_order, lemma_insert_sorted, lemma_remove_sorted,
    search_sorted, sorted,
};
use crate::vec::allocated::{AllocatedVec, can_push, capacity_after_push};
use crate::vec::alloc_log::{AllocLog, refused, requested, requested_if};
use crate::vec::raw_vec::{grown_capacity, initial_capacity};

verus! {

/// What `insert_in` promises when it inserts `v` into the array `s0`,
/// leaving the array `s1` and returning `r`.
pub open spec fn insert_in_outcome<T: Ord>(
    s0: AllocatedSortedVec<T>,
    s1: AllocatedSortedVec<T>,
    v: T,
    r: AllocResult<bool>,
) -> bool {
    &&& s1.wf()
    &&& requested_if(
        s0.log(),
        s1.log(),
        !holds_key(s0@, v) && s0@.len() == s0.room(),
        grown_capacity(s0.room() as int),
        r is Ok,
    )
    &&& s0@.len() < s0.room() ==> r is Ok
    &&& holds_key(s0@, v) ==> r == Ok::<bool, crate::AllocErrorWithLayout>(false) && s1@ == s0@
    &&& !holds_key(s0@, v) ==> match r {
        Ok(b) => b && exists|pos: int| insertion_point(s0@, v, pos) && s1@ == s0@.insert(pos, v),
        Err(_) => s1@ == s0@,
    }
    &&& r matches Err(e) ==> refused_for::<T>(e, grown_capacity(s0.room() as int))
}

/// A dynamic array kept in non-decreasing order, searched by bisection.
#[derive(Debug)]
pub struct AllocatedSortedVec<T: Ord> {
    value: AllocatedVec<T>,
}

impl<T: Ord> View for AllocatedSortedVec<T> {
    type V = Seq<T>;

    closed spec fn view(&self) -> Seq<T> {
        self.value@
    }
}

impl<T: Ord> AllocatedSortedVec<T> {
    /// The array is consistent and in order.
    pub closed spec fn wf(&self) -> bool {
        &&& self.value.wf()
        &&& sorted(self.value@)
    }

    /// How many values the array has room for.
    pub closed spec fn room(&self) -> nat {
        self.value.room()
    }

    /// The requests the array has made of the global allocator.
    pub closed spec fn log(&self) -> AllocLog {
        self.value.log()
    }

    pub proof fn lemma_wf(&self)
        requires
            self.wf(),
        ensures
            sorted(self@),
            self@.len() <= self.room(),
            can_hold::<T>(self.room() as int),
            zero_sized::<T>() ==> self.room() == usize::MAX,
    {
        self.value.lemma_wf();
    }

    /// A new, empty array. It allocates nothing, so it cannot fail.
    pub fn new_in() -> (r: AllocResult<Self>)
        ensures
            r matches Ok(v) && v.wf() && v@ == Seq::<T>::empty() && v.room()
                == initial_capacity::<T>(),
    {
        match AllocatedVec::new_in() {
            Ok(value) => Ok(AllocatedSortedVec { value }),
            Err(e) => Err(e),
        }
    }

    /// Adopt `v`, which must be sorted.
    pub fn from_vec(v: AllocatedVec<T>) -> (r: Self)
        requires
            v.wf(),
            sorted(v@),
        ensures
            r.wf(),
            r@ == v@,
            r.room() == v.room(),
    {
        AllocatedSortedVec { value: v }
    }

    /// A new array holding only `i`, with room for one value. It fails only
    /// when the global allocator does, which cannot happen for a zero-sized type.
    pub fn one_in(i: T) -> (r: AllocResult<Self>)
        requires
            can_hold::<T>(1),
        ensures
            r matches Ok(v) ==> v.wf() && v@ == seq![i] && v.room() == (if zero_sized::<T>() {
                usize::MAX as int
            } else {
                1
            }),
            zero_sized::<T>() ==> r is Ok,
            r matches Err(e) ==> refused_for::<T>(e, 1),
    {
        let mut value = match AllocatedVec::try_with_capacity_in(1) {
            Ok(value) => value,
            Err(e) => {
                return Err(e);
            },
        };
        match value.push_in(i) {
            Ok(()) => {},
            Err(e) => {
                return Err(e);
            },
        }
        assert(value@ =~= seq![i]);
        Ok(AllocatedSortedVec { value })
    }

    /// Insert `v` in its place, unless an equal value is there already.
    /// Returns `Ok(true)` when `v` was inserted, `Ok(false)` when an equal
    /// value was found; if the buffer had to grow and the global allocator failed,
    /// the array is unchanged and the error is returned.
    pub fn insert_in(&mut self, v: T) -> (r: AllocResult<bool>)
        requires
            lawful_order::<T>(),
            old(self).wf(),
            can_push::<T>(old(self)@.len() as int, old(self).room() as int),
        ensures
            insert_in_outcome(*old(self), *final(self), v, r),
            final(self).wf(),
            r matches Ok(_) ==> holds_key(final(self)@, v),
            holds_key(old(self)@, v) ==> r == Ok::<bool, crate::AllocErrorWithLayout>(false)
                && final(self)@ == old(self)@ && final(self).room() == old(self).room(),
            !holds_key(old(self)@, v) ==> match r {
                Ok(b) => b && final(self).room() == capacity_after_push(
                    old(self)@.len() as int,
                    old(self).room() as int,
                ) && exists|pos: int|
                    insertion_point(old(self)@, v, pos) && final(self)@ == old(self)@.insert(
                        pos,
                        v,
                    ),
                Err(_) => final(self)@ == old(self)@ && final(self).room() == old(self).room(),
            },
            r is Err ==> old(self)@.len() == old(self).room(),
            requested_if(
                old(self).log(),
                final(self).log(),
                !holds_key(old(self)@, v) && old(self)@.len() == old(self).room(),
                grown_capacity(old(self).room() as int),
                r is Ok,
            ),
            old(self)@.len() < old(self).room() ==> r is Ok,
            r matches Err(e) ==> refused_for::<T>(e, grown_capacity(old(self).room() as int)),
    {
        match search_sorted(self.value.as_slice(), &v) {
            Ok(pos) => {
                proof { assert(key_eq(self.value@[pos as int], v)); }
                Ok(false)
            },
            Err(pos) => {
                proof { lemma_insert_sorted(self.value@, v, pos as int); }
                match self.value.insert_in(pos, v) {
                    Ok(()) => {
                        proof {
                            crate::order::lemma_order_facts::<T>();
                            assert(self.value@[pos as int] == v);
                        }
                        Ok(true)
                    },
                    Err(e) => Err(e),
                }
            },
        }
    }

    /// Insert `v` in its place unless an equal value is there already,
    /// aborting if the global allocator fails. Returns whether `v` was inserted.
    pub(crate) fn insert(&mut self, v: T) -> (r: bool)
        requires
            lawful_order::<T>(),
            old(self).wf(),
            can_push::<T>(old(self)@.len() as int, old(self).room() as int),
        ensures
            final(self).wf(),
            holds_key(final(self)@, v),
            r == !holds_key(old(self)@, v),
            !r ==> final(self)@ == old(self)@ && final(self).room() == old(self).room(),
            r ==> final(self).room() == capacity_after_push(
                old(self)@.len() as int,
                old(self).room() as int,
            ) && exists|pos: int|
                insertion_point(old(self)@, v, pos) && final(self)@ == old(self)@.insert(pos, v),
    {
        match search_sorted(self.value.as_slice(), &v) {
            Ok(pos) => {
                proof { assert(key_eq(self.value@[pos as int], v)); }
                false
            },
            Err(pos) => {
                proof { lemma_insert_sorted(self.value@, v, pos as int); }
                self.value.insert(pos, v);
                proof {
                    crate::order::lemma_order_facts::<T>();
                    assert(self.value@[pos as int] == v);
                }
                true
            },
        }
    }

    /// Remove one value equal to `v`, if there is one; returns whether one
    /// was removed. No memory is freed.
    pub fn remove(&mut self, v: &T) -> (r: bool)
        requires
            lawful_order::<T>(),
            old(self).wf(),
        ensures
            final(self).wf(),
            final(self).room() == old(self).room(),
            r == holds_key(old(self)@, *v),
            !r ==> final(self)@ == old(self)@,
            r ==> exists|i: int|
                0 <= i < old(self)@.len() && key_eq(old(self)@[i], *v) && final(self)@ == old(
                    self,
                )@.remove(i),
    {
        match search_sorted(self.value.as_slice(), v) {
            Ok(pos) => {
                proof { lemma_remove_sorted(self.value@, pos as int); }
                let ghost before = self.value@;
                self.value.remove(pos);
                assert(key_eq(old(self)@[pos as int], *v) && self@ == old(self)@.remove(pos as int));
                true
            },
            Err(_pos) => false,
        }
    }

    /// Whether the array holds a value equal to `v`.
    pub fn contains(&self, v: &T) -> (r: bool)
        requires
            lawful_order::<T>(),
            self.wf(),
        ensures
            r == holds_key(self@, *v),
    {
        match search_sorted(self.value.as_slice(), v) {
            Ok(_pos) => true,
            Err(_pos) => false,
        }
    }

    /// A value equal to `v`, if the array holds one.
    pub fn get(&self, v: &T) -> (r: Option<&T>)
        requires
            lawful_order::<T>(),
            self.wf(),
        ensures
            r is Some == holds_key(self@, *v),
            r matches Some(x) ==> exists|i: int|
                0 <= i < self@.len() && key_eq(self@[i], *v) && *x == self@[i],
    {
        match search_sorted(self.value.as_slice(), v) {
            Ok(pos) => {
                let x = self.value.get(pos);
                assert(key_eq(self@[pos as int], *v) && *x == self@[pos as int]);
                Some(x)
            },
            Err(_pos) => None,
        }
    }

    /// Remove the last (greatest) value and return it, or `None` if the array
    /// is empty.
    pub fn pop(&mut self) -> (r: Option<T>)
        requires
            old(self).wf(),
        ensures
            final(self).wf(),
            final(self).room() == old(self).room(),
            old(self)@.len() == 0 ==> r is None && final(self)@ == old(self)@,
            old(self)@.len() > 0 ==> r == Some(old(self)@.last()) && final(self)@ == old(
                self,
            )@.drop_last(),
    {
        proof {
            if self.value@.len() > 0 {
                lemma_remove_sorted(self.value@, self.value@.len() - 1);
                assert(self.value@.remove(self.value@.len() - 1) =~= self.value@.drop_last());
            }
        }
        self.value.pop()
    }

    /// The values, in order.
    pub fn as_slice(&self) -> (r: &[T])
        ensures
            r@ == self@,
    {
        self.value.as_slice()
    }

    /// How many values the array holds.
    pub fn len(&self) -> (r: usize)
        ensures
            r == self@.len(),
    {
        self.value.len()
    }
}

} // verus!

verus! {

/// Removing a value that was absent and has just been inserted gives back
/// the array as it was.
pub proof fn law_remove_undoes_insert<T: Ord>(s0: Seq<T>, s1: Seq<T>, s2: Seq<T>, v: T)
    requires
        lawful_order::<T>(),
        sorted(s0),
        !holds_key(s0, v),
        exists|pos: int| insertion_point(s0, v, pos) && s1 == s0.insert(pos, v),
        exists|i: int| 0 <= i < s1.len() && key_eq(s1[i], v) && s2 == s1.remove(i),
    ensures
        s2 == s0,
{
    let pos = choose|pos: int| insertion_point(s0, v, pos) && s1 == s0.insert(pos, v);
    let i = choose|i: int| 0 <= i < s1.len() && key_eq(s1[i], v) && s2 == s1.remove(i);
    if i < pos {
        assert(s1[i] == s0[i]);
    } else if i > pos {
        assert(s1[i] == s0[i - 1]);
    }
    assert(s2 =~= s0);
}


/// Inserting a value that is absent fails exactly when the global allocator
/// refused the array a larger buffer, which it asks for only when the array
/// is full; when the answer is yes, `v` is added and every value stays, in
/// order. A value that is present is never inserted again and nothing is
/// asked of the allocator.
pub proof fn law_insert_in_fails_only_when_refused<T: Ord>(
    s0: AllocatedSortedVec<T>,
    s1: AllocatedSortedVec<T>,
    v: T,
    r: AllocResult<bool>,
)
    requires
        s0.wf(),
        can_push::<T>(s0@.len() as int, s0.room() as int),
        insert_in_outcome(s0, s1, v, r),
    ensures
        requested(s0.log(), s1.log()) <==> !holds_key(s0@, v) && s0@.len() == s0.room(),
        requested(s0.log(), s1.log()) ==> (s1.log().last() matches Some(p) && p.0 > s0@.len()),
        r is Err <==> refused(s0.log(), s1.log()),
        r matches Err(e) ==> (s1.log().last() matches Some(p) && e.refused_count() == Some(p.0)),
        r == Ok::<bool, crate::AllocErrorWithLayout>(true) <==> r is Ok && !holds_key(s0@, v),
        r is Ok ==> sorted(s1@),
        r == Ok::<bool, crate::AllocErrorWithLayout>(true) ==> s1@.len() == s0@.len() + 1
            && s1@.contains(v) && forall|i: int| 0 <= i < s0@.len() ==> s1@.contains(#[trigger] s0@[i]),
        r is Err || r == Ok::<bool, crate::AllocErrorWithLayout>(false) ==> s1@ == s0@,
{
    s0.lemma_wf();
    s1.lemma_wf();
    if r == Ok::<bool, crate::AllocErrorWithLayout>(true) {
        let pos = choose|pos: int| insertion_point(s0@, v, pos) && s1@ == s0@.insert(pos, v);
        assert(s1@[pos] == v);
        assert forall|i: int| 0 <= i < s0@.len() implies s1@.contains(#[trigger] s0@[i]) by {
            if i < pos {
                assert(s1@[i] == s0@[i]);
            } else {
                assert(s1@[i + 1] == s0@[i]);
            }
        }
    }
}
} // verus!

verus! {

impl<T: Ord> PartialEq for AllocatedSortedVec<T> {
    /// Two arrays are equal when they are as long and their values are
    /// pairwise equal.
    fn eq(&self, other: &Self) -> (r: bool) {
        self.value == other.value
    }
}

impl<T: Ord> vstd::std_specs::cmp::PartialEqSpecImpl for AllocatedSortedVec<T> {
    open spec fn obeys_eq_spec() -> bool {
        T::obeys_eq_spec()
    }

    open spec fn eq_spec(&self, other: &Self) -> bool {
        &&& self@.len() == other@.len()
        &&& forall|j: int| 0 <= j < self@.len() ==> (#[trigger] self@[j]).eq_spec(&other@[j])
    }
}

impl<T: Ord> Eq for AllocatedSortedVec<T> {
}

} // verus!
