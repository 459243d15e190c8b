//! Tracking the allocations of an allocator that are still outstanding.
use vstd::prelude::*;
use std::collections::HashMap;

verus! {

/// The outstanding allocations, by address, each with a record of where it
/// was made; allocations of zero bytes are only counted.
#[derive(Debug)]
pub struct Tracker<B> {
    outstanding: HashMap<usize, B>,
    zero_allocs: usize,
}

impl<B> Tracker<B> {
    /// The outstanding allocations of one byte or more, by address.
    pub closed spec fn live(&self) -> Map<usize, B> {
        self.outstanding@
    }

    /// How many allocations of zero bytes are outstanding.
    pub closed spec fn zero_sized_live(&self) -> nat {
        self.zero_allocs as nat
    }

    /// A tracker with nothing outstanding.
    pub fn new() -> (r: Self)
        ensures
            r.live() == Map::<usize, B>::empty(),
            r.zero_sized_live() == 0,
    {
        Tracker { outstanding: HashMap::new(), zero_allocs: 0 }
    }

    /// Record an allocation of `size` bytes at `addr`, made at `site`.
    pub fn record_allocate(&mut self, size: usize, addr: usize, site: B)
        requires
            size == 0 ==> old(self).zero_sized_live() + 1 <= usize::MAX,
        ensures
            size == 0 ==> final(self).zero_sized_live() == old(self).zero_sized_live() + 1
                && final(self).live() == old(self).live(),
            size != 0 ==> final(self).live() == old(self).live().insert(addr, site)
                && final(self).zero_sized_live() == old(self).zero_sized_live(),
    {
        broadcast use vstd::std_specs::hash::group_hash_axioms;
        if size == 0 {
            self.zero_allocs = self.zero_allocs + 1;
        } else {
            self.outstanding.insert(addr, site);
        }
    }

    /// Record the deallocation of `size` bytes at `addr`, which must be
    /// outstanding.
    pub fn record_deallocate(&mut self, size: usize, addr: usize)
        requires
            size == 0 ==> old(self).zero_sized_live() >= 1,
            size != 0 ==> old(self).live().contains_key(addr),
        ensures
            size == 0 ==> final(self).zero_sized_live() == old(self).zero_sized_live() - 1
                && final(self).live() == old(self).live(),
            size != 0 ==> final(self).live() == old(self).live().remove(addr)
                && final(self).zero_sized_live() == old(self).zero_sized_live(),
    {
        broadcast use vstd::std_specs::hash::group_hash_axioms;
        if size == 0 {
            self.zero_allocs = self.zero_allocs - 1;
        } else {
            let _ = self.outstanding.remove(&addr);
        }
    }

    /// The outstanding allocations of one byte or more, by address.
    pub fn outstanding(&self) -> (r: &HashMap<usize, B>)
        ensures
            r@ == self.live(),
    {
        &self.outstanding
    }

    /// How many allocations of zero bytes are outstanding.
    pub fn zero_allocations(&self) -> (r: usize)
        ensures
            r == self.zero_sized_live(),
    {
        self.zero_allocs
    }
}

} // verus!

verus! {

/// Recording the deallocation of an allocation just recorded at an address
/// that was not outstanding gives back the outstanding allocations as they
/// were.
pub proof fn law_deallocate_undoes_allocate<B>(
    t0: Tracker<B>,
    t1: Tracker<B>,
    t2: Tracker<B>,
    size: usize,
    addr: usize,
    site: B,
)
    requires
        size != 0,
        !t0.live().contains_key(addr),
        t1.live() == t0.live().insert(addr, site),
        t1.zero_sized_live() == t0.zero_sized_live(),
        t2.live() == t1.live().remove(addr),
        t2.zero_sized_live() == t1.zero_sized_live(),
    ensures
        t2.live() == t0.live(),
        t2.zero_sized_live() == t0.zero_sized_live(),
{
    assert(t2.live() =~= t0.live());
}

} // verus!
