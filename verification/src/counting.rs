//! Counting the allocations made through an allocator.
use vstd::prelude::*;

verus! {

/// Counts of allocations and deallocations, and of the bytes they covered.
#[derive(Debug)]
pub struct Counter {
    n_allocs: usize,
    n_deallocs: usize,
    n_bytes_allocated: usize,
    n_bytes_deallocated: usize,
}

impl Counter {
    /// Number of allocations counted so far.
    pub closed spec fn allocs(&self) -> nat {
        self.n_allocs as nat
    }

    /// Number of deallocations counted so far.
    pub closed spec fn deallocs(&self) -> nat {
        self.n_deallocs as nat
    }

    /// Bytes allocated so far.
    pub closed spec fn bytes_allocated(&self) -> nat {
        self.n_bytes_allocated as nat
    }

    /// Bytes deallocated so far.
    pub closed spec fn bytes_deallocated(&self) -> nat {
        self.n_bytes_deallocated as nat
    }

    /// A counter at zero.
    pub fn new() -> (r: Self)
        ensures
            r.allocs() == 0,
            r.deallocs() == 0,
            r.bytes_allocated() == 0,
            r.bytes_deallocated() == 0,
    {
        Counter { n_allocs: 0, n_deallocs: 0, n_bytes_allocated: 0, n_bytes_deallocated: 0 }
    }

    /// Count an allocation of `size` bytes.
    pub fn allocate(&mut self, size: usize)
        requires
            old(self).allocs() + 1 <= usize::MAX,
            old(self).bytes_allocated() + size <= usize::MAX,
        ensures
            final(self).allocs() == old(self).allocs() + 1,
            final(self).bytes_allocated() == old(self).bytes_allocated() + size,
            final(self).deallocs() == old(self).deallocs(),
            final(self).bytes_deallocated() == old(self).bytes_deallocated(),
    {
        self.n_allocs = self.n_allocs + 1;
        self.n_bytes_allocated = self.n_bytes_allocated + size;
    }

    /// Count a deallocation of `size` bytes.
    pub fn deallocate(&mut self, size: usize)
        requires
            old(self).deallocs() + 1 <= usize::MAX,
            old(self).bytes_deallocated() + size <= usize::MAX,
        ensures
            final(self).deallocs() == old(self).deallocs() + 1,
            final(self).bytes_deallocated() == old(self).bytes_deallocated() + size,
            final(self).allocs() == old(self).allocs(),
            final(self).bytes_allocated() == old(self).bytes_allocated(),
    {
        self.n_deallocs = self.n_deallocs + 1;
        self.n_bytes_deallocated = self.n_bytes_deallocated + size;
    }

    /// Number of allocations made so far.
    pub fn n_allocations(&self) -> (r: usize)
        ensures
            r == self.allocs(),
    {
        self.n_allocs
    }

    /// Number of deallocations made so far.
    pub fn n_deallocations(&self) -> (r: usize)
        ensures
            r == self.deallocs(),
    {
        self.n_deallocs
    }

    /// Number of bytes allocated so far.
    pub fn n_bytes_allocated(&self) -> (r: usize)
        ensures
            r == self.bytes_allocated(),
    {
        self.n_bytes_allocated
    }

    /// Number of bytes deallocated so far.
    pub fn n_bytes_deallocated(&self) -> (r: usize)
        ensures
            r == self.bytes_deallocated(),
    {
        self.n_bytes_deallocated
    }

    /// The allocations not yet deallocated.
    pub fn net_allocations(&self) -> (r: usize)
        requires
            self.deallocs() <= self.allocs(),
        ensures
            r == self.allocs() - self.deallocs(),
    {
        self.n_allocs - self.n_deallocs
    }

    /// The bytes not yet deallocated.
    pub fn net_bytes_allocated(&self) -> (r: usize)
        requires
            self.bytes_deallocated() <= self.bytes_allocated(),
        ensures
            r == self.bytes_allocated() - self.bytes_deallocated(),
    {
        self.n_bytes_allocated - self.n_bytes_deallocated
    }
}

impl Default for Counter {
    fn default() -> (r: Self)
        ensures
            r.allocs() == 0,
            r.deallocs() == 0,
            r.bytes_allocated() == 0,
            r.bytes_deallocated() == 0,
    {
        Counter::new()
    }
}

} // verus!

verus! {

/// Counting an allocation and then a deallocation of the same size leaves
/// the net counts as they were.
pub proof fn law_balanced_pair_keeps_net(c0: Counter, c1: Counter, c2: Counter, size: usize)
    requires
        c1.allocs() == c0.allocs() + 1,
        c1.bytes_allocated() == c0.bytes_allocated() + size,
        c1.deallocs() == c0.deallocs(),
        c1.bytes_deallocated() == c0.bytes_deallocated(),
        c2.deallocs() == c1.deallocs() + 1,
        c2.bytes_deallocated() == c1.bytes_deallocated() + size,
        c2.allocs() == c1.allocs(),
        c2.bytes_allocated() == c1.bytes_allocated(),
    ensures
        c2.allocs() - c2.deallocs() == c0.allocs() - c0.deallocs(),
        c2.bytes_allocated() - c2.bytes_deallocated() == c0.bytes_allocated()
            - c0.bytes_deallocated(),
{
}

} // verus!
