//! Allocation errors, and the layouts of the arrays the containers request.
use vstd::prelude::*;
use vstd::layout::{align_of, size_of};
use allocator_api2::alloc::Layout;
use crate::vec::alloc_log::Refusal;

verus! {

/// `Layout` (from `core::alloc`, as `allocator_api2` exports it), declared so
/// that allocation errors can carry the layout that was requested. Verus sees
/// nothing inside it.
#[verifier::external_type_specification]
#[verifier::external_body]
pub struct ExLayout(Layout);

/// A buffer of `n` values of `T` can be described by a `Layout`: `n` fits in
/// a `usize` and the buffer's size in bytes does not exceed `isize::MAX`.
pub open spec fn can_hold<T>(n: int) -> bool {
    &&& 0 <= n <= usize::MAX
    &&& n * size_of::<T>() <= isize::MAX
}

/// Whether `T` is a zero-sized type.
pub open spec fn zero_sized<T>() -> bool {
    size_of::<T>() == 0
}

/// The layout that `Layout::array` gives for `n` values of a type whose size
/// is `size` bytes and whose alignment is `align`.
pub uninterp spec fn array_layout_of(size: nat, align: nat, n: nat) -> Layout;

/// The layout of an array of `n` values of `T`.
pub open spec fn array_layout_for<T>(n: int) -> Layout {
    array_layout_of(size_of::<T>(), align_of::<T>(), n as nat)
}

/// `Layout::array::<T>(n)`. Its documentation: it fails on arithmetic
/// overflow or when the total size would exceed `isize::MAX`; otherwise it
/// describes `[T; n]`, which depends on the size and alignment of `T` and on
/// `n` alone. What that layout holds is not stated beyond its name.
#[verifier::external_body]
fn layout_for_array<T>(n: usize) -> (r: Option<Layout>)
    ensures
        r is Some <==> n * size_of::<T>() <= isize::MAX,
        r matches Some(l) ==> l == array_layout_of(size_of::<T>(), align_of::<T>(), n as nat),
{
    Layout::array::<T>(n).ok()
}

/// The layout of a buffer of `n` values of `T`, for a buffer that fits.
pub(crate) fn array_layout<T>(n: usize) -> (r: Layout)
    requires
        can_hold::<T>(n as int),
    ensures
        r == array_layout_for::<T>(n as int),
{
    layout_for_array::<T>(n).unwrap()
}

/// An error indicating allocation failure, with the `Layout` that was
/// requested. An error made from a refused request also carries the evidence
/// of it; errors compare by their layouts alone.
#[derive(Copy, Clone, PartialEq, Eq, Debug)]
pub struct AllocErrorWithLayout {
    layout: Layout,
    refusal: Refusal,
}

impl AllocErrorWithLayout {
    /// The layout whose allocation failed.
    pub closed spec fn requested(&self) -> Layout {
        self.layout
    }

    /// For an error that comes from a request the global allocator refused,
    /// the number of values whose room was refused; `None` for an error
    /// made from a layout alone.
    pub closed spec fn refused_count(&self) -> Option<usize> {
        self.refusal.refused_count()
    }

    /// The error for a request that the global allocator refused, which
    /// asked for `layout`.
    pub(crate) fn refused(layout: Layout, refusal: Refusal) -> (r: Self)
        ensures
            r.requested() == layout,
            r.refused_count() == refusal.refused_count(),
    {
        AllocErrorWithLayout { layout, refusal }
    }

    /// The layout whose allocation failed.
    pub fn layout(&self) -> (r: Layout)
        ensures
            r == self.requested(),
    {
        self.layout
    }
}

/// `e` reports that the global allocator refused room for `n` values of
/// `T`: it names the layout of those values, and it comes from a request for
/// exactly that room, which was made and refused.
pub open spec fn refused_for<T>(e: AllocErrorWithLayout, n: int) -> bool {
    &&& e.requested() == array_layout_for::<T>(n)
    &&& e.refused_count() == Some(n as usize)
}

impl From<Layout> for AllocErrorWithLayout {
    fn from(layout: Layout) -> (r: Self)
        ensures
            r.requested() == layout,
            r.refused_count() is None,
    {
        AllocErrorWithLayout { layout, refusal: Refusal::none() }
    }
}

impl vstd::std_specs::convert::FromSpecImpl<Layout> for AllocErrorWithLayout {
    open spec fn obeys_from_spec() -> bool {
        true
    }

    closed spec fn from_spec(v: Layout) -> Self {
        AllocErrorWithLayout { layout: v, refusal: Refusal::no_refusal() }
    }
}

/// A `Result` representing an allocation.
pub type AllocResult<T> = Result<T, AllocErrorWithLayout>;

} // verus!
