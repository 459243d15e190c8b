//! Sorted dynamic arrays.

pub mod allocated;
pub mod owned;

pub use allocated::AllocatedSortedVec;
pub use owned::SortedVec;
