//! Maps kept as parallel sorted arrays of keys and values.

pub mod allocated;
pub mod entry;
pub mod iter;
pub mod model;
pub mod owned;

pub use allocated::AllocatedVectorMap;
pub use entry::{Entry, OccupiedEntry, VacantEntry};
pub use iter::{Iter, IterMut, Keys, Values, ValuesMut};
pub use owned::VectorMap;
