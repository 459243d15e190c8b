//! Dynamic arrays.

pub mod alloc_log;
pub mod allocated;
pub mod owned;
pub mod raw_vec;

pub use alloc_log::AllocLog;
pub use allocated::{AllocatedVec, Drain};
pub use owned::{SliceExt, Vec};
pub use raw_vec::{IntoIter, RawValIter, RawVec};
