//! Dynamic arrays, sorted dynamic arrays and maps kept as sorted parallel
//! arrays, each in two forms. The `Allocated*` forms report a failed
//! allocation to the caller as an `AllocResult`; the wrapper forms (`Vec`,
//! `SortedVec`, `VectorMap`) abort on it, as the standard collections do.
//!
//! Every container keeps its values in a `std::vec::Vec` on the global
//! allocator. It keeps its own count of its capacity, grown and shrunk by the
//! policy of `vec::raw_vec`, and asks that `Vec` to reserve memory to match;
//! how much memory the `Vec` actually holds is not part of any contract.
//!
//! Every request for memory that a fallible operation makes goes through
//! `vec::alloc_log`, which records it with the answer in the buffer's
//! `AllocLog` and, for a refusal, hands back the evidence that an
//! `AllocErrorWithLayout` then carries. The fallible operations state, over
//! these records, that they ask for memory only when they need it and fail
//! exactly when a request they made was refused.
//!
//! No container takes an allocator: verified code can neither call through a
//! bound on the `allocator_api2::alloc::Allocator` trait nor hold the raw
//! pointers that allocator hands out. The `_in` methods keep their names but
//! take no allocator; they are the forms that report allocation failures.
//!
//! `Counter` and `Tracker` hold the bookkeeping of allocators that count or
//! track the allocations made through them; such allocators implement the
//! outside trait and so are built outside this library. They cannot be
//! attached to the containers.

pub mod counting;
pub mod error;
pub mod order;
pub mod sorted_vec;
pub mod tracking;
pub mod vec;
pub mod vector_map;

pub use counting::Counter;
pub use error::{AllocErrorWithLayout, AllocResult};
pub use order::{KeyOrder, compare_keys, is_sorted};
pub use sorted_vec::{AllocatedSortedVec, SortedVec};
pub use tracking::Tracker;
pub use vec::{AllocatedVec, SliceExt, Vec};
pub use vector_map::{AllocatedVectorMap, VectorMap};
