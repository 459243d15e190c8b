# allocated

Dynamic arrays, sorted dynamic arrays and maps kept as sorted parallel arrays,
verified with Verus.

Each container comes in two forms. The `Allocated*` form reports allocation
failures to its caller as an `AllocResult`; the wrapper form aborts on them,
as the standard collections do. Capacities follow one policy throughout: a
full array grows to one slot, then doubles; reserving room grows to the larger
of twice the capacity and what is needed, and does nothing when the capacity
already suffices. A zero-sized type always has room for `usize::MAX` values.

Every container keeps its values in a `std::vec::Vec` on the global
allocator and asks it to reserve memory for the capacity the container
counts; how much memory that `Vec` actually holds is not part of any
contract. No
container takes an allocator: verified code can neither call through a bound
on `allocator_api2`'s `Allocator` trait nor hold the raw pointers it returns.
The `_in` methods keep their names but take no allocator; they are the forms
that report allocation failures.

- `src/vec/`: `RawVec` (a buffer and its capacity), `AllocatedVec` and `Vec`
  (dynamic arrays), and the iterators that move values out of them.
- `src/sorted_vec/`: `AllocatedSortedVec` and `SortedVec`, arrays kept in
  order and searched by bisection.
- `src/vector_map/`: `AllocatedVectorMap` and `VectorMap`, maps kept as two
  parallel arrays with strictly increasing keys; `model.rs` states the map
  they stand for, `entry.rs` and `iter.rs` hold entries and iterators.
- `src/order.rs`: comparisons of keys and the facts a lawful `Ord` gives.
- `src/counting.rs`, `src/tracking.rs`: counts of allocations, and the
  outstanding allocations by address, for allocators that observe what goes
  through them.
- `src/error.rs`: the allocation error and the layouts of arrays.
- `app/`: such allocators (`CountingAllocator`, `TrackingAllocator`, built on
  `Counter` and `Tracker`; they cannot be attached to the containers), typed
  raw-allocation helpers, and the error type with `Display`.

`tests/` exercises the library on concrete values.
