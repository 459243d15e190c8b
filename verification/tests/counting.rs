use allocated::counting::Counter;
use allocated::tracking::Tracker;

// One `u8` allocated and then freed: one byte each way.
#[test]
fn _counting_allocator_test_allocate() {
    let mut c = Counter::default();
    c.allocate(std::mem::size_of::<u8>());
    c.deallocate(std::mem::size_of::<u8>());

    assert_eq!(c.net_allocations(), 0);
    assert_eq!(c.net_bytes_allocated(), 0);
    assert_eq!(c.n_allocations(), 1);
    assert_eq!(c.n_deallocations(), 1);
    assert_eq!(c.n_bytes_allocated(), 1);
    assert_eq!(c.n_bytes_deallocated(), 1);
}

// A buffer of 100 `u64` allocated and still held.
#[test]
fn _counting_allocator_test_vector() {
    let mut c = Counter::default();
    c.allocate(100 * std::mem::size_of::<u64>());

    assert_eq!(c.net_allocations(), 1);
    assert_eq!(c.net_bytes_allocated(), 800);
    assert_eq!(c.n_allocations(), 1);
    assert_eq!(c.n_deallocations(), 0);
    assert_eq!(c.n_bytes_allocated(), 800);
    assert_eq!(c.n_bytes_deallocated(), 0);
}

#[test]
fn counter_net_counts() {
    let mut c = Counter::new();
    c.allocate(800);
    c.allocate(16);
    c.deallocate(16);
    assert_eq!(c.net_allocations(), 1);
    assert_eq!(c.net_bytes_allocated(), 800);
}

// One byte allocated at an address and then freed: nothing is outstanding.
#[test]
fn _tracking_allocator_test_allocate() {
    let mut t: Tracker<&str> = Tracker::new();
    t.record_allocate(1, 0x1000, "here");
    t.record_deallocate(1, 0x1000);

    assert!(t.outstanding().is_empty());
}

// A buffer of 100 `u64` allocated and still held.
#[test]
fn _tracking_allocator_test_vector() {
    let mut t: Tracker<&str> = Tracker::new();
    t.record_allocate(100 * std::mem::size_of::<u64>(), 0x2000, "here");

    assert_eq!(t.outstanding().len(), 1);
}

#[test]
fn tracker_counts_zero_sized_allocations() {
    let mut t: Tracker<&str> = Tracker::new();
    t.record_allocate(8, 0x1000, "a");
    t.record_allocate(0, 0x2000, "zero");
    assert_eq!(t.outstanding().len(), 1);
    assert_eq!(t.zero_allocations(), 1);
    t.record_deallocate(8, 0x1000);
    t.record_deallocate(0, 0x2000);
    assert!(t.outstanding().is_empty());
    assert_eq!(t.zero_allocations(), 0);
}
