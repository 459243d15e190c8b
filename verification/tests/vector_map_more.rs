use allocated::vector_map::{AllocatedVectorMap, Entry, VectorMap};
use allocated::vec::AllocatedVec;

#[test]
fn map_doc_example() {
    let mut map = VectorMap::new();
    map.insert("key", 42);
    assert_eq!(map.get(&"key"), Some(&42));
    assert_eq!(map.len(), 1);
    assert_eq!(map.insert("key", 100), Some(42));
    assert_eq!(map.get(&"key"), Some(&100));
}

#[test]
fn map_remove_undoes_insert() {
    let mut m: VectorMap<u32, char> = VectorMap::new();
    m.insert(3, 'c');
    m.insert(1, 'a');
    m.insert(2, 'b');
    assert_eq!(m.remove(2), Some('b'));
    let mut keys = Vec::new();
    let mut it = m.keys();
    while let Some(&k) = it.next() {
        keys.push(k);
    }
    assert_eq!(keys, vec![1, 3]);
    assert_eq!(m.get(&2), None);
}

#[test]
fn map_reserve_and_shrink() {
    let mut m: VectorMap<u64, u64> = VectorMap::new();
    m.reserve(3);
    assert_eq!(m.capacity(), 3);
    m.insert(1, 1);
    m.insert(2, 4);
    m.shrink_to_fit();
    assert_eq!(m.capacity(), 2);
    assert_eq!(m.get(&2), Some(&4));
}

#[test]
fn map_entry_occupied_operations() {
    let mut raw: AllocatedVectorMap<u32, u32> = AllocatedVectorMap::new_in().unwrap();
    raw.insert_in(5, 50).unwrap();
    raw.insert_in(7, 70).unwrap();
    match raw.entry_in(7) {
        Entry::Occupied(mut e) => {
            assert_eq!(*e.get(), 70);
            *e.get_mut() += 1;
            assert_eq!(e.remove_entry(), (7, 71));
        },
        Entry::Vacant(_) => panic!("7 is present"),
    }
    match raw.entry_in(6) {
        Entry::Vacant(e) => {
            *e.insert(60) += 1;
        },
        Entry::Occupied(_) => panic!("6 is absent"),
    }
    assert_eq!(raw.get(&6), Some(&61));
    assert_eq!(raw.len(), 2);
    assert_eq!(*raw.index(&5), 50);
}

#[test]
fn allocated_map_constructors() {
    let m = AllocatedVectorMap::one_in(1u8, "one").unwrap();
    assert_eq!(m.get(&1), Some(&"one"));
    assert_eq!(m.capacity(), 1);

    let keys = AllocatedVec::from_iter_in(vec![1u32, 4, 9]).unwrap();
    let values = AllocatedVec::from_iter_in(vec![1u32, 2, 3]).unwrap();
    let mut z = AllocatedVectorMap::zip(keys, values);
    assert_eq!(z.get(&4), Some(&2));
    z.extend_with_parts(vec![16, 25], vec![4, 5]).unwrap();
    assert_eq!(z.len(), 5);
    assert_eq!(z.get(&25), Some(&5));
    z.reserve_in(10);
    assert_eq!(z.capacity(), 15);
    z.shrink_to_fit_in().unwrap();
    assert_eq!(z.capacity(), 5);

    let w: AllocatedVectorMap<u32, u32> = AllocatedVectorMap::with_capacity_in(8).unwrap();
    assert_eq!(w.capacity(), 8);
    assert!(w.is_empty());
}

#[test]
fn allocated_map_insert_in_replaces_value_keeps_key() {
    let mut m: AllocatedVectorMap<u32, u32> = AllocatedVectorMap::new_in().unwrap();
    assert_eq!(m.insert_in(2, 20).unwrap(), None);
    assert_eq!(m.insert_in(2, 21).unwrap(), Some(20));
    assert_eq!(m.len(), 1);
    assert_eq!(m.first(), Some((&2, &21)));
    let mut it = m.values();
    assert_eq!(it.size_hint(), (1, Some(1)));
    assert_eq!(it.next_back(), Some(&21));
    assert_eq!(it.next(), None);
}

#[test]
fn map_bind_takes_an_allocated_map() {
    let mut raw: AllocatedVectorMap<u32, u32> = AllocatedVectorMap::new_in().unwrap();
    raw.insert_in(1, 2).unwrap();
    let m = VectorMap::bind(raw);
    assert_eq!(m.get(&1), Some(&2));
}

#[test]
fn map_insert_into_room_or_present_key_keeps_capacity() {
    let mut m: VectorMap<u32, u32> = VectorMap::with_capacity_in(2).unwrap();
    m.insert(1, 1);
    m.insert(2, 2);
    assert_eq!(m.capacity(), 2);
    assert_eq!(m.insert(2, 3), Some(2));
    assert_eq!(m.capacity(), 2);
    m.insert(3, 3);
    assert_eq!(m.capacity(), 4);
}

#[test]
fn map_mutable_iterators_from_both_ends() {
    let mut m: VectorMap<u32, u32> = VectorMap::new();
    assert_eq!(m.insert(3, 30), None);
    assert_eq!(m.insert(1, 10), None);
    assert_eq!(m.insert(2, 20), None);

    let mut it = m.values_mut();
    assert_eq!(it.size_hint(), (3, Some(3)));
    *it.next_back().unwrap() += 3;
    *it.next().unwrap() += 1;
    assert_eq!(it.size_hint(), (1, Some(1)));
    *it.next_back().unwrap() += 2;
    assert!(it.next().is_none());
    assert!(it.next_back().is_none());
    assert_eq!(m.get(&1), Some(&11));
    assert_eq!(m.get(&2), Some(&22));
    assert_eq!(m.get(&3), Some(&33));

    let mut it = m.iter_mut();
    let (k, v) = it.next_back().unwrap();
    assert_eq!(*k, 3);
    *v = 0;
    let (k, _) = it.next().unwrap();
    assert_eq!(*k, 1);
    assert_eq!(m.get(&3), Some(&0));
}

#[test]
fn new_maps_start_without_room_unless_zero_sized() {
    let m: AllocatedVectorMap<u32, u64> = AllocatedVectorMap::new_in().unwrap();
    assert_eq!(m.capacity(), 0);
    let n: VectorMap<u32, u64> = VectorMap::new();
    assert_eq!(n.capacity(), 0);
    let z: VectorMap<(), ()> = VectorMap::new();
    assert_eq!(z.capacity(), usize::MAX);
}

#[test]
fn allocated_map_insert_in_with_room_succeeds() {
    let mut m: AllocatedVectorMap<u32, u32> = AllocatedVectorMap::with_capacity_in(2).unwrap();
    assert_eq!(m.insert_in(5, 50).unwrap(), None);
    assert_eq!(m.insert_in(1, 10).unwrap(), None);
    assert_eq!(m.capacity(), 2);
    assert_eq!(m.insert_in(1, 11).unwrap(), Some(10));
    assert_eq!(m.get(&1), Some(&11));
}
