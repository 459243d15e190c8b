use allocated::is_sorted;
use allocated::sorted_vec::{AllocatedSortedVec, SortedVec};
use allocated::vec::AllocatedVec;

#[test]
fn sorted_vec_keeps_order() {
    let mut v = SortedVec::new();
    assert!(v.insert(3));
    assert!(v.insert(1));
    assert!(v.insert(2));
    assert_eq!(v.as_slice(), &[1, 2, 3]);
}

#[test]
fn sorted_vec_rejects_duplicates() {
    let mut v = SortedVec::new();
    assert!(v.insert(5));
    assert!(!v.insert(5));
    assert_eq!(v.len(), 1);
}

#[test]
fn sorted_vec_contains_get_remove() {
    let mut v: SortedVec<i64> = SortedVec::default();
    for x in [10, -4, 7, 0] {
        v.insert(x);
    }
    assert!(v.contains(&7));
    assert!(!v.contains(&8));
    assert_eq!(v.get(&-4), Some(&-4));
    assert_eq!(v.get(&3), None);
    assert!(v.remove(&7));
    assert!(!v.remove(&7));
    assert!(!v.contains(&7));
    assert_eq!(v.as_slice(), &[-4, 0, 10]);
    assert_eq!(v.pop(), Some(10));
    assert_eq!(v.as_slice(), &[-4, 0]);
}

#[test]
fn sorted_vec_remove_undoes_insert() {
    let mut v = SortedVec::new();
    v.insert(1u8);
    v.insert(9u8);
    v.insert(5u8);
    assert!(v.remove(&5));
    assert_eq!(v.as_slice(), &[1, 9]);
}

#[test]
fn allocated_sorted_vec_from_sorted_vec() {
    let mut raw: AllocatedVec<u32> = AllocatedVec::new_in().unwrap();
    raw.extend_in(vec![1, 3, 3, 8]).unwrap();
    assert!(is_sorted(raw.as_slice()));
    let mut s = AllocatedSortedVec::from_vec(raw);
    assert_eq!(s.insert_in(3), Ok(false));
    assert_eq!(s.insert_in(4), Ok(true));
    assert_eq!(s.as_slice(), &[1, 3, 3, 4, 8]);
    assert!(s.remove(&3));
    assert_eq!(s.as_slice(), &[1, 3, 4, 8]);
}

#[test]
fn allocated_sorted_vec_one_in() {
    let s = AllocatedSortedVec::one_in(42u64).unwrap();
    assert_eq!(s.as_slice(), &[42]);
}

#[test]
fn is_sorted_checks_adjacent_pairs() {
    assert!(is_sorted::<u32>(&[]));
    assert!(is_sorted(&[1]));
    assert!(is_sorted(&[1, 1, 2, 5]));
    assert!(!is_sorted(&[1, 3, 2]));
    assert!(!is_sorted(&[2, 1]));
}

#[test]
fn allocated_sorted_vec_insert_in_with_room_succeeds() {
    let raw: AllocatedVec<u32> = AllocatedVec::try_with_capacity_in(3).unwrap();
    let mut s = AllocatedSortedVec::from_vec(raw);
    assert_eq!(s.insert_in(7).unwrap(), true);
    assert_eq!(s.insert_in(3).unwrap(), true);
    assert_eq!(s.insert_in(7).unwrap(), false);
    assert_eq!(s.len(), 2);
}
