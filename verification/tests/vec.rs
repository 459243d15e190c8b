use allocated::vec::{AllocatedVec, SliceExt, Vec};

#[test]
fn vec_push_pop_and_growth() {
    let mut v: Vec<u32> = Vec::new();
    assert_eq!(v.capacity(), 0);
    v.push(1);
    assert_eq!(v.capacity(), 1);
    v.push(2);
    assert_eq!(v.capacity(), 2);
    v.push(3);
    assert_eq!(v.capacity(), 4);
    assert_eq!(v.len(), 3);
    assert_eq!(v.as_slice(), &[1, 2, 3]);
    assert_eq!(v.pop(), Some(3));
    assert_eq!(v.as_slice(), &[1, 2]);
    assert_eq!(v.capacity(), 4);
}

#[test]
fn vec_pop_undoes_push() {
    let mut v: Vec<u32> = Vec::new();
    v.push(7);
    v.push(8);
    v.push(9);
    assert_eq!(v.pop(), Some(9));
    assert_eq!(v.as_slice(), &[7, 8]);
    let mut empty: Vec<u32> = Vec::new();
    assert_eq!(empty.pop(), None);
}

#[test]
fn vec_insert_remove() {
    let mut v: Vec<u32> = Vec::new();
    v.push(1);
    v.push(3);
    v.insert(1, 2);
    v.insert(3, 4);
    v.insert(0, 0);
    assert_eq!(v.as_slice(), &[0, 1, 2, 3, 4]);
    assert_eq!(v.remove(2), 2);
    assert_eq!(v.as_slice(), &[0, 1, 3, 4]);
}

#[test]
fn vec_reserve_policy() {
    let mut v: Vec<u8> = Vec::new();
    // An empty buffer reserves exactly what is asked.
    v.try_reserve(5);
    assert_eq!(v.capacity(), 5);
    // Enough room already: nothing changes, also when it is exactly enough.
    v.try_reserve(5);
    assert_eq!(v.capacity(), 5);
    v.push(1);
    // Doubling covers the need.
    v.try_reserve(6);
    assert_eq!(v.capacity(), 10);
    // The need exceeds doubling.
    v.try_reserve(30);
    assert_eq!(v.capacity(), 31);
    assert_eq!(v.as_slice(), &[1]);
}

#[test]
fn vec_extend_truncate_clear() {
    let mut v: Vec<u32> = Vec::new();
    v.extend(vec![1, 2, 3, 4]);
    assert_eq!(v.as_slice(), &[1, 2, 3, 4]);
    assert_eq!(v.capacity(), 4);
    v.truncate(10);
    assert_eq!(v.len(), 4);
    v.truncate(2);
    assert_eq!(v.as_slice(), &[1, 2]);
    v.clear();
    assert!(v.is_empty());
    assert_eq!(v.capacity(), 4);
}

#[test]
fn vec_shrink_to_fit() {
    let mut v: Vec<u32> = Vec::try_with_capacity_in(10).unwrap();
    v.push(1);
    v.push(2);
    assert_eq!(v.capacity(), 10);
    v.shrink_to_fit();
    assert_eq!(v.capacity(), 2);
    assert_eq!(v.as_slice(), &[1, 2]);
}

#[test]
fn vec_drain_in_order() {
    let mut v: Vec<u32> = Vec::new();
    v.extend(vec![5, 6, 7]);
    let mut d = v.drain();
    assert!(v.is_empty());
    assert_eq!(d.size_hint(), (3, Some(3)));
    assert_eq!(d.next(), Some(5));
    assert_eq!(d.next_back(), Some(7));
    assert_eq!(d.next(), Some(6));
    assert_eq!(d.next(), None);
    assert_eq!(d.next_back(), None);
}

#[test]
fn vec_zero_sized_never_allocates() {
    let mut v: Vec<()> = Vec::new();
    assert_eq!(v.capacity(), usize::MAX);
    v.push(());
    v.push(());
    assert_eq!(v.len(), 2);
    assert_eq!(v.capacity(), usize::MAX);
    let w: Vec<()> = Vec::try_with_capacity_in(3).unwrap();
    assert_eq!(w.capacity(), usize::MAX);
}

#[test]
fn vec_default_is_empty() {
    let v: Vec<u64> = Vec::default();
    assert!(v.is_empty());
    assert_eq!(v.capacity(), 0);
}

#[test]
fn slice_to_allocated_vec_clones() {
    let items = [String::from("a"), String::from("b")];
    let v = items[..].to_allocated_vec();
    assert_eq!(v.len(), 2);
    assert_eq!(v.as_slice(), &items[..]);
}

#[test]
fn allocated_vec_push_in_and_into_iter() {
    let mut v: AllocatedVec<u32> = AllocatedVec::new_in().unwrap();
    v.push_in(1).unwrap();
    v.push_in(2).unwrap();
    v.insert_in(0, 0).unwrap();
    assert_eq!(v.as_slice(), &[0, 1, 2]);
    assert_eq!(*v.get(1), 1);
    *v.get_mut(1) = 10;
    let mut it = v.into_iter();
    assert_eq!(it.size_hint(), (3, Some(3)));
    assert_eq!(it.next_back(), Some(2));
    assert_eq!(it.next(), Some(0));
    assert_eq!(it.next(), Some(10));
    assert_eq!(it.next(), None);
}

#[test]
fn allocated_vec_reserve_in_and_extend_in() {
    let mut v: AllocatedVec<u16> = AllocatedVec::try_with_capacity_in(2).unwrap();
    v.try_reserve_in(2).unwrap();
    assert_eq!(v.capacity(), 2);
    v.extend_in(vec![1, 2, 3]).unwrap();
    assert_eq!(v.capacity(), 4);
    assert_eq!(v.as_slice(), &[1, 2, 3]);
    v.shrink_to_fit_in().unwrap();
    assert_eq!(v.capacity(), 3);
    let w = AllocatedVec::from_iter_in(vec![9u16, 8]).unwrap();
    assert_eq!(w.as_slice(), &[9, 8]);
    assert_eq!(w.capacity(), 2);
}

#[test]
fn allocated_vec_reports_failed_allocation() {
    // No allocator can give this many bytes.
    let n = isize::MAX as usize / 2;
    let r = AllocatedVec::<u16>::try_with_capacity_in(n);
    let e = match r {
        Ok(_) => panic!("the allocation cannot succeed"),
        Err(e) => e,
    };
    assert_eq!(e.layout().size(), n * 2);
    assert_eq!(e.layout().align(), 2);

    let mut v: AllocatedVec<u16> = AllocatedVec::new_in().unwrap();
    v.push_in(1).unwrap();
    let r = v.try_reserve_in(n / 2);
    assert!(r.is_err());
    assert_eq!(v.as_slice(), &[1]);
    assert_eq!(v.capacity(), 1);
    let r = v.extend_in(Vec::<u16>::new().as_slice().to_vec());
    assert!(r.is_ok());
}

#[test]
fn vec_equality_is_pairwise() {
    let mut a: Vec<u32> = Vec::new();
    let mut b: Vec<u32> = Vec::try_with_capacity_in(8).unwrap();
    a.extend(vec![1, 2]);
    b.extend(vec![1, 2]);
    assert!(a == b);
    b.push(3);
    assert!(a != b);
    a.push(4);
    assert!(a != b);
}

#[test]
fn vec_doc_example() {
    let mut v = Vec::new();
    v.push(1);
    v.push(2);
    v.push(3);
    assert_eq!(v.len(), 3);

    let mut v = Vec::new_in().unwrap();
    v.push("hello");
    assert_eq!(v.as_slice(), &["hello"]);
}

#[test]
fn vec_zero_sized_push_after_shrink() {
    let mut v: Vec<()> = Vec::new();
    v.shrink_to_fit();
    assert_eq!(v.capacity(), usize::MAX);
    v.push(());
    assert_eq!(v.len(), 1);
}

#[test]
fn allocated_vec_shrink_to_fit_in_keeps_values() {
    let mut v: AllocatedVec<std::string::String> = AllocatedVec::try_with_capacity_in(8).unwrap();
    v.push_in("a".to_string()).unwrap();
    v.push_in("bc".to_string()).unwrap();
    v.shrink_to_fit_in().unwrap();
    assert_eq!(v.capacity(), 2);
    assert_eq!(v.as_slice(), &["a".to_string(), "bc".to_string()]);
    v.clear();
    v.shrink_to_fit_in().unwrap();
    assert_eq!(v.capacity(), 0);
    assert!(v.is_empty());
}
