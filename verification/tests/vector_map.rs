use allocated::vector_map::VectorMap;
use allocated::AllocResult;

fn entries(m: &VectorMap<u32, u32>) -> Vec<(u32, u32)> {
    let mut out = Vec::new();
    let mut it = m.iter();
    while let Some((&k, &v)) = it.next() {
        out.push((k, v));
    }
    out
}

#[test]
fn test_new() -> AllocResult<()> {
    let m: VectorMap<u32, u32> = VectorMap::new();
    assert_eq!(m.len(), 0);
    assert!(m.is_empty());

    Ok(())
}

#[test]
fn test_insert() -> AllocResult<()> {
    let mut m: VectorMap<u32, u32> = VectorMap::new();

    assert_eq!(m.insert(10, 42), None);
    assert_eq!(m.insert(10, 54), Some(42));

    assert_eq!(m.insert(1, 42), None);
    assert_eq!(m.insert(2, 100), None);
    assert_eq!(m.insert(54, 2), None);

    assert_eq!(m.len(), 4);

    let c = m.capacity();
    m.clear();
    assert_eq!(m.len(), 0);
    assert_eq!(m.capacity(), c);
    assert!(m.is_empty());

    Ok(())
}

#[test]
fn test_iter() -> AllocResult<()> {
    let mut m: VectorMap<u32, u32> = VectorMap::new();

    assert_eq!(m.insert(10, 54), None);
    assert_eq!(m.insert(1, 42), None);
    assert_eq!(m.insert(2, 100), None);
    assert_eq!(m.insert(54, 2), None);

    assert_eq!(entries(&m), vec![(1, 42), (2, 100), (10, 54), (54, 2)]);

    Ok(())
}

#[test]
fn test_keys() -> AllocResult<()> {
    let mut m: VectorMap<u32, u32> = VectorMap::new();

    assert_eq!(m.insert(10, 54), None);
    assert_eq!(m.insert(1, 42), None);
    assert_eq!(m.insert(2, 100), None);
    assert_eq!(m.insert(54, 2), None);

    let mut keys = Vec::new();
    let mut it = m.keys();
    while let Some(&k) = it.next() {
        keys.push(k);
    }
    assert_eq!(keys, vec![1, 2, 10, 54]);

    Ok(())
}

#[test]
fn test_values() -> AllocResult<()> {
    let mut m: VectorMap<u32, u32> = VectorMap::new();

    assert_eq!(m.insert(10, 54), None);
    assert_eq!(m.insert(1, 42), None);
    assert_eq!(m.insert(2, 100), None);
    assert_eq!(m.insert(54, 2), None);

    let mut values = Vec::new();
    let mut it = m.values();
    while let Some(&v) = it.next() {
        values.push(v);
    }
    assert_eq!(values, vec![42, 100, 54, 2]);

    Ok(())
}

#[test]
fn test_remove() -> AllocResult<()> {
    let mut m: VectorMap<u32, u32> = VectorMap::new();

    assert_eq!(m.insert(10, 54), None);
    assert_eq!(m.insert(1, 42), None);
    assert_eq!(m.insert(2, 100), None);
    assert_eq!(m.remove(1), Some(42));
    assert_eq!(m.insert(54, 2), None);
    assert_eq!(m.remove(99), None);

    assert_eq!(entries(&m), vec![(2, 100), (10, 54), (54, 2)]);

    Ok(())
}

#[test]
fn test_iter_mut() -> AllocResult<()> {
    let mut m: VectorMap<u32, u32> = VectorMap::new();

    assert_eq!(m.insert(10, 54), None);
    assert_eq!(m.insert(1, 42), None);
    assert_eq!(m.insert(2, 100), None);
    assert_eq!(m.insert(54, 2), None);

    let mut it = m.iter_mut();
    while let Some((_k, v)) = it.next() {
        *v *= 2;
    }

    assert_eq!(entries(&m), vec![(1, 84), (2, 200), (10, 108), (54, 4)]);

    Ok(())
}

#[test]
fn test_values_mut() -> AllocResult<()> {
    let mut m: VectorMap<u32, u32> = VectorMap::new();

    assert_eq!(m.insert(10, 54), None);
    assert_eq!(m.insert(1, 42), None);
    assert_eq!(m.insert(2, 100), None);
    assert_eq!(m.insert(54, 2), None);

    let mut seen = Vec::new();
    let mut it = m.values_mut();
    while let Some(&mut v) = it.next() {
        seen.push(v);
    }
    assert_eq!(seen, vec![42, 100, 54, 2]);

    let mut it = m.values_mut();
    while let Some(v) = it.next() {
        *v *= 2;
    }

    assert_eq!(entries(&m), vec![(1, 84), (2, 200), (10, 108), (54, 4)]);

    Ok(())
}

#[test]
fn map_with_room_keeps_its_capacity() -> AllocResult<()> {
    // Room for four entries is made once, for the keys and for the values;
    // four insertions need no more.
    let mut m: VectorMap<u32, u32> = VectorMap::with_capacity_in(4)?;

    assert_eq!(m.insert(10, 54), None);
    assert_eq!(m.insert(1, 42), None);
    assert_eq!(m.insert(2, 100), None);
    assert_eq!(m.insert(54, 2), None);

    assert_eq!(m.capacity(), 4);

    Ok(())
}

#[test]
fn test_get() -> AllocResult<()> {
    let mut m: VectorMap<u32, u32> = VectorMap::new();

    assert_eq!(m.insert(10, 54), None);
    assert_eq!(m.insert(1, 42), None);
    assert_eq!(m.insert(2, 100), None);

    assert_eq!(m.get(&1), Some(&42));
    assert_eq!(m.get(&10), Some(&54));
    assert_eq!(m.get(&99), None);

    Ok(())
}

#[test]
fn test_get_mut() -> AllocResult<()> {
    let mut m: VectorMap<u32, u32> = VectorMap::new();

    assert_eq!(m.insert(10, 54), None);
    assert_eq!(m.insert(1, 42), None);

    if let Some(v) = m.get_mut(&10) {
        *v = 100;
    }

    assert_eq!(m.get(&10), Some(&100));
    assert_eq!(m.get_mut(&99), None);

    Ok(())
}

#[test]
fn test_contains_key() -> AllocResult<()> {
    let mut m: VectorMap<u32, u32> = VectorMap::new();

    assert_eq!(m.insert(10, 54), None);
    assert_eq!(m.insert(1, 42), None);

    assert!(m.contains_key(&10));
    assert!(m.contains_key(&1));
    assert!(!m.contains_key(&99));

    Ok(())
}

#[test]
fn test_entry() -> AllocResult<()> {
    let mut m: VectorMap<u32, u32> = VectorMap::new();

    m.entry(10).or_insert(54);
    m.entry(1).or_insert(42);

    assert_eq!(m.get(&10), Some(&54));
    assert_eq!(m.get(&1), Some(&42));

    *m.entry(10).or_insert(0) = 100;
    assert_eq!(m.get(&10), Some(&100));

    Ok(())
}

#[test]
fn test_first_and_pop() -> AllocResult<()> {
    let mut m: VectorMap<u32, u32> = VectorMap::new();

    assert_eq!(m.first(), None);
    assert_eq!(m.pop(), None);

    assert_eq!(m.insert(10, 54), None);
    assert_eq!(m.insert(1, 42), None);
    assert_eq!(m.insert(2, 100), None);

    // First returns the smallest key
    assert_eq!(m.first(), Some((&1, &42)));

    // Pop removes the largest key
    assert_eq!(m.pop(), Some((10, 54)));
    assert_eq!(m.len(), 2);
    assert_eq!(m.pop(), Some((2, 100)));
    assert_eq!(m.pop(), Some((1, 42)));
    assert_eq!(m.pop(), None);

    Ok(())
}
