use kernel_alloc::hashmap::{HashKey, HashMap, SimpleHasher};

#[test]
fn map_new_is_empty() {
    let m: HashMap<u64, u32> = HashMap::new();
    assert_eq!(m.size, 0);
    assert_eq!(m.items.len(), 16);
    assert!(m.iter().is_empty());
}

#[test]
fn map_insert_and_iter() {
    let mut m: HashMap<u64, u32> = HashMap::new();
    for k in 0..20u64 {
        m.insert(k, (k * 10) as u32);
    }
    assert_eq!(m.size, 20);
    let pairs = m.iter();
    assert_eq!(pairs.len(), 20);
    let mut seen = vec![false; 20];
    for (k, v) in pairs {
        assert_eq!(*v, (*k * 10) as u32);
        assert!(!seen[*k as usize]);
        seen[*k as usize] = true;
    }
    assert!(seen.iter().all(|&b| b));
}

#[test]
fn map_insert_replaces_in_place() {
    let mut m: HashMap<u64, u32> = HashMap::new();
    m.insert(7, 1);
    m.insert(7, 2);
    let pairs = m.iter();
    assert_eq!(pairs.len(), 1);
    assert_eq!(*pairs[0].0, 7);
    assert_eq!(*pairs[0].1, 2);
    assert_eq!(m.size, 1);
}

#[test]
fn map_resize_doubles_at_three_quarters_load() {
    let mut m: HashMap<u64, u32> = HashMap::with_capacity(4, 0);
    m.insert(1, 0);
    m.insert(2, 0);
    m.insert(3, 0);
    // Below three-quarters load the bucket array is untouched.
    assert_eq!(m.items.len(), 4);
    // The next insert sees size * 4 >= buckets * 3 and doubles first.
    m.insert(4, 0);
    assert_eq!(m.items.len(), 8);
}

#[test]
fn map_resize_keeps_entries() {
    let mut m: HashMap<u64, u64> = HashMap::with_capacity(2, 99);
    for k in 0..100u64 {
        m.insert(k, k + 1);
    }
    // The table doubled along the way and every pair survived the moves.
    assert!(m.items.len() > 2);
    assert_eq!(m.size, 100);
    let pairs = m.iter();
    assert_eq!(pairs.len(), 100);
    for (k, v) in pairs {
        assert_eq!(*v, *k + 1);
    }
}

#[test]
fn hasher_is_deterministic_and_incremental() {
    let mut h1 = SimpleHasher(5);
    h1.write(&[1, 2, 3]);
    let mut h2 = SimpleHasher(5);
    h2.write_byte(1);
    h2.write_byte(2);
    h2.write_byte(3);
    assert_eq!(h1.0, h2.0);
    assert_eq!(h1.finish(), h2.finish());
    // Each absorption step is a bijection of the state, so two salts
    // never collide on the running state.
    let mut h3 = SimpleHasher(6);
    h3.write(&[1, 2, 3]);
    assert_ne!(h1.0, h3.0);
}

#[test]
fn u64_feed_matches_its_le_bytes() {
    let mut h1 = SimpleHasher(0);
    0x0123456789abcdefu64.feed(&mut h1);
    let mut h2 = SimpleHasher(0);
    h2.write(&[0xef, 0xcd, 0xab, 0x89, 0x67, 0x45, 0x23, 0x01]);
    assert_eq!(h1.0, h2.0);
}
