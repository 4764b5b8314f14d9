use sccache::store::LruStore;

fn bytes(n: usize, b: u8) -> Vec<u8> {
    vec![b; n]
}

#[test]
fn test_put_get_round_trip() {
    let mut store = LruStore::new(1024);
    let evicted = store.put("key1".to_string(), bytes(10, 1));
    assert!(evicted.is_empty());
    assert_eq!(Some(bytes(10, 1)), store.get(&"key1".to_string()));
    assert_eq!(None, store.get(&"other".to_string()));
    assert_eq!(10, store.current_size());
    assert_eq!(1024, store.max_size());
}

#[test]
fn test_put_twice_same_key() {
    // Idempotence: storing the same value twice leaves one entry that the
    // key still finds.
    let mut store = LruStore::new(1024);
    store.put("k".to_string(), bytes(8, 7));
    store.put("k".to_string(), bytes(8, 7));
    assert_eq!(1, store.len());
    assert_eq!(8, store.current_size());
    assert_eq!(Some(bytes(8, 7)), store.get(&"k".to_string()));
}

#[test]
fn test_put_replaces_value() {
    let mut store = LruStore::new(1024);
    store.put("k".to_string(), bytes(8, 1));
    store.put("k".to_string(), bytes(4, 2));
    assert_eq!(4, store.current_size());
    assert_eq!(Some(bytes(4, 2)), store.get(&"k".to_string()));
}

#[test]
fn test_eviction_is_least_recently_used() {
    let mut store = LruStore::new(20);
    store.put("a".to_string(), bytes(8, 1));
    store.put("b".to_string(), bytes(8, 2));
    // Touch `a`, so `b` is now the least recently used.
    assert!(store.get(&"a".to_string()).is_some());
    let evicted = store.put("c".to_string(), bytes(8, 3));
    assert_eq!(vec!["b".to_string()], evicted);
    assert!(store.get(&"a".to_string()).is_some());
    assert!(store.get(&"b".to_string()).is_none());
    assert!(store.get(&"c".to_string()).is_some());
    assert_eq!(16, store.current_size());
}

#[test]
fn test_size_bound_holds_after_any_puts() {
    let mut store = LruStore::new(32);
    let mut k: u32 = 0;
    for round in 0..50usize {
        store.put(format!("key{}", k), bytes(1 + (round * 7) % 13, round as u8));
        k += 1;
        assert!(store.current_size() <= store.max_size());
    }
}

#[test]
fn test_max_size_zero_always_misses() {
    let mut store = LruStore::new(0);
    for i in 0..5u8 {
        let evicted = store.put(format!("k{}", i), bytes(3, i));
        assert_eq!(vec![format!("k{}", i)], evicted);
        assert_eq!(None, store.get(&format!("k{}", i)));
        assert_eq!(0, store.current_size());
        assert_eq!(0, store.len());
    }
}

#[test]
fn test_oversized_value_evicts_itself() {
    let mut store = LruStore::new(10);
    store.put("small".to_string(), bytes(4, 1));
    let evicted = store.put("big".to_string(), bytes(11, 2));
    assert_eq!(vec!["small".to_string(), "big".to_string()], evicted);
    assert_eq!(0, store.current_size());
    assert_eq!(None, store.get(&"big".to_string()));
    assert_eq!(None, store.get(&"small".to_string()));
}
