use melkkipdf::cache::LruCache;

#[test]
fn evicts_least_recently_used() {
    let mut cache: LruCache<i32, i32> = LruCache::new(2);
    cache.put(1, 10);
    cache.put(2, 20);

    // Touch key 1 so key 2 becomes the least-recently-used entry.
    assert_eq!(cache.get(&1), Some(10));

    // Inserting a third entry must evict key 2, not the just-touched key 1.
    cache.put(3, 30);
    assert_eq!(cache.get(&2), None);
    assert_eq!(cache.get(&1), Some(10));
    assert_eq!(cache.get(&3), Some(30));
}

#[test]
fn overwrites_existing_key_without_growing() {
    let mut cache: LruCache<i32, i32> = LruCache::new(2);
    cache.put(1, 10);
    cache.put(1, 11);
    assert_eq!(cache.get(&1), Some(11));
    assert_eq!(cache.entries.len(), 1);
}

#[test]
fn a_full_cache_keeps_its_capacity() {
    let mut cache: LruCache<i32, &str> = LruCache::new(3);
    for key in 0..10 {
        cache.put(key, "page");
        assert!(cache.entries.len() <= 3);
        // What was just put can be read back.
        assert_eq!(cache.get(&key), Some("page"));
    }
    // Only the last three are left.
    assert_eq!(cache.get(&6), None);
    assert_eq!(cache.get(&7), Some("page"));
    assert_eq!(cache.get(&9), Some("page"));
}

#[test]
fn a_cache_for_nothing_keeps_nothing() {
    let mut cache: LruCache<i32, i32> = LruCache::new(0);
    cache.put(1, 10);
    assert_eq!(cache.get(&1), None);
    assert_eq!(cache.entries.len(), 0);
}

#[test]
fn looking_up_a_missing_key_changes_no_entry() {
    let mut cache: LruCache<i32, i32> = LruCache::new(2);
    cache.put(1, 10);
    assert_eq!(cache.get(&5), None);
    assert_eq!(cache.entries.len(), 1);
    assert_eq!(cache.tick, 2);
}

#[test]
fn the_order_of_use_decides_what_goes() {
    let mut cache: LruCache<i32, i32> = LruCache::new(3);
    for key in [1, 2, 3] {
        cache.put(key, 10 * key);
    }
    // From oldest to newest: 1, 2, 3; then 2, 3, 1; a miss changes nothing.
    assert_eq!(cache.get(&1), Some(10));
    assert_eq!(cache.get(&8), None);
    cache.put(4, 40);
    assert_eq!(cache.get(&2), None);
    // Overwriting 3 makes it the newest: 1, 4, 3.
    cache.put(3, 33);
    cache.put(5, 50);
    assert_eq!(cache.get(&1), None);
    assert_eq!(cache.get(&4), Some(40));
    assert_eq!(cache.get(&3), Some(33));
    assert_eq!(cache.get(&5), Some(50));
}
