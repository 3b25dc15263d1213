use blog_pipeline::Cache;

#[test]
fn test_cache_set_get() {
    let mut cache = Cache::new(60);
    cache.set("key1".to_string(), "value1".to_string(), 0);

    let value = cache.get("key1", 0).cloned();
    assert_eq!(value, Some("value1".to_string()));
}

#[test]
fn test_cache_expiration() {
    let mut cache = Cache::new(1);
    cache.set("key1".to_string(), "value1".to_string(), 100);

    assert!(cache.get("key1", 100).is_some());

    assert!(cache.get("key1", 102).is_none());
}

#[test]
fn test_cache_invalidate() {
    let mut cache = Cache::new(60);
    cache.set("key1".to_string(), "value1".to_string(), 0);

    assert!(cache.get("key1", 0).is_some());

    cache.invalidate("key1");

    assert!(cache.get("key1", 0).is_none());
}

#[test]
fn test_cache_clear() {
    let mut cache = Cache::new(60);
    cache.set("key1".to_string(), "value1".to_string(), 0);
    cache.set("key2".to_string(), "value2".to_string(), 0);

    assert_eq!(cache.size(), 2);

    cache.clear();

    assert_eq!(cache.size(), 0);
}

#[test]
fn cache_set_replaces_and_refreshes() {
    let mut cache = Cache::new(10);
    cache.set("k".to_string(), 1u32, 0);
    cache.set("k".to_string(), 2u32, 5);
    assert_eq!(cache.size(), 1);
    assert_eq!(cache.get("k", 14), Some(&2));
    assert_eq!(cache.get("k", 15), None);
}

#[test]
fn cache_cleanup_drops_only_stale_values() {
    let mut cache = Cache::new(10);
    cache.set("old".to_string(), 1u32, 0);
    cache.set("new".to_string(), 2u32, 8);
    cache.cleanup(10);
    assert_eq!(cache.size(), 1);
    assert_eq!(cache.get("new", 10), Some(&2));
    assert_eq!(cache.get("old", 0), None);
}
