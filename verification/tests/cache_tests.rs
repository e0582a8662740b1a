use radio_api::cache::{CacheType, GenericCache, GenericCacheType, InProcessCache};

#[test]
fn cache_type_maps_onto_backend_kind() {
    assert!(matches!(GenericCacheType::from(CacheType::NoCache), GenericCacheType::NoCache));
    assert!(matches!(GenericCacheType::from(CacheType::BuiltIn), GenericCacheType::BuiltIn));
    assert!(matches!(GenericCacheType::from(CacheType::Redis), GenericCacheType::Redis));
    assert!(matches!(GenericCacheType::from(CacheType::Memcached), GenericCacheType::Memcached));
}

#[test]
fn in_process_cache_serves_fresh_entries() {
    let mut c = InProcessCache::new(60);
    c.set("k", "body", 100);
    assert_eq!(c.get("k", 100), Some("body".to_string()));
    assert_eq!(c.get("k", 159), Some("body".to_string()));
    assert_eq!(c.get("other", 100), None);
}

#[test]
fn in_process_cache_never_serves_past_expiry() {
    let mut c = InProcessCache::new(60);
    c.set("k", "body", 100);
    assert_eq!(c.get("k", 160), None);
    assert_eq!(c.get("k", 1000), None);
}

#[test]
fn cleanup_sweeps_expired_entries_and_keeps_fresh_ones() {
    let mut c = InProcessCache::new(60);
    c.set("old", "a", 100);
    c.set("new", "b", 150);
    c.cleanup(170);
    assert_eq!(c.get("old", 170), None);
    assert_eq!(c.get("new", 170), Some("b".to_string()));
}

#[test]
fn set_replaces_an_existing_entry() {
    let mut c = InProcessCache::new(60);
    c.set("k", "one", 100);
    c.set("k", "two", 110);
    assert_eq!(c.get("k", 120), Some("two".to_string()));
}

#[test]
fn absent_store_never_holds_anything() {
    let mut c = GenericCache::new(GenericCacheType::NoCache, String::new(), 60);
    c.set("k", "body", 100);
    assert_eq!(c.get("k", 100), None);
}

#[test]
fn built_in_store_round_trips() {
    let mut c = GenericCache::new(GenericCacheType::BuiltIn, String::new(), 60);
    c.set("k", "body", 100);
    assert_eq!(c.get("k", 101), Some("body".to_string()));
    c.cleanup(500);
    assert_eq!(c.get("k", 101), None);
}
