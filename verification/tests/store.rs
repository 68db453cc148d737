use std::time::{Duration, Instant};

use turbine::store::{pick_oldest, CacheConfig, ResponseCache};

const MS: u128 = 1_000_000;

fn wait(ms: u64) {
    let start = Instant::now();
    while start.elapsed() < Duration::from_millis(ms) {}
}

#[test]
fn put_and_get() {
    let mut cache = ResponseCache::default();
    let source = b"<?php echo 'hello';";
    let hash = ResponseCache::hash_source(source);
    cache.put("GET", "/index.php", hash, 200, "text/html", b"hello");
    let hit = cache.get("GET", "/index.php", hash);
    assert!(hit.is_some());
    assert_eq!(hit.unwrap().body, b"hello");
}

#[test]
fn miss_on_empty() {
    let mut cache = ResponseCache::default();
    assert!(cache.get("GET", "/nope", 0).is_none());
}

#[test]
fn invalidate_on_source_change() {
    let mut cache = ResponseCache::default();
    let old_hash = ResponseCache::hash_source(b"<?php echo 'v1';");
    let new_hash = ResponseCache::hash_source(b"<?php echo 'v2';");
    cache.put("GET", "/test.php", old_hash, 200, "text/html", b"v1");
    assert!(cache.get("GET", "/test.php", old_hash).is_some());
    assert!(cache.get("GET", "/test.php", new_hash).is_none());
}

#[test]
fn ttl_expiration() {
    let config = CacheConfig { ttl_ms: 50, ..Default::default() };
    let mut cache = ResponseCache::new(config);
    let hash = ResponseCache::hash_source(b"test");
    cache.put("GET", "/", hash, 200, "text/html", b"cached");
    assert!(cache.get("GET", "/", hash).is_some());
    wait(60);
    assert!(cache.get("GET", "/", hash).is_none());
}

#[test]
fn only_caches_get_200() {
    let mut cache = ResponseCache::default();
    let hash = ResponseCache::hash_source(b"test");
    cache.put("POST", "/api", hash, 200, "application/json", b"{}");
    assert!(cache.get("POST", "/api", hash).is_none());
    cache.put("GET", "/err", hash, 500, "text/plain", b"error");
    assert!(cache.get("GET", "/err", hash).is_none());
}

#[test]
fn explicit_invalidate() {
    let mut cache = ResponseCache::default();
    let hash = ResponseCache::hash_source(b"test");
    cache.put("GET", "/page", hash, 200, "text/html", b"content");
    assert!(cache.get("GET", "/page", hash).is_some());
    cache.invalidate("/page");
    assert!(cache.get("GET", "/page", hash).is_none());
}

#[test]
fn purge_expired_entries() {
    let config = CacheConfig { ttl_ms: 20, ..Default::default() };
    let mut cache = ResponseCache::new(config);
    let hash = ResponseCache::hash_source(b"test");
    cache.put("GET", "/a", hash, 200, "text/html", b"a");
    cache.put("GET", "/b", hash, 200, "text/html", b"b");
    assert_eq!(cache.len(), 2);
    wait(30);
    let purged = cache.purge_expired();
    assert_eq!(purged, 2);
    assert_eq!(cache.len(), 0);
}

#[test]
fn eviction_at_capacity() {
    let config = CacheConfig { max_entries: 2, ..Default::default() };
    let mut cache = ResponseCache::new(config);
    let hash = ResponseCache::hash_source(b"test");
    cache.put("GET", "/1", hash, 200, "text/html", b"1");
    wait(5);
    cache.put("GET", "/2", hash, 200, "text/html", b"2");
    wait(5);
    cache.put("GET", "/3", hash, 200, "text/html", b"3");
    assert_eq!(cache.len(), 2);
    assert!(cache.get("GET", "/1", hash).is_none());
}

#[test]
fn disabled_cache_is_noop() {
    let config = CacheConfig { enabled: false, ..Default::default() };
    let mut cache = ResponseCache::new(config);
    let hash = ResponseCache::hash_source(b"test");
    cache.put("GET", "/", hash, 200, "text/html", b"data");
    assert!(cache.get("GET", "/", hash).is_none());
    assert_eq!(cache.len(), 0);
}

// ───── further cases ─────

#[test]
fn hash_source_is_xxh3() {
    assert_eq!(ResponseCache::hash_source(b""), 0x2D06_8005_38D3_94C2);
    assert_ne!(ResponseCache::hash_source(b"a"), ResponseCache::hash_source(b"b"));
}

#[test]
fn aged_lookup_is_exact() {
    let config = CacheConfig { ttl_ms: 50, ..Default::default() };
    let mut cache = ResponseCache::new(config);
    cache.put("GET", "/x", 7, 200, "text/plain", b"x");
    let hit = cache.get_aged("GET", "/x", 7, 49 * MS).unwrap();
    assert_eq!(hit.status, 200);
    assert_eq!(hit.content_type, "text/plain");
    assert_eq!(hit.remaining_ttl_secs_at(0), 0);
    assert!(hit.is_valid_at(7, 0));
    assert!(!hit.is_valid_at(8, 0));
    assert!(!hit.is_valid_at(7, 50 * MS));
    assert!(cache.get_aged("GET", "/x", 7, 50 * MS).is_none());
    assert!(cache.is_empty());
}

#[test]
fn remaining_seconds_round_down() {
    let mut cache = ResponseCache::new(CacheConfig { ttl_ms: 2000, ..Default::default() });
    cache.put("GET", "/r", 1, 200, "text/plain", b"r");
    let hit = cache.get_aged("GET", "/r", 1, 0).unwrap();
    assert_eq!(hit.remaining_ttl_secs_at(0), 2);
    assert_eq!(hit.remaining_ttl_secs_at(1), 1);
    assert_eq!(hit.remaining_ttl_secs_at(3000 * MS), 0);
}

#[test]
fn clear_empties() {
    let mut cache = ResponseCache::default();
    cache.put("GET", "/a", 1, 200, "t", b"a");
    cache.clear();
    assert!(cache.is_empty());
    assert!(cache.is_enabled());
}

#[test]
fn pick_oldest_cases() {
    assert_eq!(pick_oldest(&[], 5), None);
    assert_eq!(pick_oldest(&[5, 7], 5), None);
    assert_eq!(pick_oldest(&[3, 1, 1, 4], 5), Some(1));
    assert_eq!(pick_oldest(&[3, 1], 1), None);
}

#[test]
fn full_cache_evicts_the_earliest_made() {
    let mut cache = ResponseCache::new(CacheConfig { max_entries: 2, ..Default::default() });
    cache.put_at("GET", "/a", 1, 200, "t", b"a", 10);
    cache.put_at("GET", "/b", 1, 200, "t", b"b", 5);
    cache.put_at("GET", "/c", 1, 200, "t", b"c", 20);
    assert_eq!(cache.len(), 2);
    assert!(cache.get_aged("GET", "/b", 1, 0).is_none());
    assert_eq!(cache.get_aged("GET", "/a", 1, 0).unwrap().body, b"a".to_vec());
    assert_eq!(cache.get_aged("GET", "/c", 1, 0).unwrap().body, b"c".to_vec());
}

#[test]
fn purge_at_drops_exactly_the_expired() {
    let mut cache = ResponseCache::new(CacheConfig { ttl_ms: 10, ..Default::default() });
    cache.put_at("GET", "/old", 1, 200, "t", b"o", 0);
    cache.put_at("GET", "/new", 1, 200, "t", b"n", 5 * MS);
    assert_eq!(cache.purge_expired_at(12 * MS), 1);
    assert_eq!(cache.len(), 1);
    assert!(cache.get_aged("GET", "/new", 1, 0).is_some());
}
