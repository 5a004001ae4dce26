use middleguard::entry::CacheEntry;
use middleguard::middleware::{
    cache_error_body, generate_cache_key, handle_request, store_on_miss, CacheDecision,
};
use middleguard::router::{get_cache_type, is_beatmap_mutation_path, should_cache_route,
    should_never_cache, CacheType};
use middleguard::store::{CacheConfig, CacheStore};

fn no_headers() -> Vec<(Vec<u8>, Vec<u8>)> {
    Vec::new()
}

#[test]
fn router_resolves_the_four_buckets() {
    assert_eq!(get_cache_type(b"/api/beatmap/count"), Some(CacheType::GlobalStats));
    assert_eq!(get_cache_type(b"/api/beatmap"), Some(CacheType::FilteredQueries));
    assert_eq!(get_cache_type(b"/api/beatmapset/123"), Some(CacheType::IndividualBeatmaps));
    assert_eq!(
        get_cache_type(b"/api/pending_beatmap/status/9"),
        Some(CacheType::PendingStatus)
    );
    assert_eq!(get_cache_type(b"/api/scores"), None);
    assert_eq!(get_cache_type(b"/api/beatmap/filters"), None);
}

#[test]
fn router_only_caches_reads() {
    assert!(should_cache_route(true, b"/api/beatmap/count"));
    assert!(!should_cache_route(false, b"/api/beatmap/count"));
    assert!(!should_cache_route(true, b"/api/unknown"));
}

#[test]
fn never_cache_covers_random_and_health() {
    assert!(should_never_cache(b"/api/beatmapset/random"));
    assert!(should_never_cache(b"/health"));
    assert!(should_never_cache(b"/api/health/deep"));
    assert!(!should_never_cache(b"/api/beatmap/count"));
}

#[test]
fn mutation_paths_spare_reads() {
    assert!(is_beatmap_mutation_path(b"/api/beatmap/file"));
    assert!(!is_beatmap_mutation_path(b"/api/beatmap/get/list"));
    assert!(!is_beatmap_mutation_path(b"/api/scores"));
}

#[test]
fn cache_key_uses_bare_path_without_query() {
    assert_eq!(generate_cache_key(b"/api/beatmap", None), b"/api/beatmap".to_vec());
    assert_eq!(
        generate_cache_key(b"/api/beatmap", Some(b"page=2")),
        b"/api/beatmap?page=2".to_vec()
    );
    // Same path and same raw query derive the same key.
    assert_eq!(
        generate_cache_key(b"/api/beatmap", Some(b"a=1&b=2")),
        generate_cache_key(b"/api/beatmap", Some(b"a=1&b=2"))
    );
}

#[test]
fn cache_config_keeps_its_fields() {
    let c = CacheConfig::new(300, 1000);
    assert_eq!(c.ttl_seconds, 300);
    assert_eq!(c.max_capacity, 1000);
    assert!(c.enabled);
}

/// Cache idempotence: the second identical read is a HIT with the stored
/// body and status, and the inner handler ran exactly once.
#[test]
fn second_read_is_a_hit_and_handler_runs_once() {
    let mut store = CacheStore::new();
    let mut handler_calls = 0;
    let path: &[u8] = b"/api/beatmap/count";

    let d1 = handle_request(&mut store, true, path, None, 100);
    let (bucket, key) = match d1 {
        CacheDecision::Miss { bucket, key } => (bucket, key),
        _ => panic!("first read must be a miss"),
    };
    assert_eq!(bucket, CacheType::GlobalStats);
    // the inner handler runs only on a miss
    handler_calls += 1;
    let body = b"{\"total\":42}";
    assert!(store_on_miss(&mut store, bucket, key, 200, &no_headers(), body, 100));

    let d2 = handle_request(&mut store, true, path, None, 101);
    match d2 {
        CacheDecision::Hit { entry, age_secs } => {
            assert_eq!(entry.body, body.to_vec());
            assert_eq!(entry.status, 200);
            assert_eq!(age_secs, 1);
        }
        _ => panic!("second read must be a hit"),
    }
    assert_eq!(handler_calls, 1);

    let stats = store.get_stats();
    assert_eq!(stats.hits, 1);
    assert_eq!(stats.misses, 1);
    assert_eq!(stats.total_requests, 2);
    assert_eq!(stats.hit_rate_percent, 50);
}

/// Bucket isolation: filling one bucket past its capacity never evicts
/// entries from another bucket.
#[test]
fn capacity_pressure_stays_inside_one_bucket() {
    let mut store = CacheStore::new();

    // one entry in the pending-status bucket
    let pending_path: &[u8] = b"/api/pending_beatmap/status/7";
    match handle_request(&mut store, true, pending_path, None, 10) {
        CacheDecision::Miss { bucket, key } => {
            assert!(store_on_miss(&mut store, bucket, key, 200, &no_headers(), b"pending", 10));
        }
        _ => panic!("expected a miss"),
    }

    // push the global-stats bucket (capacity 10) well past its capacity
    for i in 0..30u32 {
        let entry = CacheEntry::snapshot(200, &no_headers(), b"x", 10).unwrap();
        store.insert(CacheType::GlobalStats, format!("k{}", i).into_bytes(), entry);
    }
    let stats = store.get_stats();
    assert_eq!(stats.global_stats_entries, 10);
    assert_eq!(stats.pending_status_entries, 1);

    // the pending entry is still served
    match handle_request(&mut store, true, pending_path, None, 11) {
        CacheDecision::Hit { entry, .. } => assert_eq!(entry.body, b"pending".to_vec()),
        _ => panic!("the other bucket lost its entry"),
    }
}

/// TTL expiry: an entry queried after its bucket's TTL elapses is treated
/// as absent and the read misses afresh.
#[test]
fn expired_entry_misses_again() {
    let mut store = CacheStore::new();
    let path: &[u8] = b"/api/pending_beatmap/status/3";

    match handle_request(&mut store, true, path, None, 1000) {
        CacheDecision::Miss { bucket, key } => {
            assert!(store_on_miss(&mut store, bucket, key, 200, &no_headers(), b"v1", 1000));
        }
        _ => panic!("expected a miss"),
    }
    // within the 30-second TTL: hit
    match handle_request(&mut store, true, path, None, 1029) {
        CacheDecision::Hit { entry, age_secs } => {
            assert_eq!(entry.body, b"v1".to_vec());
            assert_eq!(age_secs, 29);
        }
        _ => panic!("expected a hit within the TTL"),
    }
    // at the TTL: the entry is gone, the read misses and delegates again
    match handle_request(&mut store, true, path, None, 1030) {
        CacheDecision::Miss { .. } => {}
        _ => panic!("expected a fresh miss after expiry"),
    }
}

/// Invalidation scope: a mutating beatmap request clears the aggregate
/// buckets and leaves the entity buckets intact.
#[test]
fn mutation_clears_aggregates_only() {
    let mut store = CacheStore::new();
    let fills: [(&[u8], &[u8]); 4] = [
        (b"/api/beatmap/count", b"count"),
        (b"/api/beatmap", b"filtered"),
        (b"/api/beatmapset/5", b"set"),
        (b"/api/pending_beatmap/status/5", b"pending"),
    ];
    for (path, body) in fills {
        match handle_request(&mut store, true, path, None, 50) {
            CacheDecision::Miss { bucket, key } => {
                assert!(store_on_miss(&mut store, bucket, key, 200, &no_headers(), body, 50));
            }
            _ => panic!("expected a miss while filling"),
        }
    }
    let before = store.get_stats();
    assert_eq!(before.global_stats_entries, 1);
    assert_eq!(before.filtered_queries_entries, 1);
    assert_eq!(before.individual_beatmaps_entries, 1);
    assert_eq!(before.pending_status_entries, 1);

    // a mutating request to a beatmap-mutation path
    match handle_request(&mut store, false, b"/api/beatmap/file", None, 51) {
        CacheDecision::Invalidate => {}
        _ => panic!("a mutating request must invalidate and pass through"),
    }

    let after = store.get_stats();
    assert_eq!(after.global_stats_entries, 0);
    assert_eq!(after.filtered_queries_entries, 0);
    assert_eq!(after.individual_beatmaps_entries, 1);
    assert_eq!(after.pending_status_entries, 1);

    // the entity buckets still serve their entries
    match handle_request(&mut store, true, b"/api/beatmapset/5", None, 52) {
        CacheDecision::Hit { entry, .. } => assert_eq!(entry.body, b"set".to_vec()),
        _ => panic!("entity entry must survive the invalidation"),
    }
}

/// A mutating request to an unrelated path clears nothing.
#[test]
fn unrelated_mutation_clears_nothing() {
    let mut store = CacheStore::new();
    match handle_request(&mut store, true, b"/api/beatmap/count", None, 50) {
        CacheDecision::Miss { bucket, key } => {
            assert!(store_on_miss(&mut store, bucket, key, 200, &no_headers(), b"c", 50));
        }
        _ => panic!("expected a miss"),
    }
    match handle_request(&mut store, false, b"/api/scores/submit", None, 51) {
        CacheDecision::Invalidate => {}
        _ => panic!("expected the invalidate decision"),
    }
    assert_eq!(store.get_stats().global_stats_entries, 1);
}

/// Never-cache override: reads through such a path bypass the cache
/// entirely, so nothing is ever stored for them.
#[test]
fn never_cache_path_is_never_stored() {
    let mut store = CacheStore::new();
    for now in 0..5u64 {
        match handle_request(&mut store, true, b"/api/beatmapset/random", None, now) {
            CacheDecision::Bypass => {}
            _ => panic!("a never-cache path must bypass"),
        }
    }
    let stats = store.get_stats();
    assert_eq!(stats.total_requests, 0);
    assert_eq!(stats.global_stats_entries, 0);
    assert_eq!(stats.filtered_queries_entries, 0);
    assert_eq!(stats.individual_beatmaps_entries, 0);
    assert_eq!(stats.pending_status_entries, 0);
}

#[test]
fn unrouted_read_passes_through_without_stats() {
    let mut store = CacheStore::new();
    match handle_request(&mut store, true, b"/api/scores/4", None, 9) {
        CacheDecision::NotCacheable => {}
        _ => panic!("an unrouted read must pass through"),
    }
    assert_eq!(store.get_stats().total_requests, 0);
}

/// Only 2xx responses are snapshotted; everything else stays uncached.
#[test]
fn non_success_responses_are_not_cached() {
    let mut store = CacheStore::new();
    let path: &[u8] = b"/api/beatmap/count";
    let (bucket, key) = match handle_request(&mut store, true, path, None, 5) {
        CacheDecision::Miss { bucket, key } => (bucket, key),
        _ => panic!("expected a miss"),
    };
    assert!(!store_on_miss(&mut store, bucket, key, 404, &no_headers(), b"nope", 5));
    assert_eq!(store.get_stats().global_stats_entries, 0);
    assert!(CacheEntry::snapshot(500, &no_headers(), b"boom", 5).is_none());
    assert!(CacheEntry::snapshot(199, &no_headers(), b"", 5).is_none());
    assert!(CacheEntry::snapshot(300, &no_headers(), b"", 5).is_none());
}

#[test]
fn snapshot_keeps_status_headers_and_body() {
    let mut headers = Vec::new();
    headers.push((b"content-type".to_vec(), b"application/json".to_vec()));
    let e = CacheEntry::snapshot(204, &headers, b"payload", 77).unwrap();
    assert_eq!(e.status, 204);
    assert_eq!(e.created_at, 77);
    assert_eq!(e.body, b"payload".to_vec());
    assert_eq!(e.headers.len(), 1);
    assert_eq!(e.headers[0].0, b"content-type".to_vec());
    assert_eq!(e.headers[0].1, b"application/json".to_vec());
}

#[test]
fn cache_error_body_is_fixed() {
    assert_eq!(cache_error_body(), "Cache serialization error");
}

/// The counter reset halves, rather than zeroes, once past the threshold.
#[test]
fn counters_halve_past_the_threshold() {
    let mut store = CacheStore::new();
    for _ in 0..1_000_001u64 {
        match handle_request(&mut store, true, b"/api/beatmap", Some(b"q=1"), 3) {
            CacheDecision::Miss { .. } => {}
            CacheDecision::Hit { .. } => {}
            _ => panic!("expected cache traffic"),
        }
    }
    let before = store.get_stats();
    assert!(before.total_requests == 1_000_001);
    store.cleanup_cache_stats();
    let after = store.get_stats();
    assert_eq!(after.total_requests, 500_000);
    assert_eq!(after.hits, before.hits / 2);
    assert_eq!(after.misses, before.misses / 2);

    // below the threshold nothing moves
    store.cleanup_cache_stats();
    assert_eq!(store.get_stats().total_requests, 500_000);
}

#[test]
fn hit_rate_is_zero_without_traffic() {
    let store = CacheStore::new();
    let stats = store.get_stats();
    assert_eq!(stats.hit_rate_percent, 0);
    assert_eq!(stats.total_requests, 0);
}

/// Overwriting the same key keeps one entry and serves the newer value.
#[test]
fn same_key_overwrites_in_place() {
    let mut store = CacheStore::new();
    let e1 = CacheEntry::snapshot(200, &no_headers(), b"v1", 1).unwrap();
    let e2 = CacheEntry::snapshot(200, &no_headers(), b"v2", 2).unwrap();
    store.insert(CacheType::GlobalStats, b"k".to_vec(), e1);
    store.insert(CacheType::GlobalStats, b"k".to_vec(), e2);
    assert_eq!(store.get_stats().global_stats_entries, 1);
    match handle_request(&mut store, true, b"/api/beatmap/count", None, 3) {
        CacheDecision::Miss { .. } => {}
        _ => panic!("a different key must still miss"),
    }
    let got = store.get(CacheType::GlobalStats, b"k", 3).unwrap();
    assert_eq!(got.body, b"v2".to_vec());
}

/// Eviction follows recency: a touched entry survives, the least recently
/// used one leaves.
#[test]
fn eviction_is_least_recently_used() {
    let mut store = CacheStore::new();
    // fill the global-stats bucket (capacity 10) with k0..k9
    for i in 0..10u32 {
        let e = CacheEntry::snapshot(200, &no_headers(), b"x", 1).unwrap();
        store.insert(CacheType::GlobalStats, format!("k{}", i).into_bytes(), e);
    }
    // touch k0: it becomes the most recently used
    assert!(store.get(CacheType::GlobalStats, b"k0", 2).is_some());
    // a new key evicts the least recently used, now k1
    let e = CacheEntry::snapshot(200, &no_headers(), b"y", 3).unwrap();
    let evicted = store.insert(CacheType::GlobalStats, b"k10".to_vec(), e);
    assert_eq!(evicted, Some(b"k1".to_vec()));
    assert!(store.get(CacheType::GlobalStats, b"k0", 4).is_some());
    assert!(store.get(CacheType::GlobalStats, b"k1", 4).is_none());
    assert!(store.get(CacheType::GlobalStats, b"k10", 4).is_some());
}
