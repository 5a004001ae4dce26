use middleguard::config::{CorsConfig, LoggingConfig, ServerConfig};
use middleguard::registry::AttackRegistry;
use middleguard::report::{
    cache_stats, generate_recommendations, performance_rating, security_stats, BanStatus,
};
use middleguard::store::CacheStats;

/// A consistent snapshot: the rate is derived from the counters, the
/// occupancies are within the fixed capacities.
fn snapshot(hits: u64, misses: u64, sizes: [u64; 4]) -> CacheStats {
    let total = hits + misses;
    CacheStats {
        hits,
        misses,
        total_requests: total,
        hit_rate_percent: if total == 0 { 0 } else { hits * 100 / total },
        global_stats_entries: sizes[0],
        filtered_queries_entries: sizes[1],
        individual_beatmaps_entries: sizes[2],
        pending_status_entries: sizes[3],
    }
}

#[test]
fn rating_thresholds() {
    assert_eq!(performance_rating(100), "Excellent");
    assert_eq!(performance_rating(80), "Excellent");
    assert_eq!(performance_rating(79), "Good");
    assert_eq!(performance_rating(60), "Good");
    assert_eq!(performance_rating(40), "Average");
    assert_eq!(performance_rating(20), "Poor");
    assert_eq!(performance_rating(19), "Critical");
    assert_eq!(performance_rating(0), "Critical");
}

#[test]
fn low_hit_rate_is_called_out() {
    let s = snapshot(10, 91, [1, 2, 3, 4]);
    assert!(s.hit_rate_percent < 30 && s.total_requests > 100);
    let r = generate_recommendations(&s);
    assert_eq!(r.len(), 1);
    assert!(r[0].contains("Hit rate is very low"));
}

#[test]
fn excellent_hit_rate_is_praised() {
    let s = snapshot(950, 51, [2, 20, 30, 5]);
    assert!(s.hit_rate_percent > 90 && s.total_requests > 1000);
    let r = generate_recommendations(&s);
    assert_eq!(r.len(), 1);
    assert!(r[0].contains("Excellent hit rate"));
}

#[test]
fn full_buckets_alone_raise_no_alarm() {
    // the four capacities sum to 7010, below the high-item threshold, so a
    // fully occupied cache alone earns the all-clear
    let s = snapshot(50, 40, [10, 1000, 5000, 1000]);
    let r = generate_recommendations(&s);
    assert!(!r.iter().any(|x| x.contains("High number of cached items")));
    assert_eq!(r.len(), 1);
    assert!(r[0].contains("looks good"));
}

#[test]
fn empty_cache_under_traffic_is_called_out() {
    let s = snapshot(50, 60, [0, 1, 2, 3]);
    let r = generate_recommendations(&s);
    assert!(r.iter().any(|x| x.contains("Very few items cached")));
    assert!(r.iter().any(|x| x.contains("Global stats cache is empty")));
}

#[test]
fn quiet_cache_gets_the_all_clear() {
    let s = snapshot(40, 40, [1, 5, 5, 5]);
    let r = generate_recommendations(&s);
    assert_eq!(r.len(), 1);
    assert!(r[0].contains("looks good"));
}

#[test]
fn report_derives_totals_and_estimates() {
    let s = snapshot(50, 50, [2, 3, 4, 1]);
    let rep = cache_stats(&s);
    assert_eq!(rep.total_cached_items, 10);
    assert_eq!(rep.estimated_memory_usage_bytes, 10 * 1024);
    assert_eq!(rep.bytes_saved_estimation, 50 * 2048);
    assert_eq!(rep.database_queries_avoided, 50);
    assert_eq!(rep.performance_rating, "Average");
    assert_eq!(rep.stats, s);
}

#[test]
fn security_report_sorts_by_attempt_count() {
    let mut reg = AttackRegistry::new();
    let quiet = "192.0.2.10".to_string();
    let noisy = "192.0.2.11".to_string();
    let middle = "192.0.2.12".to_string();
    reg.record_attack_attempt(&quiet, 100);
    for i in 0..4u64 {
        reg.record_attack_attempt(&noisy, 100 + i);
    }
    reg.record_attack_attempt(&middle, 100);
    reg.record_attack_attempt(&middle, 101);

    let report = security_stats(&reg, 200);
    assert_eq!(report.len(), 3);
    assert_eq!(report[0].ip, "192.0.2.11");
    assert_eq!(report[0].attempt_count, 4);
    assert_eq!(report[1].ip, "192.0.2.12");
    assert_eq!(report[1].attempt_count, 2);
    assert_eq!(report[2].ip, "192.0.2.10");
    assert_eq!(report[2].attempt_count, 1);

    // ages and ban state are rendered against `now`
    assert_eq!(report[2].first_attempt_ago_secs, 100);
    assert_eq!(report[2].last_attempt_ago_secs, 100);
    assert_eq!(report[2].ban_status, BanStatus::NotBanned);
    // the noisy client was banned at its third attempt, at 102
    assert_eq!(report[0].ban_status, BanStatus::Banned { remaining_secs: 102 + 3600 - 200 });
}

#[test]
fn security_report_shows_expired_bans() {
    let mut reg = AttackRegistry::new();
    let ip = "192.0.2.13".to_string();
    for i in 0..3u64 {
        reg.record_attack_attempt(&ip, i);
    }
    // ban expiry at 2 + 3600
    let report = security_stats(&reg, 10_000);
    assert_eq!(report.len(), 1);
    assert_eq!(report[0].ban_status, BanStatus::BanExpired);
}

/// The reaper drops stale and ban-served records and keeps the rest
/// unchanged.
#[test]
fn reaper_drops_stale_and_served_records() {
    let mut reg = AttackRegistry::new();
    let fresh = "198.51.100.1".to_string();
    let stale = "198.51.100.2".to_string();
    let banned = "198.51.100.3".to_string();
    let served = "198.51.100.4".to_string();

    reg.record_attack_attempt(&fresh, 1_000_000);
    reg.record_attack_attempt(&stale, 100);
    for i in 0..3u64 {
        reg.record_attack_attempt(&banned, 1_000_000 + i);
    }
    for i in 0..3u64 {
        reg.record_attack_attempt(&served, 100 + i);
    }

    // at 1_000_500: `stale` is a day old and unbanned; `served`'s ban
    // (until 102 + 3600) has passed; the other two stay
    reg.reap(1_000_500);
    assert!(reg.lookup(&fresh).is_some());
    assert!(reg.lookup(&stale).is_none());
    assert!(reg.lookup(&banned).is_some());
    assert!(reg.lookup(&served).is_none());

    // the kept records are unchanged
    assert_eq!(reg.lookup(&fresh).unwrap().count, 1);
    assert_eq!(reg.lookup(&banned).unwrap().count, 3);

    let pairs = reg.get_attack_stats();
    assert_eq!(pairs.len(), 2);
}

#[test]
fn reaper_keeps_unbanned_records_within_a_day() {
    let mut reg = AttackRegistry::new();
    let ip = "198.51.100.5".to_string();
    reg.record_attack_attempt(&ip, 1000);
    // 86399 seconds later: still within the day
    reg.reap(1000 + 86399);
    assert!(reg.lookup(&ip).is_some());
    // a day after the last attempt: gone
    reg.reap(1000 + 86400);
    assert!(reg.lookup(&ip).is_none());
}

#[test]
fn config_defaults_match_the_conventions() {
    let s = ServerConfig::default();
    assert_eq!(s.host, "127.0.0.1");
    assert_eq!(s.port, 3000);
    let l = LoggingConfig::default();
    assert_eq!(l.level, "info");
    assert_eq!(l.format, "json");
    let c = CorsConfig::default();
    assert_eq!(c.allowed_origins, vec!["http://localhost:3000", "http://127.0.0.1:3000"]);
    assert_eq!(c.allowed_methods, vec!["GET", "POST", "PUT", "DELETE", "OPTIONS"]);
    assert_eq!(c.allowed_headers, vec!["content-type", "authorization"]);
}
