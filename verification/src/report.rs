//! Diagnostic read projections: the cache statistics report with its
//! derived metrics and recommendations, and the per-client security report
//! sorted by attempt count.  Pure reads; nothing here mutates the shared
//! state.

use vstd::prelude::*;
use crate::registry::{age, AttackAttempt, AttackRegistry};
use crate::store::{stats_wf, CacheStats};

verus! {

/// Assumed bytes per cached item, for the memory estimate.
pub const MEMORY_ESTIMATE_PER_ITEM: u64 = 1024;

/// Assumed bytes saved per served hit.
pub const BYTES_SAVED_PER_HIT: u64 = 2048;

/// How many items the four buckets hold together.
pub open spec fn total_items_of(s: CacheStats) -> int {
    s.global_stats_entries + s.filtered_queries_entries + s.individual_beatmaps_entries
        + s.pending_status_entries
}

/// The qualitative rating of a hit rate, on fixed thresholds.
pub open spec fn performance_rating_of(rate: u64) -> Seq<char> {
    if rate >= 80 {
        "Excellent"@
    } else if rate >= 60 {
        "Good"@
    } else if rate >= 40 {
        "Average"@
    } else if rate >= 20 {
        "Poor"@
    } else {
        "Critical"@
    }
}

/// Rates a hit-rate percentage.
pub fn performance_rating(rate: u64) -> (r: &'static str)
    ensures
        r@ == performance_rating_of(rate),
{
    if rate >= 80 {
        "Excellent"
    } else if rate >= 60 {
        "Good"
    } else if rate >= 40 {
        "Average"
    } else if rate >= 20 {
        "Poor"
    } else {
        "Critical"
    }
}

/// The advice owed for a snapshot, in a fixed order; when nothing applies,
/// the single all-clear line.
pub open spec fn recommendations_of(s: CacheStats) -> Seq<Seq<char>> {
    let base = (if s.hit_rate_percent < 30 && s.total_requests > 100 {
        seq![
            "Hit rate is very low. Consider increasing TTL values or checking if routes are properly cacheable."@,
        ]
    } else {
        Seq::<Seq<char>>::empty()
    }) + (if s.hit_rate_percent > 90 && s.total_requests > 1000 {
        seq!["Excellent hit rate! Cache is working optimally."@]
    } else {
        Seq::<Seq<char>>::empty()
    }) + (if total_items_of(s) > 10000 {
        seq![
            "High number of cached items. Consider reducing TTL or max capacity to save memory."@,
        ]
    } else {
        Seq::<Seq<char>>::empty()
    }) + (if total_items_of(s) < 10 && s.total_requests > 100 {
        seq![
            "Very few items cached despite many requests. Check if caching logic is working correctly."@,
        ]
    } else {
        Seq::<Seq<char>>::empty()
    }) + (if s.global_stats_entries == 0 && s.total_requests > 50 {
        seq!["Global stats cache is empty. Consider pre-warming it."@]
    } else {
        Seq::<Seq<char>>::empty()
    });
    if base.len() == 0 {
        seq!["Cache performance looks good! Keep monitoring."@]
    } else {
        base
    }
}

/// Derives advice from a statistics snapshot, on fixed thresholds over the
/// hit rate, the request volume and the bucket occupancies.
pub fn generate_recommendations(stats: &CacheStats) -> (r: Vec<String>)
    requires
        stats_wf(*stats),
    ensures
        r.deep_view() == recommendations_of(*stats),
{
    let mut r: Vec<String> = Vec::new();
    if stats.hit_rate_percent < 30 && stats.total_requests > 100 {
        r.push(
            "Hit rate is very low. Consider increasing TTL values or checking if routes are properly cacheable.".to_owned(),
        );
    }
    if stats.hit_rate_percent > 90 && stats.total_requests > 1000 {
        r.push("Excellent hit rate! Cache is working optimally.".to_owned());
    }
    let total_items = stats.global_stats_entries + stats.filtered_queries_entries
        + stats.individual_beatmaps_entries + stats.pending_status_entries;
    if total_items > 10000 {
        r.push(
            "High number of cached items. Consider reducing TTL or max capacity to save memory.".to_owned(),
        );
    }
    if total_items < 10 && stats.total_requests > 100 {
        r.push(
            "Very few items cached despite many requests. Check if caching logic is working correctly.".to_owned(),
        );
    }
    if stats.global_stats_entries == 0 && stats.total_requests > 50 {
        r.push("Global stats cache is empty. Consider pre-warming it.".to_owned());
    }
    if r.len() == 0 {
        r.push("Cache performance looks good! Keep monitoring.".to_owned());
    }
    proof {
        assert(r.deep_view() =~= recommendations_of(*stats));
    }
    r
}

/// The cache statistics report: the raw snapshot plus the derived
/// metrics the diagnostics endpoint serves.
pub struct CacheReport {
    pub stats: CacheStats,
    pub performance_rating: String,
    pub total_cached_items: u64,
    pub estimated_memory_usage_bytes: u64,
    pub recommendations: Vec<String>,
    pub bytes_saved_estimation: u64,
    pub database_queries_avoided: u64,
}

/// The saturating product used for the bytes-saved estimate.
pub open spec fn sat_mul_u64(a: u64, b: u64) -> u64 {
    if a * b <= u64::MAX {
        (a * b) as u64
    } else {
        u64::MAX
    }
}

/// Assembles the cache statistics report from a snapshot: the qualitative
/// rating of the hit rate, the total and estimated memory footprint of the
/// cached items, the derived advice, and the estimated savings.
pub fn cache_stats(stats: &CacheStats) -> (r: CacheReport)
    requires
        stats_wf(*stats),
    ensures
        r.stats == *stats,
        r.performance_rating@ == performance_rating_of(stats.hit_rate_percent),
        r.total_cached_items == total_items_of(*stats),
        r.estimated_memory_usage_bytes == total_items_of(*stats) * MEMORY_ESTIMATE_PER_ITEM,
        r.recommendations.deep_view() == recommendations_of(*stats),
        r.bytes_saved_estimation == sat_mul_u64(stats.hits, BYTES_SAVED_PER_HIT),
        r.database_queries_avoided == stats.hits,
{
    let total_cached_items = stats.global_stats_entries + stats.filtered_queries_entries
        + stats.individual_beatmaps_entries + stats.pending_status_entries;
    let bytes_saved_estimation = if stats.hits <= u64::MAX / BYTES_SAVED_PER_HIT {
        proof {
            assert(stats.hits * BYTES_SAVED_PER_HIT <= (u64::MAX / BYTES_SAVED_PER_HIT)
                * BYTES_SAVED_PER_HIT) by (nonlinear_arith)
                requires
                    stats.hits <= u64::MAX / BYTES_SAVED_PER_HIT,
            ;
        }
        stats.hits * BYTES_SAVED_PER_HIT
    } else {
        proof {
            assert(stats.hits * BYTES_SAVED_PER_HIT > u64::MAX) by (nonlinear_arith)
                requires
                    stats.hits > u64::MAX / BYTES_SAVED_PER_HIT,
            ;
        }
        u64::MAX
    };
    CacheReport {
        stats: *stats,
        performance_rating: performance_rating(stats.hit_rate_percent).to_owned(),
        total_cached_items,
        estimated_memory_usage_bytes: total_cached_items * MEMORY_ESTIMATE_PER_ITEM,
        recommendations: generate_recommendations(stats),
        bytes_saved_estimation,
        database_queries_avoided: stats.hits,
    }
}

/// A client's ban state as the security report shows it.
#[derive(Clone, Copy, Debug, PartialEq, Eq, Structural)]
pub enum BanStatus {
    Banned { remaining_secs: u64 },
    BanExpired,
    NotBanned,
}

/// The ban state a record is in at time `now`.
pub open spec fn ban_status_of(a: AttackAttempt, now: u64) -> BanStatus {
    match a.banned_until {
        Some(b) => if now < b {
            BanStatus::Banned { remaining_secs: (b - now) as u64 }
        } else {
            BanStatus::BanExpired
        },
        None => BanStatus::NotBanned,
    }
}

/// One line of the security report.
pub struct ClientReport {
    pub ip: String,
    pub attempt_count: u32,
    pub first_attempt_ago_secs: u64,
    pub last_attempt_ago_secs: u64,
    pub ban_status: BanStatus,
}

/// A report line faithfully renders a record at time `now`.
pub open spec fn reports_record(c: ClientReport, a: AttackAttempt, now: u64) -> bool {
    &&& c.attempt_count == a.count
    &&& c.first_attempt_ago_secs == age(a.first_attempt, now)
    &&& c.last_attempt_ago_secs == age(a.last_attempt, now)
    &&& c.ban_status == ban_status_of(a, now)
}

/// Builds one report line.
fn report_line(ip: String, a: AttackAttempt, now: u64) -> (r: ClientReport)
    ensures
        r.ip == ip,
        reports_record(r, a, now),
{
    let ban_status = match a.banned_until {
        Some(b) => if now < b {
            BanStatus::Banned { remaining_secs: b - now }
        } else {
            BanStatus::BanExpired
        },
        None => BanStatus::NotBanned,
    };
    ClientReport {
        ip,
        attempt_count: a.count,
        first_attempt_ago_secs: if now >= a.first_attempt {
            now - a.first_attempt
        } else {
            0
        },
        last_attempt_ago_secs: if now >= a.last_attempt {
            now - a.last_attempt
        } else {
            0
        },
        ban_status,
    }
}

/// The security report: one line per tracked client, rendered at time
/// `now` and sorted by attempt count, most active first.
pub fn security_stats(reg: &AttackRegistry, now: u64) -> (r: Vec<ClientReport>)
    requires
        reg.wf(),
    ensures
        r@.len() == reg.spec_len(),
        forall|p: int|
            0 <= p < r@.len() ==> reg@.contains_key((#[trigger] r@[p]).ip@) && reports_record(
                r@[p],
                reg@[r@[p].ip@],
                now,
            ),
        forall|ip: Seq<char>|
            #[trigger] reg@.contains_key(ip) ==> exists|p: int|
                0 <= p < r@.len() && (#[trigger] r@[p]).ip@ == ip,
        forall|p: int, q: int|
            0 <= p < q < r@.len() ==> (#[trigger] r@[p]).ip@ != (#[trigger] r@[q]).ip@,
        forall|p: int, q: int|
            0 <= p < q < r@.len() ==> (#[trigger] r@[p]).attempt_count >= (
            #[trigger] r@[q]).attempt_count,
{
    let pairs = reg.get_attack_stats();
    let mut src: Vec<ClientReport> = Vec::new();
    let mut i: usize = 0;
    while i < pairs.len()
        invariant
            i <= pairs@.len(),
            src@.len() == i,
            forall|p: int|
                0 <= p < i ==> (#[trigger] src@[p]).ip@ == pairs@[p].0@ && reports_record(
                    src@[p],
                    pairs@[p].1,
                    now,
                ),
        decreases pairs@.len() - i,
    {
        let ip = pairs[i].0.clone();
        let a = pairs[i].1;
        proof {
            assert(ip@ == pairs@[i as int].0@);
        }
        src.push(report_line(ip, a, now));
        i += 1;
    }
    proof {
        assert forall|p: int| 0 <= p < src@.len() implies reg@.contains_key(
            (#[trigger] src@[p]).ip@,
        ) && reports_record(src@[p], reg@[src@[p].ip@], now) by {
            assert(src@[p].ip@ == pairs@[p].0@);
            assert(reg@.contains_key(pairs@[p].0@) && reg@[pairs@[p].0@] == pairs@[p].1);
        }
        assert forall|ip: Seq<char>| #[trigger] reg@.contains_key(ip) implies exists|p: int|
            0 <= p < src@.len() && (#[trigger] src@[p]).ip@ == ip by {
            let q = choose|q: int| 0 <= q < pairs@.len() && (#[trigger] pairs@[q]).0@ == ip;
            assert(src@[q].ip@ == ip);
        }
        assert forall|p: int, q: int| 0 <= p < q < src@.len() implies (#[trigger] src@[p]).ip@
            != (#[trigger] src@[q]).ip@ by {
            assert(src@[p].ip@ == pairs@[p].0@ && src@[q].ip@ == pairs@[q].0@);
            assert(pairs@[p].0@ != pairs@[q].0@);
        }
    }
    let ghost whole = src@;
    let mut out: Vec<ClientReport> = Vec::new();
    while src.len() > 0
        invariant
            out@.len() + src@.len() == whole.len(),
            forall|p: int|
                0 <= p < out@.len() ==> reg@.contains_key((#[trigger] out@[p]).ip@)
                    && reports_record(out@[p], reg@[out@[p].ip@], now),
            forall|p: int|
                0 <= p < src@.len() ==> reg@.contains_key((#[trigger] src@[p]).ip@)
                    && reports_record(src@[p], reg@[src@[p].ip@], now),
            forall|ip: Seq<char>|
                #[trigger] reg@.contains_key(ip) ==> (exists|p: int|
                    0 <= p < out@.len() && (#[trigger] out@[p]).ip@ == ip) || (exists|p: int|
                    0 <= p < src@.len() && (#[trigger] src@[p]).ip@ == ip),
            forall|p: int, q: int|
                0 <= p < q < out@.len() ==> (#[trigger] out@[p]).ip@ != (#[trigger] out@[q]).ip@,
            forall|p: int, q: int|
                0 <= p < q < src@.len() ==> (#[trigger] src@[p]).ip@ != (#[trigger] src@[q]).ip@,
            forall|p: int, q: int|
                0 <= p < out@.len() && 0 <= q < src@.len() ==> (#[trigger] out@[p]).ip@ != (
                #[trigger] src@[q]).ip@,
            forall|p: int, q: int|
                0 <= p < q < out@.len() ==> (#[trigger] out@[p]).attempt_count >= (
                #[trigger] out@[q]).attempt_count,
            forall|p: int, q: int|
                0 <= p < out@.len() && 0 <= q < src@.len() ==> (#[trigger] out@[p]).attempt_count
                    >= (#[trigger] src@[q]).attempt_count,
        decreases src@.len(),
    {
        let mut best: usize = 0;
        let mut j: usize = 1;
        while j < src.len()
            invariant
                src@.len() > 0,
                best < j,
                j <= src@.len(),
                forall|k: int|
                    0 <= k < j ==> (#[trigger] src@[k]).attempt_count <= src@[
                        best as int].attempt_count,
            decreases src@.len() - j,
        {
            if src[j].attempt_count > src[best].attempt_count {
                best = j;
            }
            j += 1;
        }
        let ghost src_before = src@;
        let item = src.remove(best);
        proof {
            assert(forall|p: int| 0 <= p < best ==> #[trigger] src@[p] == src_before[p]);
            assert(forall|p: int|
                best <= p < src@.len() ==> #[trigger] src@[p] == src_before[p + 1]);
        }
        let ghost out_before = out@;
        out.push(item);
        proof {
            assert(out@[out@.len() - 1] == src_before[best as int]);
            assert(forall|p: int| 0 <= p < out_before.len() ==> #[trigger] out@[p] == out_before[
                p]);
            assert forall|ip: Seq<char>| #[trigger] reg@.contains_key(ip) implies (exists|p: int|
                0 <= p < out@.len() && (#[trigger] out@[p]).ip@ == ip) || (exists|p: int|
                0 <= p < src@.len() && (#[trigger] src@[p]).ip@ == ip) by {
                if exists|p: int| 0 <= p < out_before.len() && (#[trigger] out_before[p]).ip@
                    == ip {
                    let p = choose|p: int|
                        0 <= p < out_before.len() && (#[trigger] out_before[p]).ip@ == ip;
                    assert(out@[p].ip@ == ip);
                } else {
                    let p = choose|p: int|
                        0 <= p < src_before.len() && (#[trigger] src_before[p]).ip@ == ip;
                    if p == best {
                        assert(out@[out@.len() - 1].ip@ == ip);
                    } else if p < best {
                        assert(src@[p].ip@ == ip);
                    } else {
                        assert(src@[p - 1].ip@ == ip);
                    }
                }
            }
        }
    }
    proof {
        assert forall|ip: Seq<char>| #[trigger] reg@.contains_key(ip) implies exists|p: int|
            0 <= p < out@.len() && (#[trigger] out@[p]).ip@ == ip by {
            assert(src@.len() == 0);
        }
    }
    out
}

} // verus!
