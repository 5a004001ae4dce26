//! The cache store: four independent TTL-scoped buckets, one per traffic
//! class, plus the aggregate hit/miss counters and the blunt invalidation
//! triggered by mutating requests.

use vstd::prelude::*;
use crate::bucket::{bucket_find, fresh_at, BucketModel, CacheBucket};
use crate::entry::{CacheEntry, CacheEntryModel};
use crate::router::{beatmap_mutation_path, is_beatmap_mutation_path, CacheType};

verus! {

pub const GLOBAL_STATS_TTL_SECS: u64 = 600;

pub const GLOBAL_STATS_CAPACITY: usize = 10;

pub const FILTERED_QUERIES_TTL_SECS: u64 = 300;

pub const FILTERED_QUERIES_CAPACITY: usize = 1000;

pub const INDIVIDUAL_BEATMAPS_TTL_SECS: u64 = 1800;

pub const INDIVIDUAL_BEATMAPS_CAPACITY: usize = 5000;

pub const PENDING_STATUS_TTL_SECS: u64 = 30;

pub const PENDING_STATUS_CAPACITY: usize = 1000;

/// Once the aggregate request counter passes this bound, the counters are
/// halved to keep them from growing without bound.
pub const STATS_RESET_THRESHOLD: u64 = 1000000;

/// Per-bucket cache policy: time-to-live and capacity, fixed at startup.
#[derive(Clone, Copy, Debug, PartialEq, Eq, Structural)]
pub struct CacheConfig {
    pub ttl_seconds: u64,
    pub max_capacity: u64,
    pub enabled: bool,
}

impl CacheConfig {
    /// A policy with the given TTL and capacity, enabled.
    pub fn new(ttl_seconds: u64, max_capacity: u64) -> (r: Self)
        ensures
            r.ttl_seconds == ttl_seconds,
            r.max_capacity == max_capacity,
            r.enabled,
    {
        CacheConfig { ttl_seconds, max_capacity, enabled: true }
    }
}

/// The integer hit-rate percentage: hits per hundred requests, rounded
/// down; zero while nothing was recorded.
pub open spec fn hit_rate_of(hits: u64, total: u64) -> u64 {
    if total == 0 {
        0
    } else {
        ((hits * 100) as int / total as int) as u64
    }
}

/// A value snapshot of the aggregate counters and the per-bucket occupancy.
#[derive(Clone, Copy, Debug, PartialEq, Eq, Structural)]
pub struct CacheStats {
    pub hits: u64,
    pub misses: u64,
    pub total_requests: u64,
    pub hit_rate_percent: u64,
    pub global_stats_entries: u64,
    pub filtered_queries_entries: u64,
    pub individual_beatmaps_entries: u64,
    pub pending_status_entries: u64,
}

/// A snapshot that the store can actually produce: counters consistent,
/// the rate derived from them, occupancies within the fixed capacities.
pub open spec fn stats_wf(s: CacheStats) -> bool {
    &&& s.hits <= s.total_requests
    &&& s.misses <= s.total_requests
    &&& s.hit_rate_percent == hit_rate_of(s.hits, s.total_requests)
    &&& s.global_stats_entries <= GLOBAL_STATS_CAPACITY
    &&& s.filtered_queries_entries <= FILTERED_QUERIES_CAPACITY
    &&& s.individual_beatmaps_entries <= INDIVIDUAL_BEATMAPS_CAPACITY
    &&& s.pending_status_entries <= PENDING_STATUS_CAPACITY
}

/// Two stores hold the same entries in every bucket.
pub open spec fn same_buckets(a: CacheStore, b: CacheStore) -> bool {
    forall|t: CacheType| a.bucket_model(t) == b.bucket_model(t)
}

/// Two stores carry the same counters.
pub open spec fn same_counters(a: CacheStore, b: CacheStore) -> bool {
    a.spec_hits() == b.spec_hits() && a.spec_misses() == b.spec_misses() && a.spec_total()
        == b.spec_total()
}

/// The cache store: four independent buckets and the aggregate counters.
pub struct CacheStore {
    global_stats: CacheBucket,
    filtered_queries: CacheBucket,
    individual_beatmaps: CacheBucket,
    pending_status: CacheBucket,
    hits: u64,
    misses: u64,
    total_requests: u64,
}

impl CacheStore {
    /// What one bucket holds.
    pub closed spec fn bucket_model(&self, t: CacheType) -> BucketModel {
        match t {
            CacheType::GlobalStats => self.global_stats@,
            CacheType::FilteredQueries => self.filtered_queries@,
            CacheType::IndividualBeatmaps => self.individual_beatmaps@,
            CacheType::PendingStatus => self.pending_status@,
        }
    }

    /// A bucket's fixed TTL.
    pub open spec fn ttl_of(t: CacheType) -> u64 {
        match t {
            CacheType::GlobalStats => GLOBAL_STATS_TTL_SECS,
            CacheType::FilteredQueries => FILTERED_QUERIES_TTL_SECS,
            CacheType::IndividualBeatmaps => INDIVIDUAL_BEATMAPS_TTL_SECS,
            CacheType::PendingStatus => PENDING_STATUS_TTL_SECS,
        }
    }

    /// A bucket's fixed capacity.
    pub open spec fn capacity_of(t: CacheType) -> nat {
        match t {
            CacheType::GlobalStats => GLOBAL_STATS_CAPACITY as nat,
            CacheType::FilteredQueries => FILTERED_QUERIES_CAPACITY as nat,
            CacheType::IndividualBeatmaps => INDIVIDUAL_BEATMAPS_CAPACITY as nat,
            CacheType::PendingStatus => PENDING_STATUS_CAPACITY as nat,
        }
    }

    pub closed spec fn spec_hits(&self) -> u64 {
        self.hits
    }

    pub closed spec fn spec_misses(&self) -> u64 {
        self.misses
    }

    pub closed spec fn spec_total(&self) -> u64 {
        self.total_requests
    }

    /// Buckets are well formed and carry their fixed policy; the counters
    /// are consistent.
    pub closed spec fn wf(&self) -> bool {
        &&& self.global_stats.wf()
        &&& self.global_stats.spec_ttl() == GLOBAL_STATS_TTL_SECS
        &&& self.global_stats.spec_capacity() == GLOBAL_STATS_CAPACITY
        &&& self.filtered_queries.wf()
        &&& self.filtered_queries.spec_ttl() == FILTERED_QUERIES_TTL_SECS
        &&& self.filtered_queries.spec_capacity() == FILTERED_QUERIES_CAPACITY
        &&& self.individual_beatmaps.wf()
        &&& self.individual_beatmaps.spec_ttl() == INDIVIDUAL_BEATMAPS_TTL_SECS
        &&& self.individual_beatmaps.spec_capacity() == INDIVIDUAL_BEATMAPS_CAPACITY
        &&& self.pending_status.wf()
        &&& self.pending_status.spec_ttl() == PENDING_STATUS_TTL_SECS
        &&& self.pending_status.spec_capacity() == PENDING_STATUS_CAPACITY
        &&& self.hits <= self.total_requests
        &&& self.misses <= self.total_requests
    }

    /// An empty store with the fixed per-bucket policies and zeroed
    /// counters.
    pub fn new() -> (r: Self)
        ensures
            r.wf(),
            forall|t: CacheType|
                r.bucket_model(t) == Seq::<(Seq<u8>, CacheEntryModel)>::empty(),
            r.spec_hits() == 0,
            r.spec_misses() == 0,
            r.spec_total() == 0,
    {
        CacheStore {
            global_stats: CacheBucket::new(GLOBAL_STATS_TTL_SECS, GLOBAL_STATS_CAPACITY),
            filtered_queries: CacheBucket::new(
                FILTERED_QUERIES_TTL_SECS,
                FILTERED_QUERIES_CAPACITY,
            ),
            individual_beatmaps: CacheBucket::new(
                INDIVIDUAL_BEATMAPS_TTL_SECS,
                INDIVIDUAL_BEATMAPS_CAPACITY,
            ),
            pending_status: CacheBucket::new(PENDING_STATUS_TTL_SECS, PENDING_STATUS_CAPACITY),
            hits: 0,
            misses: 0,
            total_requests: 0,
        }
    }

    /// Looks a key up in one bucket at time `now`, with the bucket's
    /// freshness and touch semantics.  The other buckets and the counters
    /// are untouched.
    pub fn get(&mut self, t: CacheType, key: &[u8], now: u64) -> (r: Option<CacheEntry>)
        requires
            old(self).wf(),
        ensures
            final(self).wf(),
            final(self).spec_hits() == old(self).spec_hits(),
            final(self).spec_misses() == old(self).spec_misses(),
            final(self).spec_total() == old(self).spec_total(),
            forall|t2: CacheType|
                t2 != t ==> final(self).bucket_model(t2) == old(self).bucket_model(t2),
            match r {
                Some(e) => {
                    &&& bucket_find(old(self).bucket_model(t), key@) == Some(e@)
                    &&& fresh_at(e@, Self::ttl_of(t), now)
                    &&& final(self).bucket_model(t).len() == old(self).bucket_model(t).len()
                    &&& forall|k2: Seq<u8>|
                        bucket_find(final(self).bucket_model(t), k2) == bucket_find(
                            old(self).bucket_model(t),
                            k2,
                        )
                },
                None => {
                    &&& match bucket_find(old(self).bucket_model(t), key@) {
                        Some(m) => !fresh_at(m, Self::ttl_of(t), now),
                        None => true,
                    }
                    &&& bucket_find(final(self).bucket_model(t), key@) is None
                    &&& forall|k2: Seq<u8>|
                        k2 != key@ ==> bucket_find(final(self).bucket_model(t), k2) == bucket_find(
                            old(self).bucket_model(t),
                            k2,
                        )
                    &&& final(self).bucket_model(t).len() <= old(self).bucket_model(t).len()
                },
            },
    {
        match t {
            CacheType::GlobalStats => self.global_stats.get(key, now),
            CacheType::FilteredQueries => self.filtered_queries.get(key, now),
            CacheType::IndividualBeatmaps => self.individual_beatmaps.get(key, now),
            CacheType::PendingStatus => self.pending_status.get(key, now),
        }
    }

    /// Inserts or overwrites a key in one bucket, evicting its least
    /// recently used entry if it is full.  The other buckets and the
    /// counters are untouched.
    pub fn insert(&mut self, t: CacheType, key: Vec<u8>, entry: CacheEntry) -> (evicted: Option<
        Vec<u8>,
    >)
        requires
            old(self).wf(),
        ensures
            final(self).wf(),
            final(self).spec_hits() == old(self).spec_hits(),
            final(self).spec_misses() == old(self).spec_misses(),
            final(self).spec_total() == old(self).spec_total(),
            forall|t2: CacheType|
                t2 != t ==> final(self).bucket_model(t2) == old(self).bucket_model(t2),
            bucket_find(final(self).bucket_model(t), key@) == Some(entry@),
            final(self).bucket_model(t).len() <= old(self).bucket_model(t).len() + 1,
            final(self).bucket_model(t).len() <= Self::capacity_of(t),
            match evicted {
                Some(ek) => {
                    &&& bucket_find(old(self).bucket_model(t), key@) is None
                    &&& old(self).bucket_model(t).len() == Self::capacity_of(t)
                    &&& ek@ == old(self).bucket_model(t)[0].0
                    &&& (ek@ != key@ ==> bucket_find(final(self).bucket_model(t), ek@) is None)
                    &&& forall|k2: Seq<u8>|
                        k2 != key@ && k2 != ek@ ==> bucket_find(final(self).bucket_model(t), k2)
                            == bucket_find(old(self).bucket_model(t), k2)
                },
                None => {
                    &&& forall|k2: Seq<u8>|
                        k2 != key@ ==> bucket_find(final(self).bucket_model(t), k2) == bucket_find(
                            old(self).bucket_model(t),
                            k2,
                        )
                    &&& (bucket_find(old(self).bucket_model(t), key@) is None ==> old(
                        self,
                    ).bucket_model(t).len() < Self::capacity_of(t))
                },
            },
            old(self).bucket_model(t).len() < Self::capacity_of(t) ==> forall|k2: Seq<u8>|
                k2 != key@ ==> bucket_find(final(self).bucket_model(t), k2) == bucket_find(
                    old(self).bucket_model(t),
                    k2,
                ),
    {
        match t {
            CacheType::GlobalStats => self.global_stats.insert(key, entry),
            CacheType::FilteredQueries => self.filtered_queries.insert(key, entry),
            CacheType::IndividualBeatmaps => self.individual_beatmaps.insert(key, entry),
            CacheType::PendingStatus => self.pending_status.insert(key, entry),
        }
    }

    /// Counts one cache hit.
    pub fn record_hit(&mut self)
        requires
            old(self).wf(),
            old(self).spec_total() < u64::MAX,
        ensures
            final(self).wf(),
            final(self).spec_hits() == old(self).spec_hits() + 1,
            final(self).spec_misses() == old(self).spec_misses(),
            final(self).spec_total() == old(self).spec_total() + 1,
            forall|t: CacheType| final(self).bucket_model(t) == old(self).bucket_model(t),
    {
        self.hits = self.hits + 1;
        self.total_requests = self.total_requests + 1;
    }

    /// Counts one cache miss.
    pub fn record_miss(&mut self)
        requires
            old(self).wf(),
            old(self).spec_total() < u64::MAX,
        ensures
            final(self).wf(),
            final(self).spec_hits() == old(self).spec_hits(),
            final(self).spec_misses() == old(self).spec_misses() + 1,
            final(self).spec_total() == old(self).spec_total() + 1,
            forall|t: CacheType| final(self).bucket_model(t) == old(self).bucket_model(t),
    {
        self.misses = self.misses + 1;
        self.total_requests = self.total_requests + 1;
    }

    /// A value snapshot of the counters, the derived hit rate and the
    /// per-bucket occupancy.
    pub fn get_stats(&self) -> (r: CacheStats)
        requires
            self.wf(),
        ensures
            stats_wf(r),
            r.hits == self.spec_hits(),
            r.misses == self.spec_misses(),
            r.total_requests == self.spec_total(),
            r.hit_rate_percent == hit_rate_of(self.spec_hits(), self.spec_total()),
            r.global_stats_entries == self.bucket_model(CacheType::GlobalStats).len(),
            r.filtered_queries_entries == self.bucket_model(CacheType::FilteredQueries).len(),
            r.individual_beatmaps_entries == self.bucket_model(
                CacheType::IndividualBeatmaps,
            ).len(),
            r.pending_status_entries == self.bucket_model(CacheType::PendingStatus).len(),
    {
        let hit_rate_percent = if self.total_requests == 0 {
            0u64
        } else {
            let wide = (self.hits as u128) * 100 / (self.total_requests as u128);
            proof {
                assert(((self.hits * 100) as int / self.total_requests as int) <= 100 && ((
                self.hits * 100) as int / self.total_requests as int) >= 0) by (nonlinear_arith)
                    requires
                        0 < self.total_requests,
                        self.hits <= self.total_requests,
                ;
            }
            wide as u64
        };
        CacheStats {
            hits: self.hits,
            misses: self.misses,
            total_requests: self.total_requests,
            hit_rate_percent,
            global_stats_entries: self.global_stats.entry_count() as u64,
            filtered_queries_entries: self.filtered_queries.entry_count() as u64,
            individual_beatmaps_entries: self.individual_beatmaps.entry_count() as u64,
            pending_status_entries: self.pending_status.entry_count() as u64,
        }
    }

    /// Invalidation on a mutating request: a beatmap-mutation path clears
    /// the aggregate buckets (global stats and filtered queries) in full
    /// and leaves the entity buckets alone; any other path changes
    /// nothing.
    pub fn invalidate_related_caches(&mut self, path: &[u8])
        requires
            old(self).wf(),
        ensures
            final(self).wf(),
            final(self).spec_hits() == old(self).spec_hits(),
            final(self).spec_misses() == old(self).spec_misses(),
            final(self).spec_total() == old(self).spec_total(),
            beatmap_mutation_path(path@) ==> final(self).bucket_model(CacheType::GlobalStats)
                == Seq::<(Seq<u8>, CacheEntryModel)>::empty() && final(self).bucket_model(
                CacheType::FilteredQueries,
            ) == Seq::<(Seq<u8>, CacheEntryModel)>::empty(),
            final(self).bucket_model(CacheType::IndividualBeatmaps) == old(self).bucket_model(
                CacheType::IndividualBeatmaps,
            ),
            final(self).bucket_model(CacheType::PendingStatus) == old(self).bucket_model(
                CacheType::PendingStatus,
            ),
            !beatmap_mutation_path(path@) ==> final(self).bucket_model(CacheType::GlobalStats)
                == old(self).bucket_model(CacheType::GlobalStats) && final(self).bucket_model(
                CacheType::FilteredQueries,
            ) == old(self).bucket_model(CacheType::FilteredQueries),
    {
        if is_beatmap_mutation_path(path) {
            self.global_stats.invalidate_all();
            self.filtered_queries.invalidate_all();
        }
    }

    /// The periodic counter reset: once the aggregate request counter
    /// exceeds the threshold, hits, misses and total are halved (not
    /// zeroed), bounding growth without losing the relative hit-rate
    /// signal.  Nothing else changes.
    pub fn cleanup_cache_stats(&mut self)
        requires
            old(self).wf(),
        ensures
            final(self).wf(),
            old(self).spec_total() > STATS_RESET_THRESHOLD ==> {
                &&& final(self).spec_hits() == old(self).spec_hits() / 2
                &&& final(self).spec_misses() == old(self).spec_misses() / 2
                &&& final(self).spec_total() == old(self).spec_total() / 2
            },
            old(self).spec_total() <= STATS_RESET_THRESHOLD ==> {
                &&& final(self).spec_hits() == old(self).spec_hits()
                &&& final(self).spec_misses() == old(self).spec_misses()
                &&& final(self).spec_total() == old(self).spec_total()
            },
            forall|t: CacheType| final(self).bucket_model(t) == old(self).bucket_model(t),
    {
        if self.total_requests > STATS_RESET_THRESHOLD {
            self.hits = self.hits / 2;
            self.misses = self.misses / 2;
            self.total_requests = self.total_requests / 2;
        }
    }
}

} // verus!
