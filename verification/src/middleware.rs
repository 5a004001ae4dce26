//! The cache middleware's per-request state machine: skip rules, key
//! derivation, lookup, hit/miss accounting, and the store step for the miss
//! path.  The caller performs the I/O around it: it hands in the request's
//! method, path and query, acts on the returned decision, and on a miss
//! hands the delegated response back to be snapshotted and stored.

use vstd::prelude::*;
use crate::ascii::{append_bytes, copy_bytes};
use crate::bucket::{bucket_find, fresh_at};
use crate::entry::CacheEntry;
use crate::registry::age;
use crate::router::{
    bucket_of, beatmap_mutation_path, get_cache_type, never_cache_path, should_never_cache,
    CacheType,
};
use crate::store::{same_buckets, same_counters, CacheStore};

verus! {

/// The derived cache key: the bare path when there is no query string, and
/// the path, a separator and the raw query string verbatim otherwise.  Two
/// requests with the same path and the same raw query string always derive
/// the same key; argument order is not normalized.
pub open spec fn cache_key_of(path: Seq<u8>, query: Option<Seq<u8>>) -> Seq<u8> {
    match query {
        None => path,
        Some(q) => path + seq![63u8] + q,
    }
}

/// The view of an optional byte slice.
pub open spec fn opt_view(query: Option<&[u8]>) -> Option<Seq<u8>> {
    match query {
        None => None,
        Some(q) => Some(q@),
    }
}

/// Derives the cache key for a request.
pub fn generate_cache_key(path: &[u8], query: Option<&[u8]>) -> (r: Vec<u8>)
    ensures
        r@ == cache_key_of(path@, opt_view(query)),
{
    let mut r = copy_bytes(path);
    match query {
        None => r,
        Some(q) => {
            r.push(63);
            append_bytes(&mut r, q);
            proof {
                assert(r@ =~= path@ + seq![63u8] + q@);
            }
            r
        },
    }
}

/// What the middleware decides for one inbound request, in order of
/// precedence: never-cache paths bypass everything; mutating requests
/// invalidate and pass through; unrouted paths pass through; a routed read
/// is served from its bucket or delegated.
pub enum CacheDecision {
    /// Never-cache path: hand the request straight on, touch nothing.
    Bypass,
    /// Mutating request: related buckets were invalidated; hand the
    /// request on and neither read nor write the cache.
    Invalidate,
    /// A read that resolves to no bucket: hand the request on.
    NotCacheable,
    /// A fresh stored entry: serve it, marked as a cache hit with its age
    /// in seconds.
    Hit { entry: CacheEntry, age_secs: u64 },
    /// Nothing usable stored: delegate to the next handler, and offer the
    /// response to `store_on_miss` under this bucket and key.
    Miss { bucket: CacheType, key: Vec<u8> },
}

/// Runs the cache middleware's decision for one request at time `now`.
///
/// First match wins: the never-cache override, then the mutating-request
/// rule, then routing; a routed read looks its key up, counting a hit or a
/// miss.  Only a hit or a miss touches the counters; only a mutating
/// request or an expired entry removes anything.
pub fn handle_request(
    store: &mut CacheStore,
    is_get: bool,
    path: &[u8],
    query: Option<&[u8]>,
    now: u64,
) -> (r: CacheDecision)
    requires
        old(store).wf(),
        old(store).spec_total() < u64::MAX,
    ensures
        final(store).wf(),
        never_cache_path(path@) ==> r is Bypass && same_buckets(*old(store), *final(store))
            && same_counters(*old(store), *final(store)),
        !never_cache_path(path@) && !is_get ==> {
            &&& r is Invalidate
            &&& same_counters(*old(store), *final(store))
            &&& (beatmap_mutation_path(path@) ==> final(store).bucket_model(
                CacheType::GlobalStats,
            ).len() == 0 && final(store).bucket_model(CacheType::FilteredQueries).len() == 0)
            &&& (!beatmap_mutation_path(path@) ==> final(store).bucket_model(
                CacheType::GlobalStats,
            ) == old(store).bucket_model(CacheType::GlobalStats) && final(store).bucket_model(
                CacheType::FilteredQueries,
            ) == old(store).bucket_model(CacheType::FilteredQueries))
            &&& final(store).bucket_model(CacheType::IndividualBeatmaps) == old(
                store,
            ).bucket_model(CacheType::IndividualBeatmaps)
            &&& final(store).bucket_model(CacheType::PendingStatus) == old(store).bucket_model(
                CacheType::PendingStatus,
            )
        },
        !never_cache_path(path@) && is_get && bucket_of(path@) is None ==> r is NotCacheable
            && same_buckets(*old(store), *final(store)) && same_counters(
            *old(store),
            *final(store),
        ),
        !never_cache_path(path@) && is_get && bucket_of(path@) is Some ==> {
            let t = bucket_of(path@)->Some_0;
            let k = cache_key_of(path@, opt_view(query));
            match r {
                CacheDecision::Hit { entry, age_secs } => {
                    &&& bucket_find(old(store).bucket_model(t), k) == Some(entry@)
                    &&& fresh_at(entry@, CacheStore::ttl_of(t), now)
                    &&& age_secs == age(entry@.created_at, now)
                    &&& final(store).spec_hits() == old(store).spec_hits() + 1
                    &&& final(store).spec_misses() == old(store).spec_misses()
                    &&& final(store).spec_total() == old(store).spec_total() + 1
                    &&& forall|t2: CacheType|
                        t2 != t ==> final(store).bucket_model(t2) == old(store).bucket_model(t2)
                    &&& forall|k2: Seq<u8>|
                        bucket_find(final(store).bucket_model(t), k2) == bucket_find(
                            old(store).bucket_model(t),
                            k2,
                        )
                },
                CacheDecision::Miss { bucket, key } => {
                    &&& bucket == t
                    &&& key@ == k
                    &&& match bucket_find(old(store).bucket_model(t), k) {
                        Some(m) => !fresh_at(m, CacheStore::ttl_of(t), now),
                        None => true,
                    }
                    &&& bucket_find(final(store).bucket_model(t), k) is None
                    &&& final(store).spec_hits() == old(store).spec_hits()
                    &&& final(store).spec_misses() == old(store).spec_misses() + 1
                    &&& final(store).spec_total() == old(store).spec_total() + 1
                    &&& forall|t2: CacheType|
                        t2 != t ==> final(store).bucket_model(t2) == old(store).bucket_model(t2)
                    &&& forall|k2: Seq<u8>|
                        k2 != k ==> bucket_find(final(store).bucket_model(t), k2) == bucket_find(
                            old(store).bucket_model(t),
                            k2,
                        )
                },
                _ => false,
            }
        },
{
    if should_never_cache(path) {
        return CacheDecision::Bypass;
    }
    if !is_get {
        store.invalidate_related_caches(path);
        return CacheDecision::Invalidate;
    }
    let bucket = match get_cache_type(path) {
        None => {
            return CacheDecision::NotCacheable;
        },
        Some(t) => t,
    };
    let key = generate_cache_key(path, query);
    match store.get(bucket, key.as_slice(), now) {
        Some(entry) => {
            store.record_hit();
            let created = entry.created_at;
            let age_secs = if now >= created {
                now - created
            } else {
                0
            };
            CacheDecision::Hit { entry, age_secs }
        },
        None => {
            store.record_miss();
            CacheDecision::Miss { bucket, key }
        },
    }
}

/// The store step of the miss path: a delegated response in the 2xx
/// range is snapshotted at time `now` and written to the miss's bucket
/// under the miss's key; any other response is left uncached.  The
/// counters never move here.
pub fn store_on_miss(
    store: &mut CacheStore,
    bucket: CacheType,
    key: Vec<u8>,
    status: u16,
    headers: &Vec<(Vec<u8>, Vec<u8>)>,
    body: &[u8],
    now: u64,
) -> (stored: bool)
    requires
        old(store).wf(),
    ensures
        final(store).wf(),
        same_counters(*old(store), *final(store)),
        forall|t2: CacheType|
            t2 != bucket ==> final(store).bucket_model(t2) == old(store).bucket_model(t2),
        stored == (200 <= status < 300),
        stored ==> match bucket_find(final(store).bucket_model(bucket), key@) {
            Some(m) => m.status == status && m.body == body@ && m.created_at == now,
            None => false,
        },
        !stored ==> same_buckets(*old(store), *final(store)),
        old(store).bucket_model(bucket).len() < CacheStore::capacity_of(bucket) ==> forall|
            k2: Seq<u8>,
        |
            k2 != key@ ==> bucket_find(final(store).bucket_model(bucket), k2) == bucket_find(
                old(store).bucket_model(bucket),
                k2,
            ),
{
    match CacheEntry::snapshot(status, headers, body, now) {
        Some(entry) => {
            store.insert(bucket, key, entry);
            true
        },
        None => false,
    }
}

/// The fixed body served when the miss path cannot snapshot the delegated
/// response: a caching-layer failure, deliberately distinct from the inner
/// handler's own errors.
pub fn cache_error_body() -> (r: &'static str)
    ensures
        r@ == "Cache serialization error"@,
{
    "Cache serialization error"
}

} // verus!
