//! Cache router: pure classification of request paths into cache buckets,
//! the never-cache override, and the mutation predicate that triggers
//! invalidation.

use vstd::prelude::*;
use vstd::string::StringSliceAdditionalSpecFns;
use crate::ascii::{bytes_eq, contains_bytes, contains_subslice, matches_at, starts_with_bytes};

verus! {

/// The four traffic classes the cache distinguishes.  A path that belongs to
/// none of them is not cacheable.
#[derive(Clone, Copy, Debug, PartialEq, Eq, Structural)]
pub enum CacheType {
    GlobalStats,
    FilteredQueries,
    IndividualBeatmaps,
    PendingStatus,
}

/// Paths that must never be cached, whatever the method or bucket: anything
/// served from a randomized listing or a health probe is inherently live.
pub open spec fn never_cache_path(path: Seq<u8>) -> bool {
    contains_bytes(path, "/random".spec_bytes()) || contains_bytes(path, "/health".spec_bytes())
}

/// The bucket a request path resolves to, if any.
pub open spec fn bucket_of(path: Seq<u8>) -> Option<CacheType> {
    if path == "/api/beatmap/count".spec_bytes() {
        Some(CacheType::GlobalStats)
    } else if path == "/api/beatmap".spec_bytes() {
        Some(CacheType::FilteredQueries)
    } else if matches_at(path, "/api/beatmapset/".spec_bytes(), 0) {
        Some(CacheType::IndividualBeatmaps)
    } else if matches_at(path, "/api/pending_beatmap/status/".spec_bytes(), 0) {
        Some(CacheType::PendingStatus)
    } else {
        None
    }
}

/// A mutating request to such a path invalidates the aggregate buckets.
pub open spec fn beatmap_mutation_path(path: Seq<u8>) -> bool {
    contains_bytes(path, "/api/beatmap/".spec_bytes()) && !contains_bytes(
        path,
        "/get/".spec_bytes(),
    )
}

/// Whether a path must bypass the cache entirely.
pub fn should_never_cache(path: &[u8]) -> (r: bool)
    ensures
        r == never_cache_path(path@),
{
    contains_subslice(path, "/random".as_bytes()) || contains_subslice(path, "/health".as_bytes())
}

/// Resolves a path to its cache bucket.
pub fn get_cache_type(path: &[u8]) -> (r: Option<CacheType>)
    ensures
        r == bucket_of(path@),
{
    if bytes_eq(path, "/api/beatmap/count".as_bytes()) {
        Some(CacheType::GlobalStats)
    } else if bytes_eq(path, "/api/beatmap".as_bytes()) {
        Some(CacheType::FilteredQueries)
    } else if starts_with_bytes(path, "/api/beatmapset/".as_bytes()) {
        Some(CacheType::IndividualBeatmaps)
    } else if starts_with_bytes(path, "/api/pending_beatmap/status/".as_bytes()) {
        Some(CacheType::PendingStatus)
    } else {
        None
    }
}

/// Whether a request is cacheable at all: only reads, and only paths that
/// resolve to a bucket.
pub fn should_cache_route(is_get: bool, path: &[u8]) -> (r: bool)
    ensures
        r == (is_get && bucket_of(path@) is Some),
{
    is_get && get_cache_type(path).is_some()
}

/// Whether a path is a beatmap-mutation path.
pub fn is_beatmap_mutation_path(path: &[u8]) -> (r: bool)
    ensures
        r == beatmap_mutation_path(path@),
{
    contains_subslice(path, "/api/beatmap/".as_bytes()) && !contains_subslice(
        path,
        "/get/".as_bytes(),
    )
}

} // verus!
