//! Verified request-path middleware core: a multi-bucket TTL response cache
//! with write-triggered invalidation, composed with an abuse-detection state
//! machine that fingerprints attack-like requests per client and imposes
//! escalating penalties.
//!
//! The crate holds the decision logic only.  I/O, the HTTP types and the
//! asynchronous plumbing live outside; they hand the library plain values
//! (byte slices, strings, integers, a monotonic clock reading in seconds)
//! and act on the decisions it returns.

pub mod api_types;
pub mod ascii;
pub mod config;
pub mod bucket;
pub mod catalog;
pub mod detector;
pub mod entry;
pub mod laws;
pub mod middleware;
pub mod percent;
pub mod registry;
pub mod report;
pub mod store;
pub mod router;
