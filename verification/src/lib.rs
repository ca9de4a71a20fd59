//! A deduplicated random-image store with a single-flight refresh protocol.
//!
//! The library holds the cache-and-refresh logic: a durable, deduplicated
//! image store with perceptual-hash deduplication and staleness detection
//! (`cache`), the rate-limited single-flight refresh decisions around it
//! (`source`), the extraction of candidate URLs from a search response
//! (`extract`), and the binary codec of the persisted timestamp
//! (`timestamp`). The process around the library performs the filesystem and
//! network work and hands plain values in and out.

pub mod cache;
pub mod clock;
pub mod errors;
pub mod extract;
pub mod hashing;
pub mod rng;
pub mod source;
pub mod timestamp;
