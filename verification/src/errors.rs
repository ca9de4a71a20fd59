//! Error taxonomy for the image cache and its refresh coordinator.

use vstd::prelude::*;

verus! {

/// Every failure the cache subsystem can report.
///
/// `DecodeError` and `DownloadError` are per-candidate failures that a refresh
/// skips over; `SearchUnreachable` and `NoCandidatesFound` abort one refresh
/// attempt; `StorageError` is fatal to initialization; the remaining variants
/// guard the store's lifecycle and emptiness.
#[derive(Debug, Clone, Copy, PartialEq, Eq, Structural)]
pub enum CacheError {
    /// The store was used before `initialize` completed.
    Uninitialized,
    /// `initialize` was called on an already-initialized store.
    InitializationRace,
    /// A read was attempted while the store holds no images.
    EmptyCache,
    /// A candidate's bytes do not decode as an image.
    DecodeError,
    /// The search endpoint could not be reached.
    SearchUnreachable,
    /// The search response yielded no candidate URLs and the store is empty.
    NoCandidatesFound,
    /// A candidate image could not be downloaded.
    DownloadError,
    /// A filesystem or codec failure during the startup scan.
    StorageError,
}

} // verus!
