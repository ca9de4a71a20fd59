//! The process clock.
//!
//! Staleness and rate-limit decisions compare against the current UNIX time.
//! The verified logic takes a time value as an argument; this module holds the
//! one place where the clock itself is read.

use vstd::prelude::*;

verus! {

/// Relies on std::time::SystemTime::now and duration_since(UNIX_EPOCH): the
/// current UNIX time in whole seconds. Nothing is promised of the value; a
/// clock before the epoch reads as zero rather than failing.
#[verifier::external_body]
fn system_now_seconds() -> u64 {
    match std::time::SystemTime::now().duration_since(std::time::UNIX_EPOCH) {
        Ok(d) => d.as_secs(),
        Err(_) => 0,
    }
}

/// The current UNIX time in whole seconds, as the staleness and rate-limit
/// decisions consume it. No two reads are promised to agree: every contract
/// that depends on the time takes the value as an argument.
pub fn unix_now() -> u64 {
    system_now_seconds()
}

} // verus!
