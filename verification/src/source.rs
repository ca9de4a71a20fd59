//! The refresh coordinator.
//!
//! `ImageSource` owns the store and the timestamp of the last refresh
//! *attempt*. A caller that finds the store stale and the rate-limit window
//! open claims the refresh optimistically: it remembers the attempt time it
//! observed without holding anything, and under the exclusive section
//! compares that observation against the current attempt time. Only an
//! unchanged value wins the claim (`try_claim`), so of several callers racing
//! for one window at most one runs the refresh body
//! (`lemma_single_flight_claim`); the losers are served from the store as it
//! is. The refresh itself — fetching the search page, downloading candidates —
//! is the caller's outside work; the decisions stand here.

use vstd::prelude::*;

use crate::cache::ImageCache;
use crate::errors::CacheError;

verus! {

/// Seconds that must pass after a refresh attempt before the next one: one hour.
pub const RATE_LIMIT_SECONDS: u64 = 3600;

/// Whether the rate limit allows a refresh at time `now`, given the attempt
/// time on record: strictly more than an hour must have passed.
pub open spec fn spec_can_update(attempt_time: u64, now: u64) -> bool {
    now > attempt_time + RATE_LIMIT_SECONDS
}

/// Whether a claim with observation `observed` wins against the attempt time
/// on record: it does exactly when no other claim has moved the record since
/// the observation was taken.
pub open spec fn spec_claim_wins(attempt_time: u64, observed: u64) -> bool {
    attempt_time == observed
}

/// The attempt time on record after a claim at time `now`.
pub open spec fn spec_after_claim(attempt_time: u64, observed: u64, now: u64) -> u64 {
    if spec_claim_wins(attempt_time, observed) {
        now
    } else {
        attempt_time
    }
}

/// The refresh decision once the search response has been parsed: finding no
/// candidate URLs is fatal only while the store is empty; with anything
/// already stored, stale data beats no data and the refresh reports success.
pub open spec fn spec_plan_refresh(candidates_found: nat, item_count: nat) -> Result<
    (),
    CacheError,
> {
    if candidates_found == 0 && item_count == 0 {
        Err(CacheError::NoCandidatesFound)
    } else {
        Ok(())
    }
}

/// Decides a refresh after candidate extraction, per `spec_plan_refresh`.
/// Candidate downloads that fail later never change this decision: a refresh
/// that adds nothing is still a successful refresh.
pub fn plan_refresh(candidates_found: usize, item_count: u32) -> (r: Result<(), CacheError>)
    ensures
        r == spec_plan_refresh(candidates_found as nat, item_count as nat),
{
    if candidates_found == 0 && item_count == 0 {
        Err(CacheError::NoCandidatesFound)
    } else {
        Ok(())
    }
}

/// The store together with the refresh protocol's state.
pub struct ImageSource {
    /// The deduplicated image store that refreshes feed.
    pub cache: ImageCache,
    /// UNIX time of the last refresh attempt, successful or not. Never
    /// persisted: each process starts with the rate-limit window open.
    pub attempt_time: u64,
}

impl ImageSource {
    /// Wraps an initialized (or deliberately fresh) store with a refresh
    /// state whose rate-limit window is open.
    pub fn new(cache: ImageCache) -> (r: ImageSource)
        ensures
            r.cache == cache,
            r.attempt_time == 0,
    {
        ImageSource { cache, attempt_time: 0 }
    }

    /// The attempt time a caller observes before deciding to refresh; the
    /// value it must later hand to `try_claim`.
    pub fn observe_attempt(&self) -> (r: u64)
        ensures
            r == self.attempt_time,
    {
        self.attempt_time
    }

    /// Whether the rate limit allows a refresh at time `now`.
    pub fn can_update(&self, now: u64) -> (r: bool)
        ensures
            r == spec_can_update(self.attempt_time, now),
    {
        now >= self.attempt_time && now - self.attempt_time > RATE_LIMIT_SECONDS
    }

    /// The compare-and-set at the heart of the single-flight protocol: wins,
    /// and moves the attempt time to `now`, exactly when the attempt time
    /// still equals what this caller observed. The store is never touched.
    pub fn try_claim(&mut self, observed: u64, now: u64) -> (claimed: bool)
        ensures
            claimed == spec_claim_wins(old(self).attempt_time, observed),
            final(self).attempt_time == spec_after_claim(old(self).attempt_time, observed, now),
            final(self).cache == old(self).cache,
    {
        if self.attempt_time == observed {
            self.attempt_time = now;
            true
        } else {
            false
        }
    }

    /// Serves one stored image at random; the refresh, if any, has already
    /// run. Fails with `EmptyCache` exactly when nothing is stored.
    pub fn get_image(&self) -> (r: Result<Vec<u8>, CacheError>)
        requires
            self.cache.wf(),
        ensures
            self.cache@.count == 0 ==> r == Err::<Vec<u8>, CacheError>(CacheError::EmptyCache),
            self.cache@.count > 0 ==> (r matches Ok(img) && exists|i: int|
                0 <= i < self.cache@.images.len() && img@ == #[trigger] self.cache@.images[i]),
    {
        self.cache.get_random_image()
    }

    /// Staleness of the store against the process clock; see
    /// `ImageCache::is_stale`.
    pub fn is_stale(&self) -> (r: bool)
        ensures
            !self.cache@.init || self.cache@.count == 0 ==> r,
    {
        self.cache.is_stale()
    }
}

/// Single-flight law: two callers that observed the same attempt time race
/// for one rate-limit window; after the first claim wins, the second claim
/// against the updated record loses, so at most one execution of the refresh
/// body proceeds. The rate limit guarantees the winning claim moved the
/// record (`now1` lies beyond the window, so it differs from the observation).
pub proof fn lemma_single_flight_claim(attempt0: u64, observed: u64, now1: u64, now2: u64)
    requires
        observed == attempt0,
        spec_can_update(attempt0, now1),
    ensures
        spec_claim_wins(attempt0, observed),
        !spec_claim_wins(spec_after_claim(attempt0, observed, now1), observed),
{
}

} // verus!
