//! Random index selection for serving a stored image.

use vstd::prelude::*;

use rand::RngExt;

verus! {

/// Relies on rand::RngExt::random_range over the range 0..n: returns a value
/// in that range, and panics only on an empty range, which the precondition
/// rules out. Nothing more is promised of which index comes back.
#[verifier::external_body]
pub(crate) fn random_index(n: u32) -> (r: u32)
    requires
        n > 0,
    ensures
        r < n,
{
    rand::rng().random_range(0..n)
}

} // verus!
