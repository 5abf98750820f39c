//! Access to the process-wide random source.

use rand::RngExt;
use vstd::prelude::*;

verus! {

/// Relies on rand::RngExt::random_range over the range `0..n`, on the
/// thread-local generator of rand::rng(): it returns a value of that
/// range, and panics only when the range is empty, which the
/// precondition rules out. Nothing more is assumed of a random draw.
#[verifier::external_body]
pub(crate) fn rand_below(n: usize) -> (r: usize)
    requires
        n > 0,
    ensures
        r < n,
{
    rand::rng().random_range(0..n)
}

} // verus!
