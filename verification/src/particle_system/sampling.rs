//! The injected randomness source: uniform sampling over a fixed-point
//! range, used by jittered values and emitter cone directions.
//!
//! Nothing is assumed of which value comes back beyond its range, so every
//! function that consumes a sample is verified for all values the range
//! admits.

use vstd::prelude::*;

verus! {

/// Relies on `rand::Rng::gen_range` on `rand::thread_rng`: draws a fresh
/// value from the half-open range `[lo, hi)`; the call panics on an empty
/// range, so the range is required to be non-empty.
#[verifier::external_body]
pub(crate) fn sample_range_i64(lo: i64, hi: i64) -> (r: i64)
    requires
        lo < hi,
    ensures
        lo <= r < hi,
{
    rand::Rng::gen_range(&mut rand::thread_rng(), lo..hi)
}

} // verus!
