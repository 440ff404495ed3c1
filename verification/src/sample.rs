//! Trusted access to the thread-local uniform random sampler.

use vstd::prelude::*;
use rand::Rng;

verus! {

/// Relies on rand::Rng::gen_range over `lo..hi` (a uniform draw from the
/// half-open range): the result lies in the range. `gen_range` panics only
/// on an empty range, which `requires` rules out.
#[verifier::external_body]
pub(crate) fn sample_coord(lo: i32, hi: i32) -> (r: i32)
    requires
        lo < hi,
    ensures
        lo <= r < hi,
{
    rand::thread_rng().gen_range(lo..hi)
}

/// Relies on rand::Rng::gen_range over `0..n` (a uniform draw from the
/// half-open range): the result is a valid index below `n`. `gen_range`
/// panics only on an empty range, which `requires` rules out.
#[verifier::external_body]
pub(crate) fn sample_index(n: usize) -> (r: usize)
    requires
        0 < n,
    ensures
        r < n,
{
    rand::thread_rng().gen_range(0..n)
}

} // verus!
