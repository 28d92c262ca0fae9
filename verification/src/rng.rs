//! The crate's only randomness source, behind one trusted wrapper.

use vstd::prelude::*;

verus! {

/// Relies on `rand::thread_rng` and `rand::Rng::gen_range` over an inclusive
/// integer range: the call returns a value within the range and panics only on
/// an empty range, which the precondition rules out. Nothing more is assumed;
/// callers state only what holds of every outcome.
#[verifier::external_body]
pub(crate) fn rand_range_i64(lo: i64, hi: i64) -> (r: i64)
    requires
        lo <= hi,
    ensures
        lo <= r <= hi,
{
    rand::Rng::gen_range(&mut rand::thread_rng(), lo..=hi)
}

} // verus!
