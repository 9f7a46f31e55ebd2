use vstd::prelude::*;
use rand::Rng;

verus! {

/// Relies on rand's `thread_rng` and `Rng::gen_range` over `lo..hi`:
/// the sample lies in the half-open range, and `gen_range` panics only
/// when the range is empty, which the precondition rules out.
#[verifier::external_body]
pub(crate) fn random_in(lo: i64, hi: i64) -> (r: i64)
    requires
        lo < hi,
    ensures
        lo <= r < hi,
{
    rand::thread_rng().gen_range(lo..hi)
}

} // verus!
