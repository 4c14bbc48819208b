use vstd::prelude::*;

use rand::Rng;

verus! {

/// Relies on `rand::thread_rng` and `Rng::gen_range` over `0..n`: a value
/// drawn below `n`, which must be positive (an empty range panics).
#[verifier::external_body]
pub(crate) fn random_below(n: u64) -> (r: u64)
    requires
        n > 0,
    ensures
        r < n,
{
    rand::thread_rng().gen_range(0..n)
}

} // verus!
