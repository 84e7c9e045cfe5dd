use rand::Rng;
use vstd::prelude::*;

verus! {

/// Relies on rand::Rng::gen_range, on the generator that rand::thread_rng
/// hands out: a value of `0..n`, drawn uniformly. It panics on an empty range.
#[verifier::external_body]
pub(crate) fn random_below(n: usize) -> (r: usize)
    requires
        n > 0,
    ensures
        r < n,
{
    rand::thread_rng().gen_range(0..n)
}

} // verus!
