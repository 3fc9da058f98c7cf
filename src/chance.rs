use vstd::prelude::*;

verus! {

/// Relies on rand's `Rng::gen_range` on `thread_rng`: a number drawn from
/// `0..n`, which must not be empty (it panics on an empty range).
#[verifier::external_body]
pub(crate) fn random_below(n: usize) -> (r: usize)
    requires
        n > 0,
    ensures
        r < n,
{
    rand::Rng::gen_range(&mut rand::thread_rng(), 0..n)
}

} // verus!
