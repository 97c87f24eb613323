use vstd::prelude::*;

verus! {

/// Draws a uniform random roll in `0..1000`, the per-mille scale on which
/// the intensity thresholds of the processes are expressed.
///
/// Relies on rand's `Rng::gen_range`: the draw lies within the given
/// half-open range, so it is strictly below 1000.
#[verifier::external_body]
pub fn roll_permille() -> (r: u64)
    ensures
        r < 1000,
{
    rand::Rng::gen_range(&mut rand::thread_rng(), 0u64..1000u64)
}

} // verus!
