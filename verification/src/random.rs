//! The pseudo-random source of the pattern generators.

use vstd::prelude::*;
use rand::rngs::SmallRng;
use rand::{Rng, SeedableRng};

verus! {

/// `rand::rngs::SmallRng`, a small fast generator whose state Verus does not
/// look into.
#[verifier::external_type_specification]
#[verifier::external_body]
pub struct ExSmallRng(rand::rngs::SmallRng);

/// `SeedableRng::seed_from_u64` on `SmallRng`: a generator seeded with `seed`.
/// Nothing is claimed of its state.
#[verifier::external_body]
pub(crate) fn seeded(seed: u64) -> SmallRng {
    SmallRng::seed_from_u64(seed)
}

/// `Rng::gen_range` on `SmallRng` with a half-open range of `u32`: some value
/// from `low` up to, and not including, `high`. The call panics on an empty
/// range, which `requires` leaves out. Which value comes depends on the
/// generator's state, of which nothing is claimed.
#[verifier::external_body]
pub(crate) fn next_in_range(rng: &mut SmallRng, low: u32, high: u32) -> (r: u32)
    requires
        low < high,
    ensures
        low <= r < high,
{
    rng.gen_range(low..high)
}

} // verus!
