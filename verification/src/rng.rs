//! Trusted boundary to the `rand` crate: a seedable generator and uniform
//! sampling of distinct cell indices without replacement.

use vstd::prelude::*;

verus! {

#[verifier::external_type_specification]
#[verifier::external_body]
pub struct ExStdRng(rand::rngs::StdRng);

/// Relies on rand's `SeedableRng::seed_from_u64` for `StdRng`: builds a
/// generator from the seed. Nothing is assumed of the values it will yield.
#[verifier::external_body]
pub fn seeded_rng(seed: u64) -> rand::rngs::StdRng {
    rand::SeedableRng::seed_from_u64(seed)
}

/// Relies on `rand::seq::index::sample`, which returns exactly `amount`
/// distinct indices drawn uniformly from `0..length` and panics when
/// `amount > length` (excluded here by `requires`). Which indices come back
/// depends on the generator's state, so only their count, range and
/// distinctness are stated.
#[verifier::external_body]
pub(crate) fn sample_indices(rng: &mut rand::rngs::StdRng, length: usize, amount: usize) -> (r:
    Vec<usize>)
    requires
        amount <= length,
    ensures
        r@.len() == amount,
        forall|i: int| 0 <= i < r@.len() ==> r@[i] < length,
        forall|i: int, j: int| 0 <= i < j < r@.len() ==> r@[i] != r@[j],
{
    rand::seq::index::sample(rng, length, amount).into_vec()
}

} // verus!
