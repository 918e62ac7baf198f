//! The pseudo-random source of the sequential annealers: tinyrand's Wyrand.

use vstd::prelude::*;
use tinyrand::{Probability, Rand, Seeded, Wyrand};

verus! {

#[verifier::external_type_specification]
#[verifier::external_body]
pub struct ExWyrand(Wyrand);

#[verifier::external_type_specification]
#[verifier::external_body]
pub struct ExProbability(Probability);

/// Relies on tinyrand's `Seeded::seed` for `Wyrand`: a generator whose stream
/// is fixed by `seed`.
#[verifier::external_body]
pub(crate) fn seeded(seed: u64) -> (r: Wyrand) {
    <Wyrand as Seeded>::seed(seed)
}

/// Relies on tinyrand's `Rand::next_bool`: takes one number from the stream
/// and answers `true` with probability `p`.
#[verifier::external_body]
pub(crate) fn next_bool(rng: &mut Wyrand, p: Probability) -> (r: bool) {
    rng.next_bool(p)
}

} // verus!
