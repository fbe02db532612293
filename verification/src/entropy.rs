//! The source of random bits that seeds a machine for operational use.

use rand::rngs::StdRng;
use rand::Rng;
use vstd::prelude::*;

verus! {

/// `rand::rngs::StdRng`, the generator that wheels are seeded from. Its state
/// is opaque to the proofs.
#[verifier::external_type_specification]
#[verifier::external_body]
pub struct ExStdRng(StdRng);

/// One bit from `rand::Rng::gen::<bool>`, which tests the top bit of the
/// generator's next 32-bit word and so always returns. Nothing is claimed of
/// the bit: whatever is built from it is proved for both values.
#[verifier::external_body]
pub(crate) fn random_bit(rng: &mut StdRng) -> (bit: bool) {
    rng.gen()
}

} // verus!
