//! The source of the instances' colors.

use vstd::prelude::*;

verus! {

/// The random generator type that colors are drawn from.
#[verifier::external_type_specification]
#[verifier::external_body]
pub struct ExStdRng(rand::StdRng);

/// Relies on `rand::Rng::next_u32` for `rand::StdRng`: any 32-bit value may come back,
/// read as a packed 0xRRGGBBAA color.
#[verifier::external_body]
pub(crate) fn next_color(rng: &mut rand::StdRng) -> (r: u32) {
    rand::Rng::next_u32(rng)
}

} // verus!
