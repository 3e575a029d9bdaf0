//! Block colours. The library never looks inside a colour: it stores the
//! value a caller hands in and copies it into the mesh buffers unchanged.

use vstd::prelude::*;
use bevy::color::Color;
use rand::rngs::StdRng;

verus! {

/// `bevy::color::Color`, carried through by value and never inspected.
#[verifier::external_type_specification]
#[verifier::external_body]
pub struct ExColor(bevy::color::Color);

/// `rand::rngs::StdRng`, the seeded generator that terrain colours are drawn
/// from.
#[verifier::external_type_specification]
#[verifier::external_body]
pub struct ExStdRng(rand::rngs::StdRng);

/// Returns the constant `bevy::color::Color::WHITE`. Nothing is claimed of
/// the value.
#[verifier::external_body]
pub(crate) fn white() -> (color: Color) {
    Color::WHITE
}

/// Draws three channel values with `rand::Rng::random` and hands them to
/// `bevy::color::Color::srgb`. The colour depends on the generator's state,
/// so nothing is claimed of it.
#[verifier::external_body]
pub(crate) fn random_color(rng: &mut StdRng) -> (color: Color) {
    Color::srgb(rand::Rng::random(rng), rand::Rng::random(rng), rand::Rng::random(rng))
}

} // verus!
