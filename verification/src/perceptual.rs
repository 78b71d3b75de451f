//! Conversion from sRGB to the perceptual colour space.

use vstd::prelude::*;
use crate::palette::Rgb;

verus! {

/// A colour in the perceptual space: lightness and two chroma axes, each
/// carried as the bit pattern of a single-precision number.
#[derive(Clone, Copy, Debug, PartialEq, Eq, Structural)]
pub struct PerceptualColor {
    pub l: u32,
    pub a: u32,
    pub b: u32,
}

/// The perceptual coordinates of an sRGB colour, as bit patterns.
pub uninterp spec fn oklab_bits(r: u8, g: u8, b: u8) -> (u32, u32, u32);

/// Calls `oklab::srgb_to_oklab`.  The result depends on the three channels
/// alone; the contract gives it a name and says nothing else about it.
#[verifier::external_body]
fn srgb_to_oklab_bits(r: u8, g: u8, b: u8) -> (bits: (u32, u32, u32))
    ensures
        bits == oklab_bits(r, g, b),
{
    let lab = oklab::srgb_to_oklab(oklab::Rgb { r, g, b });
    (lab.l.to_bits(), lab.a.to_bits(), lab.b.to_bits())
}

/// Converts an sRGB colour to the perceptual space.
pub fn to_perceptual(color: Rgb) -> (lab: PerceptualColor)
    ensures
        (lab.l, lab.a, lab.b) == oklab_bits(color.r, color.g, color.b),
{
    let (l, a, b) = srgb_to_oklab_bits(color.r, color.g, color.b);
    PerceptualColor { l, a, b }
}

} // verus!
