//! Colour matching for a ring of beacons.
//!
//! Markers stand evenly spaced on a circle.  Each one is snapped to the
//! nearest lattice point within a band of distances and is given a stack of
//! four stained-glass blocks, chosen from a palette of sixteen, whose blended
//! colour lies closest to the hue wanted at that angle.
//!
//! Everything in this crate works on integers.  Quantities that are real
//! numbers elsewhere (a deviation from the ideal ray, a perceptual distance)
//! are carried as the bit pattern of a non-negative IEEE-754 number, and such
//! patterns compare as unsigned integers exactly as the numbers they stand for.

pub mod palette;
pub mod names;
pub mod blend;
pub mod combination;
pub mod enumeration;
pub mod index;
pub mod perceptual;
pub mod minimum;
pub mod resolver;
pub mod lattice;
pub mod ring;
