//! The choices that lay out a scene of many small spheres.
//!
//! The scene has a few large spheres and a field of small ones, one to each
//! cell of a square grid, each with a material that a random draw picks.

use crate::scalar::Scalar;
use vstd::prelude::*;

verus! {

/// The pattern of 0.8: draws below it give a matte sphere.
pub const MATTE_SHARE: u64 = 0x3fe9_9999_9999_999a;

/// The pattern of 0.95: draws below it, and not below 0.8, give a metal
/// sphere.
pub const METAL_SHARE: u64 = 0x3fee_6666_6666_6666;

/// The pattern of 1.2: a small sphere whose center is as close as this to
/// the center of a large one, or closer, is left out.
pub const CLEARANCE: u64 = 0x3ff3_3333_3333_3333;

/// The materials that a small sphere can be made of.
#[derive(Clone, Copy, Debug, PartialEq, Eq, Structural)]
pub enum Finish {
    Matte,
    Metal,
    Glass,
}

/// The finish that goes with a draw from 0 up to 1.
pub open spec fn finish_spec(draw: Scalar) -> Finish {
    if draw.lt_spec(Scalar::of(MATTE_SHARE)) {
        Finish::Matte
    } else if draw.lt_spec(Scalar::of(METAL_SHARE)) {
        Finish::Metal
    } else {
        Finish::Glass
    }
}

/// The finish of a small sphere: matte for four draws in five, metal for
/// three in twenty, glass for the rest.
pub fn finish(draw: Scalar) -> (f: Finish)
    ensures
        f == finish_spec(draw),
{
    if draw.lt(Scalar::from_bits(MATTE_SHARE)) {
        Finish::Matte
    } else if draw.lt(Scalar::from_bits(METAL_SHARE)) {
        Finish::Metal
    } else {
        Finish::Glass
    }
}

/// Whether a small sphere is left out: `distance` is that of its center from
/// the center of a large sphere.
pub fn crowds(distance: Scalar) -> (r: bool)
    ensures
        r == distance.le_spec(Scalar::of(CLEARANCE)),
{
    distance.le(Scalar::from_bits(CLEARANCE))
}

} // verus!
