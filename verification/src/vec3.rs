//! Vectors of three numbers.
//!
//! A vector here is a value to carry, to take apart, to turn round and to
//! test for being close to nothing. Sums and products round, and are formed
//! by whoever holds the arithmetic.

use crate::scalar::{Scalar, ZERO};
use vstd::prelude::*;
use vstd::std_specs::cmp::PartialEqSpecImpl;

verus! {

/// The pattern of 1e-8: a component whose absolute value is below it counts
/// as zero.
pub const NEAR_ZERO: u64 = 0x3e45_798e_e230_8c3a;

/// A vector in space.
#[derive(Clone, Copy, Debug)]
pub struct Vec3(pub Scalar, pub Scalar, pub Scalar);

/// Whether the absolute value of `s` is below 1e-8.
pub open spec fn tiny(s: Scalar) -> bool {
    s.abs_spec().lt_spec(Scalar::of(NEAR_ZERO))
}

impl Vec3 {
    /// The vector whose components are all zero.
    pub open spec fn zero() -> Vec3 {
        Vec3(Scalar::of(ZERO), Scalar::of(ZERO), Scalar::of(ZERO))
    }

    /// The components are equal as numbers, each to each.
    pub open spec fn equal_spec(self, other: Vec3) -> bool {
        self.0.equal_spec(other.0) && self.1.equal_spec(other.1) && self.2.equal_spec(other.2)
    }

    /// Every component is close to zero.
    pub open spec fn near_zero_spec(self) -> bool {
        tiny(self.0) && tiny(self.1) && tiny(self.2)
    }

    /// Every component with the opposite sign.
    pub open spec fn neg_spec(self) -> Vec3 {
        Vec3(self.0.neg_spec(), self.1.neg_spec(), self.2.neg_spec())
    }

    pub fn new(x: Scalar, y: Scalar, z: Scalar) -> (v: Vec3)
        ensures
            v == Vec3(x, y, z),
    {
        Vec3(x, y, z)
    }

    pub fn x(&self) -> (r: Scalar)
        ensures
            r == self.0,
    {
        self.0
    }

    pub fn y(&self) -> (r: Scalar)
        ensures
            r == self.1,
    {
        self.1
    }

    pub fn z(&self) -> (r: Scalar)
        ensures
            r == self.2,
    {
        self.2
    }

    /// The component at `index`: 0, 1 or 2.
    pub fn index(&self, index: usize) -> (r: Scalar)
        requires
            index < 3,
        ensures
            index == 0 ==> r == self.0,
            index == 1 ==> r == self.1,
            index == 2 ==> r == self.2,
    {
        if index == 0 {
            self.0
        } else if index == 1 {
            self.1
        } else {
            self.2
        }
    }

    /// Checks whether the vector is close to zero in every direction. A
    /// component that is not a number is not close to anything.
    pub fn near_zero(&self) -> (r: bool)
        ensures
            r == self.near_zero_spec(),
    {
        let s = Scalar::from_bits(NEAR_ZERO);
        self.0.abs().lt(s) && self.1.abs().lt(s) && self.2.abs().lt(s)
    }

    /// The opposite vector. Exact: only sign bits change.
    pub fn neg(self) -> (r: Vec3)
        ensures
            r == self.neg_spec(),
    {
        Vec3(self.0.neg(), self.1.neg(), self.2.neg())
    }
}

impl PartialEq for Vec3 {
    /// Equality of the components as numbers.
    fn eq(&self, other: &Vec3) -> (r: bool) {
        self.0.equals(other.0) && self.1.equals(other.1) && self.2.equals(other.2)
    }
}

impl PartialEqSpecImpl for Vec3 {
    open spec fn obeys_eq_spec() -> bool {
        true
    }

    open spec fn eq_spec(&self, other: &Vec3) -> bool {
        self.equal_spec(*other)
    }
}

impl Default for Vec3 {
    /// The vector whose components are all zero.
    fn default() -> (r: Vec3)
        ensures
            r == Vec3::zero(),
    {
        let zero = Scalar::from_bits(ZERO);
        Vec3(zero, zero, zero)
    }
}

} // verus!
