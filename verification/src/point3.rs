//! Points in space.
//!
//! A point is a position, a vector is a displacement. The two are different
//! types, so that no operation can take one for the other: there is no way
//! to add two points.

use crate::scalar::Scalar;
use crate::vec3::Vec3;
use vstd::prelude::*;
use vstd::std_specs::cmp::PartialEqSpecImpl;

verus! {

/// A point in space: the vector that leads to it from the origin.
#[derive(Clone, Copy, Debug)]
pub struct Point3(pub Vec3);

impl Point3 {
    pub fn new(x: Scalar, y: Scalar, z: Scalar) -> (p: Point3)
        ensures
            p == Point3(Vec3(x, y, z)),
    {
        Point3(Vec3::new(x, y, z))
    }
}

impl PartialEq for Point3 {
    /// Equality of the coordinates as numbers.
    fn eq(&self, other: &Point3) -> (r: bool) {
        self.0 == other.0
    }
}

impl PartialEqSpecImpl for Point3 {
    open spec fn obeys_eq_spec() -> bool {
        true
    }

    open spec fn eq_spec(&self, other: &Point3) -> bool {
        self.0.equal_spec(other.0)
    }
}

impl Default for Point3 {
    /// The origin.
    fn default() -> (r: Point3)
        ensures
            r == Point3(Vec3::zero()),
    {
        Point3(Vec3::default())
    }
}

} // verus!
