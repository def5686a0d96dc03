//! Support mapping based plane shape.

use crate::math::rescale;
use crate::math::Vec3;
use crate::math::COORD_MAX;
use crate::math::UNIT;
use vstd::prelude::*;

verus! {

/// Implicit description of a plane through the origin of its own frame.
#[derive(Clone, Copy, Debug, PartialEq, Eq, Structural)]
pub struct Plane {
    /// The plane normal.
    pub normal: Vec3,
}

impl Plane {
    /// Builds a new plane from its normal, which is brought to the length of
    /// one unit. A normal without length is left as it is.
    pub fn new(normal: Vec3) -> (p: Plane)
        requires
            normal.within(2 * COORD_MAX),
        ensures
            p.normal == rescale(normal, UNIT as int),
            p.normal.within(UNIT as int),
    {
        Plane::new_normalized(normal.rescaled(UNIT))
    }

    /// Builds a new plane from a normal that has the length of one unit
    /// already.
    pub fn new_normalized(normal: Vec3) -> (p: Plane)
        requires
            normal.within(UNIT as int),
        ensures
            p.normal == normal,
    {
        Plane { normal }
    }

    /// The plane normal.
    pub fn normal(&self) -> (n: Vec3)
        ensures
            n == self.normal,
    {
        self.normal
    }
}

} // verus!
