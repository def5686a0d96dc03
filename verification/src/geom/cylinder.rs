//! Support mapping based cylinder shape.

use vstd::prelude::*;

verus! {

/// The margin of a cylinder that is made without one: four hundredths of a
/// unit of length, in lattice steps.
pub const DEFAULT_CYLINDER_MARGIN: i64 = 164;

/// Implicit description of a cylinder shape with its principal axis aligned
/// with the `x` axis.
#[derive(Clone, Copy, Debug, PartialEq, Eq, Structural)]
pub struct Cylinder {
    pub half_height: i64,
    pub radius: i64,
    pub margin: i64,
}

impl Cylinder {
    /// Creates a new cylinder.
    ///
    /// * `half_height` - the half length of the cylinder along the `x` axis.
    /// * `radius` - the length of the cylinder along all other axis.
    pub fn new(half_height: i64, radius: i64) -> (c: Cylinder)
        requires
            half_height > 0,
            radius > 0,
        ensures
            c == (Cylinder { half_height, radius, margin: DEFAULT_CYLINDER_MARGIN }),
    {
        Cylinder::new_with_margin(half_height, radius, DEFAULT_CYLINDER_MARGIN)
    }

    /// Creates a new cylinder with a custom margin.
    ///
    /// * `half_height` - the half length of the cylinder along the `x` axis.
    /// * `radius` - the length of the cylinder along all other axis.
    /// * `margin` - the cylinder margin.
    pub fn new_with_margin(half_height: i64, radius: i64, margin: i64) -> (c: Cylinder)
        requires
            half_height > 0,
            radius > 0,
        ensures
            c == (Cylinder { half_height, radius, margin }),
    {
        Cylinder { half_height, radius, margin }
    }

    /// The cylinder half length along the `x` axis.
    pub fn half_height(&self) -> (r: i64)
        ensures
            r == self.half_height,
    {
        self.half_height
    }

    /// The radius of the cylinder along all but the `x` axis.
    pub fn radius(&self) -> (r: i64)
        ensures
            r == self.radius,
    {
        self.radius
    }

    /// Size of the margin around the cylinder.
    pub fn margin(&self) -> (r: i64)
        ensures
            r == self.margin,
    {
        self.margin
    }
}

} // verus!
