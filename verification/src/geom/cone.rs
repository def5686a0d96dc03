//! Support mapping based cone shape.

use vstd::prelude::*;

verus! {

/// The margin of a cone that is made without one: four hundredths of a unit
/// of length, in lattice steps.
pub const DEFAULT_CONE_MARGIN: i64 = 164;

/// Implicit description of a cone shape with its principal axis aligned with
/// the `x` axis.
#[derive(Clone, Copy, Debug, PartialEq, Eq, Structural)]
pub struct Cone {
    pub half_height: i64,
    pub radius: i64,
    pub margin: i64,
}

impl Cone {
    /// Creates a new cone.
    ///
    /// * `half_height` - the half length of the cone along the `x` axis.
    /// * `radius` - the length of the cone along all other axis.
    pub fn new(half_height: i64, radius: i64) -> (c: Cone)
        requires
            half_height > 0,
            radius > 0,
        ensures
            c == (Cone { half_height, radius, margin: DEFAULT_CONE_MARGIN }),
    {
        Cone::new_with_margin(half_height, radius, DEFAULT_CONE_MARGIN)
    }

    /// Creates a new cone with a custom margin.
    ///
    /// * `half_height` - the half length of the cone along the `x` axis.
    /// * `radius` - the length of the cone along all other axis.
    /// * `margin` - the cone margin.
    pub fn new_with_margin(half_height: i64, radius: i64, margin: i64) -> (c: Cone)
        requires
            half_height > 0,
            radius > 0,
        ensures
            c == (Cone { half_height, radius, margin }),
    {
        Cone { half_height, radius, margin }
    }

    /// The cone half length along the `x` axis.
    pub fn half_height(&self) -> (r: i64)
        ensures
            r == self.half_height,
    {
        self.half_height
    }

    /// The radius of the cone along all but the `x` axis.
    pub fn radius(&self) -> (r: i64)
        ensures
            r == self.radius,
    {
        self.radius
    }

    /// The margin around the cone.
    pub fn margin(&self) -> (r: i64)
        ensures
            r == self.margin,
    {
        self.margin
    }
}

} // verus!
