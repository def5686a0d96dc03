//! Support mapping based ball shape.

use crate::implicit::Implicit;
use crate::math::lemma_rescale_in_range;
use crate::math::max_abs;
use crate::math::rescale;
use crate::math::Isometry;
use crate::math::Vec3;
use crate::math::COORD_MAX;
use vstd::prelude::*;

verus! {

/// A ball: a point, its centre, with a margin as wide as its radius.
#[derive(Clone, Copy, Debug, PartialEq, Eq, Structural)]
pub struct Ball {
    pub radius: i64,
}

impl Ball {
    /// Creates a new ball from its radius.
    pub fn new(radius: i64) -> (b: Ball)
        ensures
            b == (Ball { radius }),
    {
        Ball { radius }
    }

    /// The ball radius.
    pub fn radius(&self) -> (r: i64)
        ensures
            r == self.radius,
    {
        self.radius
    }

    /// How far the ball placed by `m` reaches from the origin along an axis.
    pub fn extent_of(&self, m: &Isometry) -> (e: i64)
        requires
            self.wf(m),
        ensures
            e == self.extent(m),
            0 <= e <= COORD_MAX,
    {
        let t: Vec3 = m.translation;
        let x: i64 = if t.x < 0 {
            -t.x
        } else {
            t.x
        };
        let y: i64 = if t.y < 0 {
            -t.y
        } else {
            t.y
        };
        let z: i64 = if t.z < 0 {
            -t.z
        } else {
            t.z
        };
        let most: i64 = if x >= y && x >= z {
            x
        } else if y >= z {
            y
        } else {
            z
        };
        most + self.radius
    }

    /// Whether the ball placed by `m` lies within the range of the lattice,
    /// with room for a second shape that reaches as far as `other` from the
    /// origin.
    pub fn fits(&self, m: &Isometry, other: i64) -> (b: bool)
        requires
            0 <= other,
        ensures
            b == (self.wf(m) && self.extent(m) + other <= COORD_MAX),
    {
        let t: Vec3 = m.translation;
        self.radius >= 0 && other <= COORD_MAX && self.radius <= COORD_MAX - other && t.is_within(
            COORD_MAX - self.radius - other,
        )
    }
}

impl Implicit<Vec3, Isometry> for Ball {
    open spec fn wf(&self, m: &Isometry) -> bool {
        &&& 0 <= self.radius
        &&& max_abs(m.translation) + self.radius <= COORD_MAX
    }

    open spec fn extent(&self, m: &Isometry) -> int {
        max_abs(m.translation) + self.radius
    }

    open spec fn margin_spec(&self) -> int {
        self.radius as int
    }

    open spec fn support_point_spec(&self, m: &Isometry, dir: Vec3) -> Vec3 {
        m.translation.add_spec(rescale(dir, self.radius as int))
    }

    open spec fn support_point_without_margin_spec(&self, m: &Isometry, dir: Vec3) -> Vec3 {
        m.translation
    }

    proof fn lemma_support_in_range(&self, m: &Isometry, dir: Vec3) {
        lemma_rescale_in_range(dir, self.radius as int);
    }

    fn margin(&self) -> (r: i64) {
        self.radius
    }

    fn support_point(&self, m: &Isometry, dir: &Vec3) -> (p: Vec3) {
        let offset: Vec3 = dir.rescaled(self.radius);
        m.translation.add(&offset)
    }

    fn support_point_without_margin(&self, m: &Isometry, dir: &Vec3) -> (p: Vec3) {
        m.translation
    }
}

} // verus!
