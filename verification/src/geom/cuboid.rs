//! Support mapping based box shape.

use crate::implicit::is_support_of;
use crate::implicit::Implicit;
use crate::math::dot;
use crate::math::max_abs;
use crate::math::AlgebraicVec;
use crate::math::Isometry;
use crate::math::Rotation;
use crate::math::Vec3;
use crate::math::COORD_MAX;
use vstd::prelude::*;

verus! {

/// The half width `h` along an axis, on the side to which `d` points.
pub open spec fn towards(d: i64, h: i64) -> int {
    if d < 0 {
        -h
    } else {
        h as int
    }
}

/// A box with its sides along the axes, without margin. It can be moved,
/// and cannot be turned.
#[derive(Clone, Copy, Debug, PartialEq, Eq, Structural)]
pub struct Cuboid {
    pub half_extents: Vec3,
}

impl Cuboid {
    /// Creates a new box from its half widths along the three axes.
    pub fn new(half_extents: Vec3) -> (c: Cuboid)
        ensures
            c == (Cuboid { half_extents }),
    {
        Cuboid { half_extents }
    }

    /// The half widths of the box along the three axes.
    pub fn half_extents(&self) -> (h: Vec3)
        ensures
            h == self.half_extents,
    {
        self.half_extents
    }

    /// The point `p` lies in the box placed by `m`.
    pub open spec fn holds(&self, m: &Isometry, p: Vec3) -> bool {
        &&& m.translation.x - self.half_extents.x <= p.x <= m.translation.x + self.half_extents.x
        &&& m.translation.y - self.half_extents.y <= p.y <= m.translation.y + self.half_extents.y
        &&& m.translation.z - self.half_extents.z <= p.z <= m.translation.z + self.half_extents.z
    }

    /// The corner of the box placed by `m` that lies farthest along `dir`.
    pub open spec fn corner(&self, m: &Isometry, dir: Vec3) -> Vec3 {
        Vec3 {
            x: (m.translation.x + towards(dir.x, self.half_extents.x)) as i64,
            y: (m.translation.y + towards(dir.y, self.half_extents.y)) as i64,
            z: (m.translation.z + towards(dir.z, self.half_extents.z)) as i64,
        }
    }

    /// Whether the box placed by `m` lies within the range of the lattice,
    /// with room for a second shape that reaches as far as `other` from the
    /// origin.
    pub fn fits(&self, m: &Isometry, other: i64) -> (b: bool)
        requires
            0 <= other,
        ensures
            b == (self.wf(m) && self.extent(m) + other <= COORD_MAX),
    {
        let h: Vec3 = self.half_extents;
        if !(m.rotation.w == crate::math::UNIT && m.rotation.i == 0 && m.rotation.j == 0
            && m.rotation.k == 0) {
            return false;
        }
        if other > COORD_MAX || h.x < 0 || h.y < 0 || h.z < 0 || !h.is_within(COORD_MAX - other) {
            return false;
        }
        let most: i64 = if h.x >= h.y && h.x >= h.z {
            h.x
        } else if h.y >= h.z {
            h.y
        } else {
            h.z
        };
        m.translation.is_within(COORD_MAX - other - most)
    }

    /// How far the box placed by `m` reaches from the origin along an axis.
    pub fn extent_of(&self, m: &Isometry) -> (e: i64)
        requires
            self.wf(m),
        ensures
            e == self.extent(m),
            0 <= e <= COORD_MAX,
    {
        let t: Vec3 = m.translation;
        let h: Vec3 = self.half_extents;
        let reach_x: i64 = if t.x < 0 {
            -t.x
        } else {
            t.x
        };
        let reach_y: i64 = if t.y < 0 {
            -t.y
        } else {
            t.y
        };
        let reach_z: i64 = if t.z < 0 {
            -t.z
        } else {
            t.z
        };
        let reach: i64 = if reach_x >= reach_y && reach_x >= reach_z {
            reach_x
        } else if reach_y >= reach_z {
            reach_y
        } else {
            reach_z
        };
        let most: i64 = if h.x >= h.y && h.x >= h.z {
            h.x
        } else if h.y >= h.z {
            h.y
        } else {
            h.z
        };
        reach + most
    }

    /// The support function of a box is exact: no point of the box lies
    /// farther along `dir` than its support point.
    pub proof fn lemma_support_is_farthest(&self, m: &Isometry, dir: Vec3, p: Vec3)
        requires
            self.wf(m),
            self.holds(m, p),
        ensures
            dot(dir, p) <= dot(dir, self.support_point_spec(m, dir)),
            self.holds(m, self.support_point_spec(m, dir)),
    {
        let s = self.corner(m, dir);
        assert(dir.x * p.x <= dir.x * s.x) by (nonlinear_arith)
            requires
                dir.x < 0 ==> p.x >= s.x,
                dir.x >= 0 ==> p.x <= s.x,
        ;
        assert(dir.y * p.y <= dir.y * s.y) by (nonlinear_arith)
            requires
                dir.y < 0 ==> p.y >= s.y,
                dir.y >= 0 ==> p.y <= s.y,
        ;
        assert(dir.z * p.z <= dir.z * s.z) by (nonlinear_arith)
            requires
                dir.z < 0 ==> p.z >= s.z,
                dir.z >= 0 ==> p.z <= s.z,
        ;
    }
}

/// The support function of a box is exact on the points of the box.
pub proof fn lemma_cuboid_support_is_exact(c: &Cuboid, m: &Isometry)
    requires
        c.wf(m),
    ensures
        is_support_of(c, m, |p: Vec3| c.holds(m, p)),
{
    assert forall|dir: Vec3, p: Vec3| dir.wf() && c.holds(m, p) implies #[trigger] dot(dir, p)
        <= dot(dir, c.support_point_without_margin_spec(m, dir)) by {
        c.lemma_support_is_farthest(m, dir, p);
    }
}

impl Implicit<Vec3, Isometry> for Cuboid {
    open spec fn wf(&self, m: &Isometry) -> bool {
        &&& m.rotation == Rotation::identity_spec()
        &&& 0 <= self.half_extents.x
        &&& 0 <= self.half_extents.y
        &&& 0 <= self.half_extents.z
        &&& max_abs(m.translation) + max_abs(self.half_extents) <= COORD_MAX
    }

    open spec fn extent(&self, m: &Isometry) -> int {
        max_abs(m.translation) + max_abs(self.half_extents)
    }

    open spec fn margin_spec(&self) -> int {
        0
    }

    open spec fn support_point_spec(&self, m: &Isometry, dir: Vec3) -> Vec3 {
        self.corner(m, dir)
    }

    open spec fn support_point_without_margin_spec(&self, m: &Isometry, dir: Vec3) -> Vec3 {
        self.corner(m, dir)
    }

    proof fn lemma_support_in_range(&self, m: &Isometry, dir: Vec3) {
    }

    fn margin(&self) -> (r: i64) {
        0
    }

    fn support_point(&self, m: &Isometry, dir: &Vec3) -> (p: Vec3) {
        self.support_point_without_margin(m, dir)
    }

    fn support_point_without_margin(&self, m: &Isometry, dir: &Vec3) -> (p: Vec3) {
        let h: Vec3 = self.half_extents;
        let x: i64 = if dir.x < 0 {
            -h.x
        } else {
            h.x
        };
        let y: i64 = if dir.y < 0 {
            -h.y
        } else {
            h.y
        };
        let z: i64 = if dir.z < 0 {
            -h.z
        } else {
            h.z
        };
        Vec3 { x: m.translation.x + x, y: m.translation.y + y, z: m.translation.z + z }
    }
}

} // verus!
