//! Points of a sum of two shapes that remember where they came from.

use crate::math::bary;
use crate::math::lemma_bary_in_range;
use crate::math::AlgebraicVec;
use crate::math::Vec3;
use crate::math::COORD_MAX;
use vstd::prelude::*;

verus! {

/// A point of the sum of two shapes, with the points of the two shapes that
/// it is the sum of.
#[derive(Clone, Copy, Debug, PartialEq, Eq, Structural)]
pub struct AnnotatedPoint {
    pub orig1: Vec3,
    pub orig2: Vec3,
    pub point: Vec3,
}

impl AnnotatedPoint {
    /// The sum of `orig1` and `orig2`, annotated with both.
    pub fn new(orig1: Vec3, orig2: Vec3) -> (p: AnnotatedPoint)
        requires
            orig1.within(COORD_MAX as int),
            orig2.within(COORD_MAX as int),
        ensures
            p == (AnnotatedPoint { orig1, orig2, point: orig1.add_spec(orig2) }),
            p.point.x == orig1.x + orig2.x,
            p.point.y == orig1.y + orig2.y,
            p.point.z == orig1.z + orig2.z,
    {
        AnnotatedPoint { orig1, orig2, point: orig1.add(&orig2) }
    }

    /// The point `point` without the points that it is the sum of: a
    /// direction, or a point that is its own origin.
    pub fn new_invalid(point: Vec3) -> (p: AnnotatedPoint)
        ensures
            p == AnnotatedPoint::invalid(point),
    {
        AnnotatedPoint { orig1: Vec3::zero(), orig2: Vec3::zero(), point }
    }

    /// The point `point` without the points that it is the sum of.
    pub open spec fn invalid(point: Vec3) -> AnnotatedPoint {
        AnnotatedPoint {
            orig1: Vec3 { x: 0, y: 0, z: 0 },
            orig2: Vec3 { x: 0, y: 0, z: 0 },
            point,
        }
    }

    /// The point of the first shape.
    pub fn orig1(&self) -> (p: Vec3)
        ensures
            p == self.orig1,
    {
        self.orig1
    }

    /// The point of the second shape.
    pub fn orig2(&self) -> (p: Vec3)
        ensures
            p == self.orig2,
    {
        self.orig2
    }
}

impl AlgebraicVec for AnnotatedPoint {
    open spec fn wf(&self) -> bool {
        &&& self.orig1.within(COORD_MAX as int)
        &&& self.orig2.within(COORD_MAX as int)
        &&& self.point.within(COORD_MAX as int)
    }

    open spec fn point_spec(&self) -> Vec3 {
        self.point
    }

    open spec fn neg_spec(&self) -> AnnotatedPoint {
        AnnotatedPoint {
            orig1: self.orig1.opposite(),
            orig2: self.orig2.opposite(),
            point: self.point.opposite(),
        }
    }

    open spec fn combine_spec(
        a: AnnotatedPoint,
        b: AnnotatedPoint,
        c: AnnotatedPoint,
        d: AnnotatedPoint,
        wa: int,
        wb: int,
        wc: int,
        wd: int,
    ) -> AnnotatedPoint {
        AnnotatedPoint {
            orig1: bary(a.orig1, b.orig1, c.orig1, d.orig1, wa, wb, wc, wd),
            orig2: bary(a.orig2, b.orig2, c.orig2, d.orig2, wa, wb, wc, wd),
            point: bary(a.point, b.point, c.point, d.point, wa, wb, wc, wd),
        }
    }

    open spec fn dim_spec() -> nat {
        3
    }

    proof fn lemma_point_in_range(&self) {
    }

    proof fn lemma_neg(&self) {
    }

    proof fn lemma_combine(
        a: AnnotatedPoint,
        b: AnnotatedPoint,
        c: AnnotatedPoint,
        d: AnnotatedPoint,
        wa: int,
        wb: int,
        wc: int,
        wd: int,
    ) {
        lemma_bary_in_range(a.orig1, b.orig1, c.orig1, d.orig1, wa, wb, wc, wd);
        lemma_bary_in_range(a.orig2, b.orig2, c.orig2, d.orig2, wa, wb, wc, wd);
        lemma_bary_in_range(a.point, b.point, c.point, d.point, wa, wb, wc, wd);
    }

    fn dim() -> (d: usize) {
        3
    }

    fn point(&self) -> (p: Vec3) {
        self.point
    }

    fn neg(&self) -> (r: AnnotatedPoint) {
        AnnotatedPoint {
            orig1: self.orig1.reversed(),
            orig2: self.orig2.reversed(),
            point: self.point.reversed(),
        }
    }

    fn combine(
        a: &AnnotatedPoint,
        b: &AnnotatedPoint,
        c: &AnnotatedPoint,
        d: &AnnotatedPoint,
        wa: u128,
        wb: u128,
        wc: u128,
        wd: u128,
    ) -> (r: AnnotatedPoint) {
        AnnotatedPoint {
            orig1: Vec3::weighted_mean(&a.orig1, &b.orig1, &c.orig1, &d.orig1, wa, wb, wc, wd),
            orig2: Vec3::weighted_mean(&a.orig2, &b.orig2, &c.orig2, &d.orig2, wa, wb, wc, wd),
            point: Vec3::weighted_mean(&a.point, &b.point, &c.point, &d.point, wa, wb, wc, wd),
        }
    }
}

} // verus!
