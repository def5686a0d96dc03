//! The sum of two shapes.

use crate::geom::annotated_point::AnnotatedPoint;
use crate::implicit::Implicit;
use crate::math::saturating_sum;
use crate::math::saturating_sum_exec;
use crate::math::Vec3;
use crate::math::COORD_MAX;
use vstd::prelude::*;

verus! {

/// The placement that leaves a shape where it is.
#[derive(Clone, Copy, Debug)]
pub struct Identity {}

impl Identity {
    pub fn new() -> (m: Identity) {
        Identity {  }
    }
}

/// The sum of the shape `g1` placed by `m1` and the shape `g2` placed by
/// `m2`: the set of the sums of a point of each. Its support points remember
/// the points of the two shapes that they are the sum of.
pub struct AnnotatedMinkowskiSum<'a, M, G1, G2> {
    pub m1: &'a M,
    pub g1: &'a G1,
    pub m2: &'a M,
    pub g2: &'a G2,
}

impl<'a, M, G1, G2> AnnotatedMinkowskiSum<'a, M, G1, G2> {
    /// The sum of `g1` placed by `m1` and `g2` placed by `m2`.
    pub fn new(m1: &'a M, g1: &'a G1, m2: &'a M, g2: &'a G2) -> (s: AnnotatedMinkowskiSum<
        'a,
        M,
        G1,
        G2,
    >)
        ensures
            s == (AnnotatedMinkowskiSum { m1, g1, m2, g2 }),
    {
        AnnotatedMinkowskiSum { m1, g1, m2, g2 }
    }
}

impl<'a, M, G1: Implicit<Vec3, M>, G2: Implicit<Vec3, M>> Implicit<
    AnnotatedPoint,
    Identity,
> for AnnotatedMinkowskiSum<'a, M, G1, G2> {
    open spec fn wf(&self, m: &Identity) -> bool {
        &&& self.g1.wf(self.m1)
        &&& self.g2.wf(self.m2)
        &&& self.g1.extent(self.m1) + self.g2.extent(self.m2) <= COORD_MAX
    }

    open spec fn extent(&self, m: &Identity) -> int {
        self.g1.extent(self.m1) + self.g2.extent(self.m2)
    }

    open spec fn margin_spec(&self) -> int {
        saturating_sum(self.g1.margin_spec(), self.g2.margin_spec())
    }

    open spec fn support_point_spec(&self, m: &Identity, dir: AnnotatedPoint) -> AnnotatedPoint {
        let orig1 = self.g1.support_point_spec(self.m1, dir.point);
        let orig2 = self.g2.support_point_spec(self.m2, dir.point);
        AnnotatedPoint { orig1, orig2, point: orig1.add_spec(orig2) }
    }

    open spec fn support_point_without_margin_spec(
        &self,
        m: &Identity,
        dir: AnnotatedPoint,
    ) -> AnnotatedPoint {
        let orig1 = self.g1.support_point_without_margin_spec(self.m1, dir.point);
        let orig2 = self.g2.support_point_without_margin_spec(self.m2, dir.point);
        AnnotatedPoint { orig1, orig2, point: orig1.add_spec(orig2) }
    }

    proof fn lemma_support_in_range(&self, m: &Identity, dir: AnnotatedPoint) {
        self.g1.lemma_support_in_range(self.m1, dir.point);
        self.g2.lemma_support_in_range(self.m2, dir.point);
    }

    fn margin(&self) -> (r: i64) {
        saturating_sum_exec(self.g1.margin(), self.g2.margin())
    }

    fn support_point(&self, m: &Identity, dir: &AnnotatedPoint) -> (p: AnnotatedPoint) {
        let orig1: Vec3 = self.g1.support_point(self.m1, &dir.point);
        let orig2: Vec3 = self.g2.support_point(self.m2, &dir.point);
        AnnotatedPoint::new(orig1, orig2)
    }

    fn support_point_without_margin(&self, m: &Identity, dir: &AnnotatedPoint) -> (p:
        AnnotatedPoint) {
        let orig1: Vec3 = self.g1.support_point_without_margin(self.m1, &dir.point);
        let orig2: Vec3 = self.g2.support_point_without_margin(self.m2, &dir.point);
        AnnotatedPoint::new(orig1, orig2)
    }
}

} // verus!
