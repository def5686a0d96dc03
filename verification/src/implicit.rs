//! Shapes described by their support function.

use crate::math::dot;
use crate::math::AlgebraicVec;
use crate::math::Vec3;
use vstd::prelude::*;

verus! {

/// A convex shape that is known through its support function: for a
/// direction, the point of the shape that lies farthest along it.
///
/// A shape is a core, grown on all sides by a margin. `V` is the type of the
/// points that the support function returns, `M` the type of the placement of
/// the shape in space.
pub trait Implicit<V: AlgebraicVec, M> {
    /// The shape, placed by `m`, lies within the range of the lattice.
    spec fn wf(&self, m: &M) -> bool;

    /// A bound on the coordinates of every support point of the shape placed
    /// by `m`.
    spec fn extent(&self, m: &M) -> int;

    /// The width of the margin around the core of the shape.
    spec fn margin_spec(&self) -> int;

    /// The support point of the shape, margin included.
    spec fn support_point_spec(&self, m: &M, dir: V) -> V;

    /// The support point of the core of the shape.
    spec fn support_point_without_margin_spec(&self, m: &M, dir: V) -> V;

    /// The support points of a shape in range are in range, and no
    /// farther from the origin than the extent of the shape.
    proof fn lemma_support_in_range(&self, m: &M, dir: V)
        requires
            self.wf(m),
            dir.wf(),
        ensures
            self.support_point_spec(m, dir).wf(),
            self.support_point_spec(m, dir).point_spec().within(self.extent(m)),
            self.support_point_without_margin_spec(m, dir).wf(),
            self.support_point_without_margin_spec(m, dir).point_spec().within(self.extent(m)),
    ;

    /// The width of the margin around the core of the shape.
    fn margin(&self) -> (r: i64)
        ensures
            r == self.margin_spec(),
    ;

    /// The point of the shape placed by `m`, margin included, that lies
    /// farthest along `dir`.
    fn support_point(&self, m: &M, dir: &V) -> (p: V)
        requires
            self.wf(m),
            dir.wf(),
        ensures
            p == self.support_point_spec(m, *dir),
            p.wf(),
            p.point_spec().within(self.extent(m)),
    ;

    /// The point of the core of the shape placed by `m` that lies farthest
    /// along `dir`.
    fn support_point_without_margin(&self, m: &M, dir: &V) -> (p: V)
        requires
            self.wf(m),
            dir.wf(),
        ensures
            p == self.support_point_without_margin_spec(m, *dir),
            p.wf(),
            p.point_spec().within(self.extent(m)),
    ;
}

/// The support function of the core of `g` is exact on `region`: no point
/// of `region` lies farther along a direction than the support point of the
/// core of `g`, placed by `m`, along that direction.
pub open spec fn is_support_of<G: Implicit<Vec3, M>, M>(
    g: &G,
    m: &M,
    region: spec_fn(Vec3) -> bool,
) -> bool {
    forall|dir: Vec3, p: Vec3|
        dir.wf() && region(p) ==> #[trigger] dot(dir, p) <= dot(
            dir,
            g.support_point_without_margin_spec(m, dir),
        )
}

} // verus!
