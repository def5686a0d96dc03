//! The working set of the closest-point algorithms.

use crate::math::AlgebraicVec;
use vstd::prelude::*;

verus! {

/// A small set of points that approximates the part of a convex region that
/// lies nearest to the origin.
pub trait Simplex<V: AlgebraicVec>: Sized {
    /// The simplex holds points in range, and no more than it can reduce.
    spec fn wf(&self) -> bool;

    /// The points of the simplex, in the order in which they are kept.
    spec fn points(&self) -> Seq<V>;

    /// The points of a simplex after `p` was added to `pts`.
    spec fn inserted(pts: Seq<V>, p: V) -> Seq<V>;

    /// What a reduction makes of the points `pts`: the points that it keeps,
    /// and the projection of the origin on them.
    spec fn reduced(pts: Seq<V>) -> (Seq<V>, V);

    /// The points `pts` can be the points of a simplex: they are in range,
    /// and no more than the simplex can reduce.
    spec fn admits(pts: Seq<V>) -> bool;

    /// The points of a simplex are points that it admits.
    proof fn lemma_points_are_admitted(&self)
        requires
            self.wf(),
        ensures
            Self::admits(self.points()),
    ;

    /// Adding a point in range to points that the simplex admits gives
    /// points that it admits.
    proof fn lemma_inserted_is_admitted(pts: Seq<V>, p: V)
        requires
            Self::admits(pts),
            p.wf(),
        ensures
            Self::admits(Self::inserted(pts, p)),
            Self::inserted(pts, p).len() >= 1,
    ;

    /// Reducing points that the simplex admits gives points that it admits,
    /// and a projection in range.
    proof fn lemma_reduced_is_admitted(pts: Seq<V>)
        requires
            Self::admits(pts),
            pts.len() >= 1,
        ensures
            Self::admits(Self::reduced(pts).0),
            Self::reduced(pts).0.len() >= 1,
            Self::reduced(pts).1.wf(),
    ;

    /// A reduction is idempotent: what a reduction has left, a second one
    /// leaves as it is, with the same projection.
    proof fn lemma_reduced_is_idempotent(pts: Seq<V>)
        ensures
            Self::reduced(Self::reduced(pts).0) == Self::reduced(pts),
    ;

    /// The number of points of the simplex, less one.
    fn dimension(&self) -> (d: usize)
        requires
            self.wf(),
            self.points().len() >= 1,
        ensures
            d == self.points().len() - 1,
    ;

    /// Adds a point to the simplex.
    fn add_point(&mut self, p: V)
        requires
            old(self).wf(),
            p.wf(),
        ensures
            final(self).wf(),
            final(self).points() == Self::inserted(old(self).points(), p),
            final(self).points().len() >= 1,
    ;

    /// Projects the origin on the simplex, and keeps of the simplex the
    /// smallest part that holds the projection.
    fn project_origin_and_reduce(&mut self) -> (proj: V)
        requires
            old(self).wf(),
            old(self).points().len() >= 1,
        ensures
            final(self).wf(),
            proj.wf(),
            final(self).points() == Self::reduced(old(self).points()).0,
            proj == Self::reduced(old(self).points()).1,
            final(self).points().len() >= 1,
    ;
}

} // verus!
