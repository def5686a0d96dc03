//! A shape whose margin counts as part of its core.

use crate::implicit::Implicit;
use crate::math::AlgebraicVec;
use vstd::prelude::*;

verus! {

/// The shape `g` with its margin taken into its core: a shape without
/// margin, whose core is the whole of `g`.
pub struct GeomWithMargin<'a, G> {
    pub g: &'a G,
}

impl<'a, G> GeomWithMargin<'a, G> {
    /// The shape `g` with its margin taken into its core.
    pub fn new(g: &'a G) -> (r: GeomWithMargin<'a, G>)
        ensures
            r == (GeomWithMargin { g }),
    {
        GeomWithMargin { g }
    }
}

impl<'a, V: AlgebraicVec, M, G: Implicit<V, M>> Implicit<V, M> for GeomWithMargin<'a, G> {
    open spec fn wf(&self, m: &M) -> bool {
        self.g.wf(m)
    }

    open spec fn extent(&self, m: &M) -> int {
        self.g.extent(m)
    }

    open spec fn margin_spec(&self) -> int {
        0
    }

    open spec fn support_point_spec(&self, m: &M, dir: V) -> V {
        self.g.support_point_spec(m, dir)
    }

    open spec fn support_point_without_margin_spec(&self, m: &M, dir: V) -> V {
        self.g.support_point_spec(m, dir)
    }

    proof fn lemma_support_in_range(&self, m: &M, dir: V) {
        self.g.lemma_support_in_range(m, dir);
    }

    fn margin(&self) -> (r: i64) {
        0
    }

    fn support_point(&self, m: &M, dir: &V) -> (p: V) {
        self.g.support_point(m, dir)
    }

    fn support_point_without_margin(&self, m: &M, dir: &V) -> (p: V) {
        self.g.support_point(m, dir)
    }
}

} // verus!
