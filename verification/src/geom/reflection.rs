//! The mirror image of a shape.

use crate::implicit::Implicit;
use crate::math::AlgebraicVec;
use vstd::prelude::*;

verus! {

/// The shape `g` mirrored through the origin.
pub struct Reflection<'a, G> {
    pub g: &'a G,
}

impl<'a, G> Reflection<'a, G> {
    /// The mirror image of `g`.
    pub fn new(g: &'a G) -> (r: Reflection<'a, G>)
        ensures
            r == (Reflection { g }),
    {
        Reflection { g }
    }
}

impl<'a, V: AlgebraicVec, M, G: Implicit<V, M>> Implicit<V, M> for Reflection<'a, G> {
    open spec fn wf(&self, m: &M) -> bool {
        self.g.wf(m)
    }

    open spec fn extent(&self, m: &M) -> int {
        self.g.extent(m)
    }

    open spec fn margin_spec(&self) -> int {
        self.g.margin_spec()
    }

    open spec fn support_point_spec(&self, m: &M, dir: V) -> V {
        self.g.support_point_spec(m, dir.neg_spec()).neg_spec()
    }

    open spec fn support_point_without_margin_spec(&self, m: &M, dir: V) -> V {
        self.g.support_point_without_margin_spec(m, dir.neg_spec()).neg_spec()
    }

    proof fn lemma_support_in_range(&self, m: &M, dir: V) {
        dir.lemma_neg();
        self.g.lemma_support_in_range(m, dir.neg_spec());
        self.g.support_point_spec(m, dir.neg_spec()).lemma_neg();
        self.g.support_point_without_margin_spec(m, dir.neg_spec()).lemma_neg();
    }

    fn margin(&self) -> (r: i64) {
        self.g.margin()
    }

    fn support_point(&self, m: &M, dir: &V) -> (p: V) {
        proof {
            dir.lemma_neg();
        }
        let q: V = self.g.support_point(m, &dir.neg());
        proof {
            q.lemma_neg();
        }
        q.neg()
    }

    fn support_point_without_margin(&self, m: &M, dir: &V) -> (p: V) {
        proof {
            dir.lemma_neg();
        }
        let q: V = self.g.support_point_without_margin(m, &dir.neg());
        proof {
            q.lemma_neg();
        }
        q.neg()
    }
}

} // verus!
