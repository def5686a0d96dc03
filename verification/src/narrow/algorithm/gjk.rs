//! The Gilbert-Johnson-Keerthi distance algorithm.

use crate::geom::annotated_point::AnnotatedPoint;
use crate::geom::geom_with_margin::GeomWithMargin;
use crate::geom::minkowski_sum::AnnotatedMinkowskiSum;
use crate::geom::minkowski_sum::Identity;
use crate::geom::reflection::Reflection;
use crate::implicit::is_support_of;
use crate::implicit::Implicit;
use crate::math::dot;
use crate::math::lemma_cauchy_schwarz;
use crate::math::lemma_dot_add;
use crate::math::lemma_dot_bound;
use crate::math::lemma_dot_opposite;
use crate::math::lemma_dot_sub;
use crate::math::lemma_mul_bound;
use crate::math::lemma_sqnorm_nonneg;
use crate::math::lemma_sqrt_up_exists;
use crate::math::norm;
use crate::math::sqnorm;
use crate::math::AlgebraicVec;
use crate::math::Vec3;
use crate::math::COORD_MAX;
use crate::math::UNIT;
use crate::narrow::algorithm::simplex::Simplex;
use vstd::prelude::*;

verus! {

/// A squared length, in lattice steps, at or below which a projection counts
/// as the origin itself: a hundred times the resolution of the lattice.
pub const EPS_TOL: i64 = 409600;

/// The inverse of the relative precision asked of a projection: the square
/// root of the resolution of the lattice is one part in `EPS_REL_INV`.
pub const EPS_REL_INV: i64 = 64;

/// Results of the GJK algorithm.
#[derive(Debug)]
pub enum GJKResult<V, Dir> {
    /// The origin is inside of the polytope.
    Intersection,
    /// A projection of the origin on the polytope was found.
    Projection(V),
    /// The origin is too far away from the polytope.
    NoIntersection(Dir),
}

impl<V: Clone, Dir: Clone> Clone for GJKResult<V, Dir> {
    fn clone(&self) -> (r: GJKResult<V, Dir>)
        ensures
            self is Intersection <==> r is Intersection,
            self is Projection <==> r is Projection,
            self is NoIntersection <==> r is NoIntersection,
    {
        match self {
            GJKResult::Intersection => GJKResult::Intersection,
            GJKResult::Projection(p) => GJKResult::Projection(p.clone()),
            GJKResult::NoIntersection(dir) => GJKResult::NoIntersection(dir.clone()),
        }
    }
}

/// The origin counts as inside: the simplex with `len` points spans the whole
/// space, or the projection `proj` is as good as the origin.
pub open spec fn contains_origin<V: AlgebraicVec>(len: nat, proj: V) -> bool {
    len == V::dim_spec() + 1 || sqnorm(proj.point_spec()) <= EPS_TOL
}

/// The support point shows that the whole region lies farther than
/// `max_dist` from the origin, along `proj`.
pub open spec fn separated_by(proj: Vec3, support: Vec3, max_dist: int) -> bool {
    dot(proj, support) * UNIT > max_dist * norm(proj)
}

/// No point of the region can be nearer to the origin than `proj` by more
/// than the relative precision.
pub open spec fn converged(proj: Vec3, support: Vec3) -> bool {
    EPS_REL_INV * (sqnorm(proj) - dot(proj, support)) <= sqnorm(proj)
}

/// The outcome of the search that stands at the points `pts` with the
/// projection `proj`, and the points that it leaves in the simplex.
///
/// The search ends with the first of these that holds: the origin counts as
/// inside; with a bound, the support point along the projection proves the
/// region farther than the bound; the projection has converged; or adding the
/// support point brings the projection no nearer, and the projection found
/// before stands.
pub open spec fn search_from<S: Simplex<V>, G: Implicit<V, M>, V: AlgebraicVec, M>(
    m: &M,
    geom: &G,
    max_dist: Option<int>,
    pts: Seq<V>,
    proj: V,
) -> (GJKResult<V, V>, Seq<V>)
    decreases sqnorm(proj.point_spec()),
    via search_from_ends::<S, G, V, M>
{
    let support = geom.support_point_without_margin_spec(m, proj.neg_spec());
    let next = S::reduced(S::inserted(pts, support));
    if contains_origin(pts.len(), proj) {
        (GJKResult::Intersection, pts)
    } else if max_dist is Some && separated_by(
        proj.point_spec(),
        support.point_spec(),
        max_dist->0,
    ) {
        (GJKResult::NoIntersection(proj), pts)
    } else if converged(proj.point_spec(), support.point_spec()) {
        (GJKResult::Projection(proj), pts)
    } else if sqnorm(next.1.point_spec()) >= sqnorm(proj.point_spec()) {
        (GJKResult::Projection(proj), next.0)
    } else {
        search_from::<S, G, V, M>(m, geom, max_dist, next.0, next.1)
    }
}

/// The search ends: every refinement brings the projection nearer to the
/// origin, by a whole number of squared lattice steps.
#[via_fn]
proof fn search_from_ends<S: Simplex<V>, G: Implicit<V, M>, V: AlgebraicVec, M>(
    m: &M,
    geom: &G,
    max_dist: Option<int>,
    pts: Seq<V>,
    proj: V,
) {
    let support = geom.support_point_without_margin_spec(m, proj.neg_spec());
    let next = S::reduced(S::inserted(pts, support));
    lemma_sqnorm_nonneg(next.1.point_spec());
}

/// The outcome of the search that starts from the points `pts`, and the
/// points that it leaves in the simplex.
pub open spec fn search<S: Simplex<V>, G: Implicit<V, M>, V: AlgebraicVec, M>(
    m: &M,
    geom: &G,
    max_dist: Option<int>,
    pts: Seq<V>,
) -> (GJKResult<V, V>, Seq<V>) {
    search_from::<S, G, V, M>(m, geom, max_dist, S::reduced(pts).0, S::reduced(pts).1)
}

/// The bound of a search as a number, where it has one.
pub open spec fn bound_of(max_dist: Option<i64>) -> Option<int> {
    match max_dist {
        Some(d) => Some(d as int),
        None => None,
    }
}

/// The vectors that an outcome carries lie within the range of the lattice.
pub open spec fn in_range<V: AlgebraicVec>(res: GJKResult<V, V>) -> bool {
    match res {
        GJKResult::Intersection => true,
        GJKResult::Projection(p) => p.wf(),
        GJKResult::NoIntersection(dir) => dir.wf(),
    }
}

/// The closest points that stand behind a projection on a difference of two
/// shapes: the point of the first shape, and the point of the second.
pub open spec fn witnesses(p: AnnotatedPoint) -> (Vec3, Vec3) {
    (p.orig1, p.orig2.opposite())
}

/// The outcome of the search on the difference of the cores of `g1` and
/// `g2`, from the points `pts`.
pub open spec fn search_cores<S: Simplex<AnnotatedPoint>, G1: Implicit<Vec3, M>, G2: Implicit<
    Vec3,
    M,
>, M>(m1: &M, g1: &G1, m2: &M, g2: &G2, max_dist: Option<int>, pts: Seq<AnnotatedPoint>) -> (
    GJKResult<AnnotatedPoint, AnnotatedPoint>,
    Seq<AnnotatedPoint>,
) {
    search::<S, AnnotatedMinkowskiSum<M, G1, Reflection<G2>>, AnnotatedPoint, Identity>(
        &Identity {  },
        &AnnotatedMinkowskiSum { m1, g1, m2, g2: &Reflection { g: g2 } },
        max_dist,
        pts,
    )
}

/// The outcome of the search on the difference of `g1` and `g2`, margins
/// included, from the points `pts`.
pub open spec fn search_shapes<S: Simplex<AnnotatedPoint>, G1: Implicit<Vec3, M>, G2: Implicit<
    Vec3,
    M,
>, M>(m1: &M, g1: &G1, m2: &M, g2: &G2, pts: Seq<AnnotatedPoint>) -> (
    GJKResult<AnnotatedPoint, AnnotatedPoint>,
    Seq<AnnotatedPoint>,
) {
    search::<
        S,
        AnnotatedMinkowskiSum<M, GeomWithMargin<G1>, Reflection<GeomWithMargin<G2>>>,
        AnnotatedPoint,
        Identity,
    >(
        &Identity {  },
        &AnnotatedMinkowskiSum {
            m1,
            g1: &GeomWithMargin { g: g1 },
            m2,
            g2: &Reflection { g: &GeomWithMargin { g: g2 } },
        },
        None,
        pts,
    )
}

/// The number of times that the search from the points `pts` with the
/// projection `proj` refines its simplex before it ends.
pub open spec fn refinements_from<S: Simplex<V>, G: Implicit<V, M>, V: AlgebraicVec, M>(
    m: &M,
    geom: &G,
    max_dist: Option<int>,
    pts: Seq<V>,
    proj: V,
) -> nat
    decreases sqnorm(proj.point_spec()),
    via refinements_from_ends::<S, G, V, M>
{
    let support = geom.support_point_without_margin_spec(m, proj.neg_spec());
    let next = S::reduced(S::inserted(pts, support));
    if contains_origin(pts.len(), proj) {
        0
    } else if max_dist is Some && separated_by(
        proj.point_spec(),
        support.point_spec(),
        max_dist->0,
    ) {
        0
    } else if converged(proj.point_spec(), support.point_spec()) {
        0
    } else if sqnorm(next.1.point_spec()) >= sqnorm(proj.point_spec()) {
        1
    } else {
        1 + refinements_from::<S, G, V, M>(m, geom, max_dist, next.0, next.1)
    }
}

#[via_fn]
proof fn refinements_from_ends<S: Simplex<V>, G: Implicit<V, M>, V: AlgebraicVec, M>(
    m: &M,
    geom: &G,
    max_dist: Option<int>,
    pts: Seq<V>,
    proj: V,
) {
    let support = geom.support_point_without_margin_spec(m, proj.neg_spec());
    let next = S::reduced(S::inserted(pts, support));
    lemma_sqnorm_nonneg(next.1.point_spec());
}

/// Whether the support point proves the region farther than `max_dist`.
fn is_separated_by(proj: &Vec3, support: &Vec3, max_dist: i64) -> (b: bool)
    requires
        proj.within(COORD_MAX as int),
        support.within(COORD_MAX as int),
    ensures
        b == separated_by(*proj, *support, max_dist as int),
{
    let d: i64 = proj.dot(support);
    let n: i64 = proj.norm();
    proof {
        lemma_dot_bound(*proj, *support, COORD_MAX as int);
        lemma_mul_bound(max_dist as int, n as int, 0x8000_0000_0000_0000, 0x100_0000_0000);
    }
    (d as i128) * (UNIT as i128) > (max_dist as i128) * (n as i128)
}

/// Whether no point of the region can be much nearer than `proj`.
fn has_converged(proj: &Vec3, support: &Vec3) -> (b: bool)
    requires
        proj.within(COORD_MAX as int),
        support.within(COORD_MAX as int),
    ensures
        b == converged(*proj, *support),
{
    let d: i64 = proj.dot(support);
    let sq: i64 = proj.sqnorm();
    proof {
        lemma_dot_bound(*proj, *support, COORD_MAX as int);
        lemma_dot_bound(*proj, *proj, COORD_MAX as int);
    }
    EPS_REL_INV * (sq - d) <= sq
}

/// The search itself, with or without a bound.
fn run_search<S: Simplex<V>, G: Implicit<V, M>, V: AlgebraicVec, M>(
    m: &M,
    geom: &G,
    max_dist: Option<i64>,
    simplex: &mut S,
) -> (res: GJKResult<V, V>)
    requires
        old(simplex).wf(),
        old(simplex).points().len() >= 1,
        geom.wf(m),
    ensures
        final(simplex).wf(),
        final(simplex).points().len() >= 1,
        res == search::<S, G, V, M>(m, geom, bound_of(max_dist), old(simplex).points()).0,
        final(simplex).points() == search::<S, G, V, M>(
            m,
            geom,
            bound_of(max_dist),
            old(simplex).points(),
        ).1,
        in_range(res),
{
    let ghost goal = search::<S, G, V, M>(m, geom, bound_of(max_dist), simplex.points());
    let mut proj: V = simplex.project_origin_and_reduce();
    proof {
        proj.lemma_point_in_range();
    }
    let mut sq_len: i64 = proj.point().sqnorm();
    loop
        invariant
            simplex.wf(),
            simplex.points().len() >= 1,
            geom.wf(m),
            proj.wf(),
            proj.point_spec().within(COORD_MAX as int),
            sq_len == sqnorm(proj.point_spec()),
            goal == search::<S, G, V, M>(m, geom, bound_of(max_dist), old(simplex).points()),
            goal == search_from::<S, G, V, M>(m, geom, bound_of(max_dist), simplex.points(), proj),
        decreases sq_len,
    {
        if simplex.dimension() == V::dim() || sq_len <= EPS_TOL {
            return GJKResult::Intersection;
        }
        proof {
            proj.lemma_neg();
        }
        let dir: V = proj.neg();
        let support: V = geom.support_point_without_margin(m, &dir);
        proof {
            support.lemma_point_in_range();
        }
        let p: Vec3 = proj.point();
        let s: Vec3 = support.point();
        match max_dist {
            Some(bound) => {
                if is_separated_by(&p, &s, bound) {
                    return GJKResult::NoIntersection(proj);
                }
            },
            None => {},
        }
        if has_converged(&p, &s) {
            return GJKResult::Projection(proj);
        }
        simplex.add_point(support);
        let old_proj: V = proj;
        proj = simplex.project_origin_and_reduce();
        proof {
            proj.lemma_point_in_range();
            lemma_sqnorm_nonneg(proj.point_spec());
        }
        let old_sq_len: i64 = sq_len;
        sq_len = proj.point().sqnorm();
        if sq_len >= old_sq_len {
            return GJKResult::Projection(old_proj);
        }
    }
}

/// Projects the origin on a shape using the GJK algorithm.
///
/// Returns the projection, or `None` where the origin counts as inside the
/// shape. The `simplex` must hold at least one point of the shape, and is left
/// holding the points that carry the result.
pub fn project_origin<S: Simplex<V>, G: Implicit<V, M>, V: AlgebraicVec, M>(
    m: &M,
    geom: &G,
    simplex: &mut S,
) -> (res: Option<V>)
    requires
        old(simplex).wf(),
        old(simplex).points().len() >= 1,
        geom.wf(m),
    ensures
        final(simplex).wf(),
        final(simplex).points().len() >= 1,
        final(simplex).points() == search::<S, G, V, M>(m, geom, None, old(simplex).points()).1,
        match search::<S, G, V, M>(m, geom, None, old(simplex).points()).0 {
            GJKResult::Projection(p) => res == Some(p),
            _ => res is None,
        },
        res is Some ==> res->0.wf(),
{
    match run_search(m, geom, None, simplex) {
        GJKResult::Projection(p) => Some(p),
        _ => None,
    }
}

/// Projects the origin on a shape using the GJK algorithm, and stops as soon
/// as the shape is proven to lie farther than `max_dist` from the origin.
///
/// The `simplex` must hold at least one point of the shape, and is left
/// holding the points that carry the result.
pub fn project_origin_with_max_dist<S: Simplex<V>, G: Implicit<V, M>, V: AlgebraicVec, M>(
    m: &M,
    geom: &G,
    max_dist: i64,
    simplex: &mut S,
) -> (res: GJKResult<V, V>)
    requires
        old(simplex).wf(),
        old(simplex).points().len() >= 1,
        geom.wf(m),
    ensures
        final(simplex).wf(),
        final(simplex).points().len() >= 1,
        res == search::<S, G, V, M>(m, geom, Some(max_dist as int), old(simplex).points()).0,
        final(simplex).points() == search::<S, G, V, M>(
            m,
            geom,
            Some(max_dist as int),
            old(simplex).points(),
        ).1,
        in_range(res),
{
    run_search(m, geom, Some(max_dist), simplex)
}

/// Computes the closest points between two convex shapes, margins included,
/// using the GJK algorithm. Returns `None` where the shapes meet.
///
/// The `simplex` must hold at least one point of the difference of the two
/// shapes.
pub fn closest_points<S: Simplex<AnnotatedPoint>, G1: Implicit<Vec3, M>, G2: Implicit<Vec3, M>, M>(
    m1: &M,
    g1: &G1,
    m2: &M,
    g2: &G2,
    simplex: &mut S,
) -> (res: Option<(Vec3, Vec3)>)
    requires
        old(simplex).wf(),
        old(simplex).points().len() >= 1,
        g1.wf(m1),
        g2.wf(m2),
        g1.extent(m1) + g2.extent(m2) <= COORD_MAX,
    ensures
        final(simplex).wf(),
        final(simplex).points().len() >= 1,
        final(simplex).points() == search_shapes::<S, G1, G2, M>(
            m1,
            g1,
            m2,
            g2,
            old(simplex).points(),
        ).1,
        match search_shapes::<S, G1, G2, M>(m1, g1, m2, g2, old(simplex).points()).0 {
            GJKResult::Projection(p) => res == Some(witnesses(p)),
            _ => res is None,
        },
        match res {
            Some(w) => w.0.within(COORD_MAX as int) && w.1.within(COORD_MAX as int),
            None => true,
        },
{
    let mg1 = GeomWithMargin::new(g1);
    let mg2 = GeomWithMargin::new(g2);
    let reflect2 = Reflection::new(&mg2);
    let cso = AnnotatedMinkowskiSum::new(m1, &mg1, m2, &reflect2);
    match project_origin(&Identity::new(), &cso, simplex) {
        Some(p) => Some((p.orig1(), p.orig2().reversed())),
        None => None,
    }
}

/// Computes the closest points between the cores of two convex shapes using
/// the GJK algorithm. Returns `None` where the cores meet.
///
/// The `simplex` must hold at least one point of the difference of the two
/// cores.
pub fn closest_points_without_margin<
    S: Simplex<AnnotatedPoint>,
    G1: Implicit<Vec3, M>,
    G2: Implicit<Vec3, M>,
    M,
>(m1: &M, g1: &G1, m2: &M, g2: &G2, simplex: &mut S) -> (res: Option<(Vec3, Vec3)>)
    requires
        old(simplex).wf(),
        old(simplex).points().len() >= 1,
        g1.wf(m1),
        g2.wf(m2),
        g1.extent(m1) + g2.extent(m2) <= COORD_MAX,
    ensures
        final(simplex).wf(),
        final(simplex).points().len() >= 1,
        final(simplex).points() == search_cores::<S, G1, G2, M>(
            m1,
            g1,
            m2,
            g2,
            None,
            old(simplex).points(),
        ).1,
        match search_cores::<S, G1, G2, M>(m1, g1, m2, g2, None, old(simplex).points()).0 {
            GJKResult::Projection(p) => res == Some(witnesses(p)),
            _ => res is None,
        },
        match res {
            Some(w) => w.0.within(COORD_MAX as int) && w.1.within(COORD_MAX as int),
            None => true,
        },
{
    let reflect2 = Reflection::new(g2);
    let cso = AnnotatedMinkowskiSum::new(m1, g1, m2, &reflect2);
    match project_origin(&Identity::new(), &cso, simplex) {
        Some(p) => Some((p.orig1(), p.orig2().reversed())),
        None => None,
    }
}

/// Computes the closest points between the cores of two convex shapes using
/// the GJK algorithm, and stops as soon as the cores are proven to lie
/// farther than `max_dist` from each other.
///
/// The `simplex` must hold at least one point of the difference of the two
/// cores.
pub fn closest_points_without_margin_with_max_dist<
    S: Simplex<AnnotatedPoint>,
    G1: Implicit<Vec3, M>,
    G2: Implicit<Vec3, M>,
    M,
>(m1: &M, g1: &G1, m2: &M, g2: &G2, max_dist: i64, simplex: &mut S) -> (res: GJKResult<
    (Vec3, Vec3),
    Vec3,
>)
    requires
        old(simplex).wf(),
        old(simplex).points().len() >= 1,
        g1.wf(m1),
        g2.wf(m2),
        g1.extent(m1) + g2.extent(m2) <= COORD_MAX,
    ensures
        final(simplex).wf(),
        final(simplex).points().len() >= 1,
        final(simplex).points() == search_cores::<S, G1, G2, M>(
            m1,
            g1,
            m2,
            g2,
            Some(max_dist as int),
            old(simplex).points(),
        ).1,
        match search_cores::<S, G1, G2, M>(
            m1,
            g1,
            m2,
            g2,
            Some(max_dist as int),
            old(simplex).points(),
        ).0 {
            GJKResult::Projection(p) => res == GJKResult::<(Vec3, Vec3), Vec3>::Projection(
                witnesses(p),
            ),
            GJKResult::Intersection => res is Intersection,
            GJKResult::NoIntersection(dir) => res == GJKResult::<
                (Vec3, Vec3),
                Vec3,
            >::NoIntersection(dir.point),
        },
        match res {
            GJKResult::Projection(w) => w.0.within(COORD_MAX as int) && w.1.within(
                COORD_MAX as int,
            ),
            GJKResult::Intersection => true,
            GJKResult::NoIntersection(dir) => dir.within(COORD_MAX as int),
        },
{
    let reflect2 = Reflection::new(g2);
    let cso = AnnotatedMinkowskiSum::new(m1, g1, m2, &reflect2);
    match project_origin_with_max_dist(&Identity::new(), &cso, max_dist, simplex) {
        GJKResult::Projection(p) => GJKResult::Projection((p.orig1(), p.orig2().reversed())),
        GJKResult::Intersection => GJKResult::Intersection,
        GJKResult::NoIntersection(dir) => GJKResult::NoIntersection(dir.point()),
    }
}

/// The search always ends, after no more refinements than the first
/// projection has squared lattice steps to the origin, whatever the shape
/// and the simplex do.
pub proof fn lemma_refinements_are_bounded<
    S: Simplex<V>,
    G: Implicit<V, M>,
    V: AlgebraicVec,
    M,
>(m: &M, geom: &G, max_dist: Option<int>, pts: Seq<V>, proj: V)
    ensures
        refinements_from::<S, G, V, M>(m, geom, max_dist, pts, proj) <= sqnorm(proj.point_spec())
            + 1,
    decreases sqnorm(proj.point_spec()),
{
    let support = geom.support_point_without_margin_spec(m, proj.neg_spec());
    let next = S::reduced(S::inserted(pts, support));
    lemma_sqnorm_nonneg(proj.point_spec());
    lemma_sqnorm_nonneg(next.1.point_spec());
    if !contains_origin(pts.len(), proj) && !(max_dist is Some && separated_by(
        proj.point_spec(),
        support.point_spec(),
        max_dist->0,
    )) && !converged(proj.point_spec(), support.point_spec()) && sqnorm(next.1.point_spec())
        < sqnorm(proj.point_spec()) {
        lemma_refinements_are_bounded::<S, G, V, M>(m, geom, max_dist, next.0, next.1);
    }
}

/// A search on a shape in range, from points that the simplex admits and
/// a projection in range, returns vectors in range and leaves points that
/// the simplex admits.
pub proof fn lemma_search_from_is_in_range<
    S: Simplex<V>,
    G: Implicit<V, M>,
    V: AlgebraicVec,
    M,
>(m: &M, geom: &G, max_dist: Option<int>, pts: Seq<V>, proj: V)
    requires
        geom.wf(m),
        S::admits(pts),
        pts.len() >= 1,
        proj.wf(),
    ensures
        in_range(search_from::<S, G, V, M>(m, geom, max_dist, pts, proj).0),
        S::admits(search_from::<S, G, V, M>(m, geom, max_dist, pts, proj).1),
        search_from::<S, G, V, M>(m, geom, max_dist, pts, proj).1.len() >= 1,
    decreases sqnorm(proj.point_spec()),
{
    let support = geom.support_point_without_margin_spec(m, proj.neg_spec());
    let next = S::reduced(S::inserted(pts, support));
    proj.lemma_neg();
    geom.lemma_support_in_range(m, proj.neg_spec());
    S::lemma_inserted_is_admitted(pts, support);
    S::lemma_reduced_is_admitted(S::inserted(pts, support));
    lemma_sqnorm_nonneg(next.1.point_spec());
    if !contains_origin(pts.len(), proj) && !(max_dist is Some && separated_by(
        proj.point_spec(),
        support.point_spec(),
        max_dist->0,
    )) && !converged(proj.point_spec(), support.point_spec()) && sqnorm(next.1.point_spec())
        < sqnorm(proj.point_spec()) {
        lemma_search_from_is_in_range::<S, G, V, M>(m, geom, max_dist, next.0, next.1);
    }
}

/// A search on a shape in range, from points that the simplex admits,
/// returns vectors in range and leaves points that the simplex admits.
pub proof fn lemma_search_is_in_range<S: Simplex<V>, G: Implicit<V, M>, V: AlgebraicVec, M>(
    m: &M,
    geom: &G,
    max_dist: Option<int>,
    pts: Seq<V>,
)
    requires
        geom.wf(m),
        S::admits(pts),
        pts.len() >= 1,
    ensures
        in_range(search::<S, G, V, M>(m, geom, max_dist, pts).0),
        S::admits(search::<S, G, V, M>(m, geom, max_dist, pts).1),
        search::<S, G, V, M>(m, geom, max_dist, pts).1.len() >= 1,
{
    S::lemma_reduced_is_admitted(pts);
    lemma_search_from_is_in_range::<S, G, V, M>(
        m,
        geom,
        max_dist,
        S::reduced(pts).0,
        S::reduced(pts).1,
    );
}

/// A search without a bound never ends with `NoIntersection`.
pub proof fn lemma_unbounded_search_projects_or_intersects<
    S: Simplex<V>,
    G: Implicit<V, M>,
    V: AlgebraicVec,
    M,
>(m: &M, geom: &G, pts: Seq<V>)
    ensures
        !(search::<S, G, V, M>(m, geom, None, pts).0 is NoIntersection),
{
    lemma_no_intersection_has_a_witness::<S, G, V, M>(
        m,
        geom,
        None,
        S::reduced(pts).0,
        S::reduced(pts).1,
    );
}

/// The same of a search that stands at points of which `proj` is the
/// projection.
proof fn lemma_intersection_from<S: Simplex<V>, G: Implicit<V, M>, V: AlgebraicVec, M>(
    m: &M,
    geom: &G,
    max_dist: Option<int>,
    pts: Seq<V>,
    proj: V,
)
    requires
        S::reduced(pts) == (pts, proj),
    ensures
        search_from::<S, G, V, M>(m, geom, max_dist, pts, proj).0 is Intersection
            ==> contains_origin(
            search_from::<S, G, V, M>(m, geom, max_dist, pts, proj).1.len(),
            S::reduced(search_from::<S, G, V, M>(m, geom, max_dist, pts, proj).1).1,
        ),
    decreases sqnorm(proj.point_spec()),
{
    let support = geom.support_point_without_margin_spec(m, proj.neg_spec());
    let next = S::reduced(S::inserted(pts, support));
    lemma_sqnorm_nonneg(next.1.point_spec());
    if !contains_origin(pts.len(), proj) && !(max_dist is Some && separated_by(
        proj.point_spec(),
        support.point_spec(),
        max_dist->0,
    )) && !converged(proj.point_spec(), support.point_spec()) && sqnorm(next.1.point_spec())
        < sqnorm(proj.point_spec()) {
        S::lemma_reduced_is_idempotent(S::inserted(pts, support));
        lemma_intersection_from::<S, G, V, M>(m, geom, max_dist, next.0, next.1);
    }
}

/// Where a search ends with `Intersection`, the points that it leaves in
/// the simplex span the whole space, or their projection is as good as the
/// origin.
pub proof fn lemma_intersection_has_a_witness<
    S: Simplex<V>,
    G: Implicit<V, M>,
    V: AlgebraicVec,
    M,
>(m: &M, geom: &G, max_dist: Option<int>, pts: Seq<V>)
    ensures
        search::<S, G, V, M>(m, geom, max_dist, pts).0 is Intersection ==> contains_origin(
            search::<S, G, V, M>(m, geom, max_dist, pts).1.len(),
            S::reduced(search::<S, G, V, M>(m, geom, max_dist, pts).1).1,
        ),
{
    S::lemma_reduced_is_idempotent(pts);
    lemma_intersection_from::<S, G, V, M>(
        m,
        geom,
        max_dist,
        S::reduced(pts).0,
        S::reduced(pts).1,
    );
}

/// A projection that has converged is nearly the closest point. Every
/// point `y` that lies no less far along the projection than the support
/// point is no nearer to the origin than the projection, less one part in
/// `EPS_REL_INV` of its length.
pub proof fn lemma_converged_projection_is_near(proj: Vec3, support: Vec3, y: Vec3)
    requires
        converged(proj, support),
        dot(proj, y) >= dot(proj, support),
    ensures
        EPS_REL_INV * EPS_REL_INV * sqnorm(y) >= (EPS_REL_INV - 1) * (EPS_REL_INV - 1) * sqnorm(
            proj,
        ),
{
    let sq = sqnorm(proj);
    let sqy = sqnorm(y);
    let dy = dot(proj, y);
    lemma_cauchy_schwarz(proj, y);
    lemma_sqnorm_nonneg(y);
    lemma_sqnorm_nonneg(proj);
    assert(64 * dy >= 63 * sq);
    assert((64 * dy) * (64 * dy) >= (63 * sq) * (63 * sq)) by (nonlinear_arith)
        requires
            64 * dy >= 63 * sq,
            63 * sq >= 0,
    ;
    assert((64 * dy) * (64 * dy) == 4096 * (dy * dy)) by (nonlinear_arith);
    assert((63 * sq) * (63 * sq) == 3969 * (sq * sq)) by (nonlinear_arith);
    assert(4096 * (sq * sqy) >= 3969 * (sq * sq));
    if sq > 0 {
        assert(4096 * sqy >= 3969 * sq) by (nonlinear_arith)
            requires
                4096 * (sq * sqy) >= 3969 * (sq * sq),
                sq > 0,
        ;
    }
}

/// A support point that proves a separation proves it of every point that
/// lies no less far along the projection: each such point `y` is farther
/// than `max_dist` from the origin.
pub proof fn lemma_separation_is_sound(proj: Vec3, support: Vec3, max_dist: int, y: Vec3)
    requires
        max_dist >= 0,
        separated_by(proj, support, max_dist),
        dot(proj, y) >= dot(proj, support),
    ensures
        sqnorm(y) > max_dist * max_dist,
{
    let sq = sqnorm(proj);
    let sqy = sqnorm(y);
    let d = dot(proj, support);
    let dy = dot(proj, y);
    let n = norm(proj);
    let u = UNIT as int;
    lemma_sqrt_up_exists(sq * UNIT * UNIT);
    lemma_cauchy_schwarz(proj, y);
    lemma_sqnorm_nonneg(y);
    lemma_sqnorm_nonneg(proj);
    assert(n >= 0 && n * n >= sq * u * u);
    assert(max_dist * n >= 0) by (nonlinear_arith)
        requires
            max_dist >= 0,
            n >= 0,
    ;
    assert(d * u > max_dist * n);
    assert(dy * u >= d * u) by (nonlinear_arith)
        requires
            dy >= d,
            u > 0,
    ;
    let lhs = max_dist * n;
    let rhs = dy * u;
    assert(rhs * rhs > lhs * lhs) by (nonlinear_arith)
        requires
            rhs > lhs,
            lhs >= 0,
    ;
    assert(rhs * rhs == (dy * dy) * (u * u)) by (nonlinear_arith)
        requires
            rhs == dy * u,
    ;
    assert((dy * dy) * (u * u) <= (sq * sqy) * (u * u)) by (nonlinear_arith)
        requires
            dy * dy <= sq * sqy,
            u > 0,
    ;
    assert((sq * sqy) * (u * u) == (sq * u * u) * sqy) by (nonlinear_arith);
    assert((sq * u * u) * sqy <= (n * n) * sqy) by (nonlinear_arith)
        requires
            sq * u * u <= n * n,
            sqy >= 0,
    ;
    assert(lhs * lhs == (max_dist * max_dist) * (n * n)) by (nonlinear_arith)
        requires
            lhs == max_dist * n,
    ;
    assert((max_dist * max_dist) * (n * n) < sqy * (n * n));
    if sqy <= max_dist * max_dist {
        assert(sqy * (n * n) <= (max_dist * max_dist) * (n * n)) by (nonlinear_arith)
            requires
                sqy <= max_dist * max_dist,
                n * n >= 0,
        ;
    }
}

/// Where a search ends with `NoIntersection`, the support point along the
/// reverse of the direction that it returns has proven the separation, and
/// the search had a bound.
pub proof fn lemma_no_intersection_has_a_witness<
    S: Simplex<V>,
    G: Implicit<V, M>,
    V: AlgebraicVec,
    M,
>(m: &M, geom: &G, max_dist: Option<int>, pts: Seq<V>, proj: V)
    ensures
        match search_from::<S, G, V, M>(m, geom, max_dist, pts, proj).0 {
            GJKResult::NoIntersection(dir) => max_dist is Some && separated_by(
                dir.point_spec(),
                geom.support_point_without_margin_spec(m, dir.neg_spec()).point_spec(),
                max_dist->0,
            ),
            _ => true,
        },
    decreases sqnorm(proj.point_spec()),
{
    let support = geom.support_point_without_margin_spec(m, proj.neg_spec());
    let next = S::reduced(S::inserted(pts, support));
    lemma_sqnorm_nonneg(next.1.point_spec());
    if !contains_origin(pts.len(), proj) && !(max_dist is Some && separated_by(
        proj.point_spec(),
        support.point_spec(),
        max_dist->0,
    )) && !converged(proj.point_spec(), support.point_spec()) && sqnorm(next.1.point_spec())
        < sqnorm(proj.point_spec()) {
        lemma_no_intersection_has_a_witness::<S, G, V, M>(m, geom, max_dist, next.0, next.1);
    }
}

/// The early exit of the bounded search is sound. Where the search ends
/// with `NoIntersection`, every point `y` that lies no less far along the
/// returned direction than the support point of the shape along its reverse
/// is farther than `max_dist` from the origin. With a support function that
/// returns the farthest point, these are all the points of the shape.
pub proof fn lemma_no_intersection_is_sound<
    S: Simplex<V>,
    G: Implicit<V, M>,
    V: AlgebraicVec,
    M,
>(m: &M, geom: &G, max_dist: int, pts: Seq<V>, y: Vec3)
    requires
        max_dist >= 0,
        match search::<S, G, V, M>(m, geom, Some(max_dist), pts).0 {
            GJKResult::NoIntersection(dir) => dot(dir.point_spec(), y) >= dot(
                dir.point_spec(),
                geom.support_point_without_margin_spec(m, dir.neg_spec()).point_spec(),
            ),
            _ => false,
        },
    ensures
        sqnorm(y) > max_dist * max_dist,
{
    lemma_no_intersection_has_a_witness::<S, G, V, M>(
        m,
        geom,
        Some(max_dist),
        S::reduced(pts).0,
        S::reduced(pts).1,
    );
    match search::<S, G, V, M>(m, geom, Some(max_dist), pts).0 {
        GJKResult::NoIntersection(dir) => {
            lemma_separation_is_sound(
                dir.point_spec(),
                geom.support_point_without_margin_spec(m, dir.neg_spec()).point_spec(),
                max_dist,
                y,
            );
        },
        _ => {},
    }
}

/// The support point of the difference of two cores along the reverse of
/// `dir` bounds the difference of every two points of the regions on which
/// the support functions are exact: no such difference lies less far along
/// `dir` than the support point.
pub proof fn lemma_difference_lies_beyond<G1: Implicit<Vec3, M>, G2: Implicit<Vec3, M>, M>(
    m1: &M,
    g1: &G1,
    m2: &M,
    g2: &G2,
    in1: spec_fn(Vec3) -> bool,
    in2: spec_fn(Vec3) -> bool,
    pa: Vec3,
    pb: Vec3,
    dir: AnnotatedPoint,
)
    requires
        g1.wf(m1),
        g2.wf(m2),
        g1.extent(m1) + g2.extent(m2) <= COORD_MAX,
        is_support_of(g1, m1, in1),
        is_support_of(g2, m2, in2),
        in1(pa),
        in2(pb),
        pa.within(COORD_MAX as int),
        pb.within(COORD_MAX as int),
        dir.wf(),
    ensures
        dot(dir.point, pa.sub_spec(pb)) >= dot(
            dir.point,
            (AnnotatedMinkowskiSum {
                m1,
                g1,
                m2,
                g2: &Reflection { g: g2 },
            }).support_point_without_margin_spec(&Identity {  }, dir.neg_spec()).point,
        ),
{
    let reflect2 = Reflection { g: g2 };
    let cso = AnnotatedMinkowskiSum { m1, g1, m2, g2: &reflect2 };
    let id = Identity {  };
    let d = dir.point;
    let a1 = g1.support_point_without_margin_spec(m1, d.opposite());
    let b2 = g2.support_point_without_margin_spec(m2, d);
    let w = cso.support_point_without_margin_spec(&id, dir.neg_spec());
    g1.lemma_support_in_range(m1, d.opposite());
    g2.lemma_support_in_range(m2, d);
    lemma_dot_opposite(d, pa);
    lemma_dot_opposite(d, a1);
    assert(w.orig1 == a1);
    assert(w.orig2 == b2.opposite());
    assert(dot(d.opposite(), pa) <= dot(d.opposite(), a1));
    assert(dot(d, pb) <= dot(d, b2));
    lemma_dot_sub(d, pa, pb);
    lemma_dot_add(d, a1, b2.opposite());
    lemma_dot_opposite(d, b2);
}

/// The bounded search on two shapes is sound. Where the support functions
/// of the cores of `g1` and `g2` are exact on the regions `in1` and `in2`
/// and the search ends with `NoIntersection`, every point of the first
/// region is farther than `max_dist` from every point of the second.
pub proof fn lemma_no_intersection_separates<
    S: Simplex<AnnotatedPoint>,
    G1: Implicit<Vec3, M>,
    G2: Implicit<Vec3, M>,
    M,
>(
    m1: &M,
    g1: &G1,
    m2: &M,
    g2: &G2,
    max_dist: int,
    pts: Seq<AnnotatedPoint>,
    in1: spec_fn(Vec3) -> bool,
    in2: spec_fn(Vec3) -> bool,
    pa: Vec3,
    pb: Vec3,
)
    requires
        max_dist >= 0,
        g1.wf(m1),
        g2.wf(m2),
        g1.extent(m1) + g2.extent(m2) <= COORD_MAX,
        is_support_of(g1, m1, in1),
        is_support_of(g2, m2, in2),
        in1(pa),
        in2(pb),
        pa.within(COORD_MAX as int),
        pb.within(COORD_MAX as int),
        S::admits(pts),
        pts.len() >= 1,
        search_cores::<S, G1, G2, M>(m1, g1, m2, g2, Some(max_dist), pts).0 is NoIntersection,
    ensures
        sqnorm(pa.sub_spec(pb)) > max_dist * max_dist,
{
    let reflect2 = Reflection { g: g2 };
    let cso = AnnotatedMinkowskiSum { m1, g1, m2, g2: &reflect2 };
    let id = Identity {  };
    lemma_search_is_in_range::<
        S,
        AnnotatedMinkowskiSum<M, G1, Reflection<G2>>,
        AnnotatedPoint,
        Identity,
    >(&id, &cso, Some(max_dist), pts);
    match search_cores::<S, G1, G2, M>(m1, g1, m2, g2, Some(max_dist), pts).0 {
        GJKResult::NoIntersection(dir) => {
            lemma_difference_lies_beyond(m1, g1, m2, g2, in1, in2, pa, pb, dir);
            lemma_no_intersection_is_sound::<
                S,
                AnnotatedMinkowskiSum<M, G1, Reflection<G2>>,
                AnnotatedPoint,
                Identity,
            >(&id, &cso, max_dist, pts, pa.sub_spec(pb));
        },
        _ => {},
    }
}

/// A projection that has converged is nearly the distance of the two
/// shapes. Where the support functions of the cores of `g1` and `g2` are
/// exact on the regions `in1` and `in2`, and the support point along the
/// reverse of the projection `proj` shows that it has converged, no point
/// of the first region is nearer to a point of the second than the
/// projection is long, less one part in `EPS_REL_INV`.
pub proof fn lemma_converged_projection_bounds_distance<
    G1: Implicit<Vec3, M>,
    G2: Implicit<Vec3, M>,
    M,
>(
    m1: &M,
    g1: &G1,
    m2: &M,
    g2: &G2,
    in1: spec_fn(Vec3) -> bool,
    in2: spec_fn(Vec3) -> bool,
    pa: Vec3,
    pb: Vec3,
    proj: AnnotatedPoint,
)
    requires
        g1.wf(m1),
        g2.wf(m2),
        g1.extent(m1) + g2.extent(m2) <= COORD_MAX,
        is_support_of(g1, m1, in1),
        is_support_of(g2, m2, in2),
        in1(pa),
        in2(pb),
        pa.within(COORD_MAX as int),
        pb.within(COORD_MAX as int),
        proj.wf(),
        converged(
            proj.point,
            (AnnotatedMinkowskiSum {
                m1,
                g1,
                m2,
                g2: &Reflection { g: g2 },
            }).support_point_without_margin_spec(&Identity {  }, proj.neg_spec()).point,
        ),
    ensures
        EPS_REL_INV * EPS_REL_INV * sqnorm(pa.sub_spec(pb)) >= (EPS_REL_INV - 1) * (EPS_REL_INV
            - 1) * sqnorm(proj.point),
{
    let reflect2 = Reflection { g: g2 };
    let cso = AnnotatedMinkowskiSum { m1, g1, m2, g2: &reflect2 };
    lemma_difference_lies_beyond(m1, g1, m2, g2, in1, in2, pa, pb, proj);
    lemma_converged_projection_is_near(
        proj.point,
        cso.support_point_without_margin_spec(&Identity {  }, proj.neg_spec()).point,
        pa.sub_spec(pb),
    );
}

} // verus!
