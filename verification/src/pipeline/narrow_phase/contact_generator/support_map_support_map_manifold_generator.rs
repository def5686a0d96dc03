//! The contact generator for two shapes that have a support function.

use crate::geom::annotated_point::AnnotatedPoint;
use crate::geom::minkowski_sum::AnnotatedMinkowskiSum;
use crate::geom::minkowski_sum::Identity;
use crate::geom::reflection::Reflection;
use crate::implicit::Implicit;
use crate::math::rescale;
use crate::math::saturating_sum;
use crate::math::saturating_sum_exec;
use crate::math::Isometry;
use crate::math::Vec3;
use crate::math::COORD_MAX;
use crate::math::UNIT;
use crate::narrow::algorithm::gjk::closest_points_without_margin_with_max_dist;
use crate::narrow::algorithm::gjk::search_cores;
use crate::narrow::algorithm::gjk::witnesses;
use crate::narrow::algorithm::gjk::GJKResult;
use crate::narrow::algorithm::simplex::Simplex;
use crate::narrow::algorithm::voronoi_simplex::VoronoiSimplex;
use crate::query::contact::separation;
use crate::query::contact::Contact;
use crate::query::contact_kinematic::ContactKinematic;
use crate::query::contact_kinematic::FeatureId;
use crate::query::contact_manifold::entries_of;
use crate::query::contact_manifold::lemma_cleared_tracks;
use crate::query::contact_manifold::lemma_find_match;
use crate::query::contact_manifold::lemma_pushed_tracks;
use crate::query::contact_manifold::lemma_released_can_alloc;
use crate::query::contact_manifold::lemma_released_live;
use crate::query::contact_manifold::released;
use crate::query::contact_manifold::ContactManifold;
use crate::query::contact_manifold::ContactManifoldView;
use crate::utils::id_allocator::IdAllocator;
use crate::utils::id_allocator::IdAllocatorView;
use vstd::prelude::*;

verus! {

/// The direction of the first axis, of the length of one unit.
pub open spec fn x_axis() -> Vec3 {
    Vec3 { x: UNIT, y: 0, z: 0 }
}

/// The direction along which the search of a step starts: the direction
/// `last` that the step before left, where there is one; else the direction
/// from the first placement to the second; else, where that cannot be had,
/// the first axis.
pub open spec fn seed_direction(last: Option<Vec3>, ma: Isometry, mb: Isometry) -> Vec3 {
    let towards = rescale(mb.translation.sub_spec(ma.translation), UNIT as int);
    match last {
        Some(dir) => dir,
        None => if ma.translation.within(COORD_MAX as int) && mb.translation.within(
            COORD_MAX as int,
        ) && towards != (Vec3 { x: 0, y: 0, z: 0 }) {
            towards
        } else {
            x_axis()
        },
    }
}

/// The point of the difference of the cores of `a` and `b` that lies
/// farthest along `dir`.
pub open spec fn seed_point<G1: Implicit<Vec3, Isometry>, G2: Implicit<Vec3, Isometry>>(
    ma: &Isometry,
    a: &G1,
    mb: &Isometry,
    b: &G2,
    dir: Vec3,
) -> AnnotatedPoint {
    (AnnotatedMinkowskiSum {
        m1: ma,
        g1: a,
        m2: mb,
        g2: &Reflection { g: b },
    }).support_point_without_margin_spec(&Identity {  }, AnnotatedPoint::invalid(dir))
}

/// A margin as the generator takes it: no less than nothing, and no more
/// than the lattice is wide.
pub open spec fn clamped_margin(margin: int) -> int {
    if margin < 0 {
        0
    } else if margin > COORD_MAX {
        COORD_MAX as int
    } else {
        margin
    }
}

/// The distance between the cores of two shapes up to which the generator
/// reports a contact: the prediction margin and the margins of both
/// shapes.
pub open spec fn reach(prediction: int, margin_a: int, margin_b: int) -> int {
    saturating_sum(
        saturating_sum(prediction, clamped_margin(margin_a)),
        clamped_margin(margin_b),
    )
}

/// The contact between two shapes whose cores are closest at `pa` and `pb`:
/// each point moved towards the other by the margin of its shape, and the
/// direction from the first to the second. None where the two points
/// coincide.
pub open spec fn contact_between(pa: Vec3, pb: Vec3, margin_a: int, margin_b: int) -> Option<
    Contact,
> {
    let diff = pb.sub_spec(pa);
    let normal = rescale(diff, UNIT as int);
    let world1 = pa.add_spec(rescale(diff, clamped_margin(margin_a)));
    let world2 = pb.sub_spec(rescale(diff, clamped_margin(margin_b)));
    if normal == (Vec3 { x: 0, y: 0, z: 0 }) {
        None
    } else {
        Some(Contact { world1, world2, normal, depth: separation(world1, world2, normal) as i64 })
    }
}

/// The bookkeeping of the contacts of this generator: nothing is known of
/// the parts of the shapes that they lie on.
pub open spec fn unknown_features() -> ContactKinematic {
    ContactKinematic { feature1: FeatureId::Unknown, feature2: FeatureId::Unknown }
}

/// What a generator stands for.
pub struct GeneratorView {
    /// The contacts of the last step.
    pub manifold: ContactManifoldView,
    /// The points that the last search left in the simplex.
    pub simplex: Seq<AnnotatedPoint>,
    /// The direction from the first shape towards the second along which
    /// the last search ended.
    pub last_gjk_dir: Option<Vec3>,
}

/// The generator `state` and the allocator `alloc` after a step on the
/// shapes `a` and `b`.
///
/// The contacts of the step before go to the cache. The search starts from
/// the point of the difference of the two cores along the seed direction.
/// Where it ends with a projection, the manifold gets one contact, and the
/// normal of the contact is the direction that is kept; where it proves the
/// cores farther apart than the reach, the manifold stays empty and the
/// direction of the proof is kept; where the cores meet, or their closest
/// points coincide, the manifold stays empty and the direction is left as
/// it was.
pub open spec fn updated<G1: Implicit<Vec3, Isometry>, G2: Implicit<Vec3, Isometry>>(
    state: GeneratorView,
    alloc: IdAllocatorView,
    ida: usize,
    ma: &Isometry,
    a: &G1,
    idb: usize,
    mb: &Isometry,
    b: &G2,
    prediction: int,
) -> (GeneratorView, IdAllocatorView) {
    let seed = seed_point(ma, a, mb, b, seed_direction(state.last_gjk_dir, *ma, *mb));
    let outcome = search_cores::<VoronoiSimplex<AnnotatedPoint>, G1, G2, Isometry>(
        ma,
        a,
        mb,
        b,
        Some(reach(prediction, a.margin_spec(), b.margin_spec())),
        seq![seed],
    );
    let cleared = ContactManifoldView {
        subshape_id1: ida,
        subshape_id2: idb,
        contacts: Seq::empty(),
        cache: entries_of(state.manifold.contacts),
    };
    let alloc1 = released(alloc, state.manifold.cache);
    let quiet = (
        GeneratorView { manifold: cleared, simplex: outcome.1, last_gjk_dir: state.last_gjk_dir },
        alloc1,
    );
    match outcome.0 {
        GJKResult::Projection(p) => match contact_between(
            witnesses(p).0,
            witnesses(p).1,
            a.margin_spec(),
            b.margin_spec(),
        ) {
            Some(contact) => (
                GeneratorView {
                    manifold: cleared.pushed(alloc1, contact, unknown_features()),
                    simplex: outcome.1,
                    last_gjk_dir: Some(contact.normal),
                },
                if cleared.is_new(unknown_features()) {
                    alloc1.after_alloc()
                } else {
                    alloc1
                },
            ),
            None => quiet,
        },
        GJKResult::NoIntersection(dir) => (
            GeneratorView {
                manifold: cleared,
                simplex: outcome.1,
                last_gjk_dir: Some(dir.point.opposite()),
            },
            alloc1,
        ),
        GJKResult::Intersection => quiet,
    }
}

/// A margin as the generator takes it.
fn clamp_margin(margin: i64) -> (r: i64)
    ensures
        r == clamped_margin(margin as int),
        0 <= r <= COORD_MAX,
{
    if margin < 0 {
        0
    } else if margin > COORD_MAX {
        COORD_MAX
    } else {
        margin
    }
}

/// The direction along which the search of a step starts.
fn seed_direction_exec(last: Option<Vec3>, ma: &Isometry, mb: &Isometry) -> (dir: Vec3)
    requires
        last is Some ==> last->0.within(COORD_MAX as int),
    ensures
        dir == seed_direction(last, *ma, *mb),
        dir.within(COORD_MAX as int),
{
    match last {
        Some(d) => d,
        None => {
            if ma.translation.is_within(COORD_MAX) && mb.translation.is_within(COORD_MAX) {
                let towards: Vec3 = mb.translation.sub(&ma.translation).rescaled(UNIT);
                if towards.x != 0 || towards.y != 0 || towards.z != 0 {
                    return towards;
                }
            }
            Vec3::new(UNIT, 0, 0)
        },
    }
}

/// The contact between two shapes whose cores are closest at `pa` and `pb`.
fn contact_between_exec(pa: Vec3, pb: Vec3, margin_a: i64, margin_b: i64) -> (c: Option<Contact>)
    requires
        pa.within(COORD_MAX as int),
        pb.within(COORD_MAX as int),
    ensures
        c == contact_between(pa, pb, margin_a as int, margin_b as int),
        c is Some ==> c->0.normal.within(UNIT as int),
{
    let diff: Vec3 = pb.sub(&pa);
    let normal: Vec3 = diff.rescaled(UNIT);
    if normal.x == 0 && normal.y == 0 && normal.z == 0 {
        return None;
    }
    let world1: Vec3 = pa.add(&diff.rescaled(clamp_margin(margin_a)));
    let world2: Vec3 = pb.sub(&diff.rescaled(clamp_margin(margin_b)));
    Some(Contact::new_wo_depth(world1, world2, normal))
}

/// Persistent contact generator between two shapes that have a support
/// function. It keeps, from one step to the next, the contact that it
/// found, the simplex of its search and the direction in which the search
/// ended.
pub struct SupportMapSupportMapManifoldGenerator {
    manifold: ContactManifold,
    simplex: VoronoiSimplex<AnnotatedPoint>,
    last_gjk_dir: Option<Vec3>,
}

impl View for SupportMapSupportMapManifoldGenerator {
    type V = GeneratorView;

    closed spec fn view(&self) -> GeneratorView {
        GeneratorView {
            manifold: self.manifold@,
            simplex: self.simplex.vertices@,
            last_gjk_dir: self.last_gjk_dir,
        }
    }
}

impl Clone for SupportMapSupportMapManifoldGenerator {
    fn clone(&self) -> (r: SupportMapSupportMapManifoldGenerator)
        ensures
            r@ == self@,
            self.wf() ==> r.wf(),
    {
        SupportMapSupportMapManifoldGenerator {
            manifold: self.manifold.duplicate(),
            simplex: self.simplex.duplicate(),
            last_gjk_dir: self.last_gjk_dir,
        }
    }
}

impl SupportMapSupportMapManifoldGenerator {
    /// The simplex and the direction that are kept lie within the range of
    /// the lattice.
    pub closed spec fn wf(&self) -> bool {
        &&& self.simplex.wf()
        &&& self.last_gjk_dir is Some ==> self.last_gjk_dir->0.within(COORD_MAX as int)
    }

    /// Creates a new persistent collision detector between two shapes that
    /// have a support function.
    pub fn new() -> (g: SupportMapSupportMapManifoldGenerator)
        ensures
            g.wf(),
            g@ == (GeneratorView {
                manifold: ContactManifoldView {
                    subshape_id1: 0,
                    subshape_id2: 0,
                    contacts: Seq::empty(),
                    cache: Seq::empty(),
                },
                simplex: Seq::empty(),
                last_gjk_dir: None,
            }),
    {
        SupportMapSupportMapManifoldGenerator {
            manifold: ContactManifold::new(),
            simplex: VoronoiSimplex::new(),
            last_gjk_dir: None,
        }
    }

    /// Runs one step on the shapes `a`, placed by `ma`, and `b`, placed by
    /// `mb`, each given as its support function where it has one.
    ///
    /// Returns `false`, and changes nothing, where one of the shapes has no
    /// support function. Else the manifold holds, after the step, the
    /// contact between the two shapes where their cores are no farther apart
    /// than the prediction margin and their own margins, and nothing where
    /// they are; a contact that the step before found as well keeps its
    /// identifier. Where the cores themselves meet, the manifold is left
    /// empty.
    pub fn update<G1: Implicit<Vec3, Isometry>, G2: Implicit<Vec3, Isometry>>(
        &mut self,
        ida: usize,
        ma: &Isometry,
        a: Option<&G1>,
        idb: usize,
        mb: &Isometry,
        b: Option<&G2>,
        prediction: i64,
        id_alloc: &mut IdAllocator,
    ) -> (res: bool)
        requires
            old(self).wf(),
            old(id_alloc)@.wf(),
            old(id_alloc)@.can_alloc(),
            match (a, b) {
                (Some(ga), Some(gb)) => ga.wf(ma) && gb.wf(mb) && ga.extent(ma) + gb.extent(mb)
                    <= COORD_MAX,
                _ => true,
            },
        ensures
            final(self).wf(),
            final(id_alloc)@.wf(),
            match (a, b) {
                (Some(ga), Some(gb)) => res && (final(self)@, final(id_alloc)@) == updated(
                    old(self)@,
                    old(id_alloc)@,
                    ida,
                    ma,
                    ga,
                    idb,
                    mb,
                    gb,
                    prediction as int,
                ),
                _ => !res && final(self)@ == old(self)@ && final(id_alloc)@ == old(id_alloc)@,
            },
    {
        match (a, b) {
            (Some(ga), Some(gb)) => {
                proof {
                    lemma_released_can_alloc(old(id_alloc)@, old(self).manifold@.cache);
                }
                self.manifold.set_subshape_id1(ida);
                self.manifold.set_subshape_id2(idb);
                self.manifold.save_cache_and_clear(id_alloc);

                let dir: Vec3 = seed_direction_exec(self.last_gjk_dir, ma, mb);
                let reflect = Reflection::new(gb);
                let cso = AnnotatedMinkowskiSum::new(ma, ga, mb, &reflect);
                let seed: AnnotatedPoint = cso.support_point_without_margin(
                    &Identity::new(),
                    &AnnotatedPoint::new_invalid(dir),
                );
                self.simplex.reset(seed);

                let margin_a: i64 = ga.margin();
                let margin_b: i64 = gb.margin();
                let max_dist: i64 = saturating_sum_exec(
                    saturating_sum_exec(prediction, clamp_margin(margin_a)),
                    clamp_margin(margin_b),
                );
                let contact_result = closest_points_without_margin_with_max_dist(
                    ma,
                    ga,
                    mb,
                    gb,
                    max_dist,
                    &mut self.simplex,
                );
                match contact_result {
                    GJKResult::Projection(w) => {
                        match contact_between_exec(w.0, w.1, margin_a, margin_b) {
                            Some(contact) => {
                                self.last_gjk_dir = Some(contact.normal);
                                let kinematic = ContactKinematic::new();
                                let _ = self.manifold.push(contact, kinematic, id_alloc);
                            },
                            None => {},
                        }
                    },
                    GJKResult::NoIntersection(dir) => {
                        self.last_gjk_dir = Some(dir.reversed());
                    },
                    GJKResult::Intersection => {},
                }
                true
            },
            _ => false,
        }
    }

    /// The number of contacts that the last step found.
    pub fn num_contacts(&self) -> (n: usize)
        ensures
            n == self@.manifold.contacts.len(),
    {
        self.manifold.len()
    }

    /// Adds the manifold of this generator to `out`, unless the manifold is
    /// empty.
    pub fn contacts<'a: 'b, 'b>(&'a self, out: &'b mut Vec<&'a ContactManifold>)
        ensures
            self@.manifold.contacts.len() == 0 ==> final(out)@ == old(out)@,
            self@.manifold.contacts.len() != 0 ==> final(out)@.len() == old(out)@.len() + 1
                && final(out)@.last()@ == self@.manifold && final(out)@.drop_last() == old(
                out,
            )@,
    {
        if self.manifold.len() != 0 {
            out.push(&self.manifold);
            proof {
                assert(out@.drop_last() =~= old(out)@);
            }
        }
    }
}

/// A contact that is found again in the next step, between the same parts
/// of the two shapes, keeps its identifier, and the allocator issues
/// nothing for it.
pub proof fn lemma_contact_keeps_id<
    G1: Implicit<Vec3, Isometry>,
    G2: Implicit<Vec3, Isometry>,
    H1: Implicit<Vec3, Isometry>,
    H2: Implicit<Vec3, Isometry>,
>(
    state: GeneratorView,
    alloc: IdAllocatorView,
    ida: usize,
    idb: usize,
    ma: &Isometry,
    a: &G1,
    mb: &Isometry,
    b: &G2,
    prediction: int,
    na: &Isometry,
    c: &H1,
    nb: &Isometry,
    d: &H2,
    next_prediction: int,
)
    ensures
        ({
            let first = updated(state, alloc, ida, ma, a, idb, mb, b, prediction);
            let second = updated(first.0, first.1, ida, na, c, idb, nb, d, next_prediction);
            first.0.manifold.contacts.len() <= 1 && second.0.manifold.contacts.len() <= 1 && (
            first.0.manifold.contacts.len() == 1 && second.0.manifold.contacts.len() == 1
                ==> second.0.manifold.contacts[0].id == first.0.manifold.contacts[0].id
                && second.1 == released(first.1, first.0.manifold.cache))
        }),
{
    let first = updated(state, alloc, ida, ma, a, idb, mb, b, prediction);
    let second = updated(first.0, first.1, ida, na, c, idb, nb, d, next_prediction);
    if first.0.manifold.contacts.len() == 1 && second.0.manifold.contacts.len() == 1 {
        let cache = entries_of(first.0.manifold.contacts);
        assert(cache.len() == 1);
        lemma_find_match(cache, ida, idb, unknown_features(), 0);
    }
}

/// A step leaves the manifold holding its identifiers rightfully: where the
/// identifiers of the manifold were in use in the allocator before the
/// step, and no two of them the same, the same holds after it.
pub proof fn lemma_update_keeps_track<G1: Implicit<Vec3, Isometry>, G2: Implicit<Vec3, Isometry>>(
    state: GeneratorView,
    alloc: IdAllocatorView,
    ida: usize,
    ma: &Isometry,
    a: &G1,
    idb: usize,
    mb: &Isometry,
    b: &G2,
    prediction: int,
)
    requires
        alloc.wf(),
        alloc.can_alloc(),
        state.manifold.tracks(alloc),
    ensures
        updated(state, alloc, ida, ma, a, idb, mb, b, prediction).1.wf(),
        updated(state, alloc, ida, ma, a, idb, mb, b, prediction).0.manifold.tracks(
            updated(state, alloc, ida, ma, a, idb, mb, b, prediction).1,
        ),
{
    let cleared = ContactManifoldView {
        subshape_id1: ida,
        subshape_id2: idb,
        contacts: Seq::empty(),
        cache: entries_of(state.manifold.contacts),
    };
    let alloc1 = released(alloc, state.manifold.cache);
    lemma_released_live(alloc, state.manifold.cache);
    lemma_released_can_alloc(alloc, state.manifold.cache);
    lemma_cleared_tracks(state.manifold, alloc, ida, idb);
    alloc1.lemma_after_alloc();
    let after = updated(state, alloc, ida, ma, a, idb, mb, b, prediction);
    if after.0.manifold != cleared {
        let contact = after.0.manifold.contacts[0].contact;
        lemma_pushed_tracks(cleared, alloc1, contact, unknown_features());
    }
}

} // verus!
