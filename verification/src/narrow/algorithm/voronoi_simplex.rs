//! A simplex of up to four points that reduces itself by exact arithmetic.

use crate::math::dot;
use crate::math::lemma_dot_bound;
use crate::math::lemma_mul_bound;
use crate::math::sqnorm;
use crate::math::AlgebraicVec;
use crate::math::Vec3;
use crate::math::COORD_MAX;
use crate::narrow::algorithm::simplex::Simplex;
use crate::utils::copy_vec;
use vstd::prelude::*;

verus! {

/// The weight of the first end in the projection of the origin on the line
/// through `a` and `b`: the dot product of `b` and `b - a`.
pub open spec fn segment_weight_a(a: Vec3, b: Vec3) -> int {
    dot(b, b) - dot(a, b)
}

/// The weight of the second end in the projection of the origin on the line
/// through `a` and `b`: the dot product of `a` and `a - b`.
pub open spec fn segment_weight_b(a: Vec3, b: Vec3) -> int {
    dot(a, a) - dot(a, b)
}

/// The weight of `a` in the projection of the origin on the plane through
/// `a`, `b` and `c`.
pub open spec fn triangle_weight_a(a: Vec3, b: Vec3, c: Vec3) -> int {
    (dot(a, b) - dot(b, b)) * (dot(a, c) - dot(c, c)) - (dot(a, c) - dot(b, c)) * (dot(a, b)
        - dot(b, c))
}

/// The weight of `b` in the projection of the origin on the plane through
/// `a`, `b` and `c`.
pub open spec fn triangle_weight_b(a: Vec3, b: Vec3, c: Vec3) -> int {
    (dot(a, c) - dot(b, c)) * (dot(a, a) - dot(a, c)) - (dot(a, a) - dot(a, b)) * (dot(a, c)
        - dot(c, c))
}

/// The weight of `c` in the projection of the origin on the plane through
/// `a`, `b` and `c`.
pub open spec fn triangle_weight_c(a: Vec3, b: Vec3, c: Vec3) -> int {
    (dot(a, a) - dot(a, b)) * (dot(a, b) - dot(b, c)) - (dot(a, b) - dot(b, b)) * (dot(a, a)
        - dot(a, c))
}

/// The determinant of three vectors: six times the signed volume of the
/// tetrahedron that they span with the origin.
pub open spec fn triple(a: Vec3, b: Vec3, c: Vec3) -> int {
    a.x * (b.y * c.z - b.z * c.y) + a.y * (b.z * c.x - b.x * c.z) + a.z * (b.x * c.y - b.y
        * c.x)
}

/// The weights of the origin in the tetrahedron `a`, `b`, `c`, `d`, all of
/// one sign exactly where the origin lies strictly inside.
pub open spec fn tetrahedron_weights(a: Vec3, b: Vec3, c: Vec3, d: Vec3) -> (int, int, int, int) {
    (triple(b, c, d), -triple(a, c, d), triple(a, b, d), -triple(a, b, c))
}

/// The origin lies strictly inside the tetrahedron `a`, `b`, `c`, `d`.
pub open spec fn tetrahedron_holds_origin(a: Vec3, b: Vec3, c: Vec3, d: Vec3) -> bool {
    let w = tetrahedron_weights(a, b, c, d);
    ||| (w.0 > 0 && w.1 > 0 && w.2 > 0 && w.3 > 0)
    ||| (w.0 < 0 && w.1 < 0 && w.2 < 0 && w.3 < 0)
}

/// Of two reductions the one whose projection is nearer to the origin, the
/// first where both are as near.
pub open spec fn nearer<V: AlgebraicVec>(p: (Seq<V>, V), q: (Seq<V>, V)) -> (Seq<V>, V) {
    if sqnorm(q.1.point_spec()) < sqnorm(p.1.point_spec()) {
        q
    } else {
        p
    }
}

/// The reduction of a segment: an end where the origin projects beyond it,
/// else both ends and the projection between them.
pub open spec fn reduce_segment<V: AlgebraicVec>(a: V, b: V) -> (Seq<V>, V) {
    let wa = segment_weight_a(a.point_spec(), b.point_spec());
    let wb = segment_weight_b(a.point_spec(), b.point_spec());
    if wb <= 0 {
        (seq![a], a)
    } else if wa <= 0 {
        (seq![b], b)
    } else {
        (seq![a, b], V::combine_spec(a, b, a, a, wa, wb, 0, 0))
    }
}

/// The reduction of a triangle: the whole triangle where the origin projects
/// strictly inside it, else the nearest of the reductions of its sides.
pub open spec fn reduce_triangle<V: AlgebraicVec>(a: V, b: V, c: V) -> (Seq<V>, V) {
    let wa = triangle_weight_a(a.point_spec(), b.point_spec(), c.point_spec());
    let wb = triangle_weight_b(a.point_spec(), b.point_spec(), c.point_spec());
    let wc = triangle_weight_c(a.point_spec(), b.point_spec(), c.point_spec());
    if wa > 0 && wb > 0 && wc > 0 {
        (seq![a, b, c], V::combine_spec(a, b, c, a, wa, wb, wc, 0))
    } else {
        nearer(nearer(reduce_segment(a, b), reduce_segment(a, c)), reduce_segment(b, c))
    }
}

/// The reduction of a tetrahedron: the whole tetrahedron where the origin
/// lies strictly inside it, else the nearest of the reductions of its faces.
pub open spec fn reduce_tetrahedron<V: AlgebraicVec>(a: V, b: V, c: V, d: V) -> (Seq<V>, V) {
    let w = tetrahedron_weights(a.point_spec(), b.point_spec(), c.point_spec(), d.point_spec());
    if tetrahedron_holds_origin(a.point_spec(), b.point_spec(), c.point_spec(), d.point_spec()) {
        (
            seq![a, b, c, d],
            V::combine_spec(
                a,
                b,
                c,
                d,
                crate::math::abs(w.0),
                crate::math::abs(w.1),
                crate::math::abs(w.2),
                crate::math::abs(w.3),
            ),
        )
    } else {
        nearer(
            nearer(nearer(reduce_triangle(a, b, c), reduce_triangle(a, b, d)), reduce_triangle(a, c, d)),
            reduce_triangle(b, c, d),
        )
    }
}

/// The reduction of a simplex: the points that are kept, and the projection
/// of the origin on them.
pub open spec fn reduce<V: AlgebraicVec>(pts: Seq<V>) -> (Seq<V>, V) {
    if pts.len() == 2 {
        reduce_segment(pts[0], pts[1])
    } else if pts.len() == 3 {
        reduce_triangle(pts[0], pts[1], pts[2])
    } else if pts.len() == 4 {
        reduce_tetrahedron(pts[0], pts[1], pts[2], pts[3])
    } else {
        (pts, pts[0])
    }
}

/// The points of a simplex after the point `p` was added: `p` comes last,
/// and takes the place of the oldest point where there are four already.
pub open spec fn insert<V>(pts: Seq<V>, p: V) -> Seq<V> {
    if pts.len() >= 4 {
        pts.drop_first().push(p)
    } else {
        pts.push(p)
    }
}

/// The points `pts` are in range, and no more than four.
pub open spec fn points_in_range<V: AlgebraicVec>(pts: Seq<V>) -> bool {
    &&& pts.len() <= 4
    &&& forall|i: int| 0 <= i < pts.len() ==> (#[trigger] pts[i]).wf()
}

/// A reduction keeps between one and `max` points, all in range, and its
/// projection is in range.
pub open spec fn reduction_in_range<V: AlgebraicVec>(r: (Seq<V>, V), max: nat) -> bool {
    &&& 1 <= r.0.len() <= max
    &&& forall|i: int| 0 <= i < r.0.len() ==> (#[trigger] r.0[i]).wf()
    &&& r.1.wf()
}

/// Every point of `kept` is one of `a`, `b`, `c` and `d`.
pub open spec fn among<V>(kept: Seq<V>, a: V, b: V, c: V, d: V) -> bool {
    forall|i: int|
        0 <= i < kept.len() ==> (#[trigger] kept[i]) == a || kept[i] == b || kept[i] == c
            || kept[i] == d
}

/// Every point of `kept` is one of `pts`.
pub open spec fn taken_from<V>(kept: Seq<V>, pts: Seq<V>) -> bool {
    forall|i: int| 0 <= i < kept.len() ==> pts.contains(#[trigger] kept[i])
}

/// The squared length of the sum of `s` times `a` and `t` times `b`.
pub open spec fn combination_sqnorm(a: Vec3, b: Vec3, s: int, t: int) -> int {
    s * s * dot(a, a) + 2 * (s * t) * dot(a, b) + t * t * dot(b, b)
}

/// The differences of dot products that the weights are made of are bounded.
proof fn lemma_weight_terms(a: Vec3, b: Vec3)
    requires
        a.within(COORD_MAX as int),
        b.within(COORD_MAX as int),
    ensures
        -0xC000_0000_0000 <= dot(a, b) <= 0xC000_0000_0000,
{
    lemma_dot_bound(a, b, COORD_MAX as int);
    assert(0x80_0000 * 0x80_0000 == 0x4000_0000_0000int) by (nonlinear_arith);
}

/// The product of two differences of dot products is bounded.
proof fn lemma_weight_product(x: int, y: int)
    requires
        -0x1_8000_0000_0000 <= x <= 0x1_8000_0000_0000,
        -0x1_8000_0000_0000 <= y <= 0x1_8000_0000_0000,
    ensures
        -0x2_4000_0000_0000_0000_0000_0000 <= x * y <= 0x2_4000_0000_0000_0000_0000_0000,
{
    lemma_mul_bound(x, y, 0x1_8000_0000_0000, 0x1_8000_0000_0000);
    assert(0x1_8000_0000_0000 * 0x1_8000_0000_0000 == 0x2_4000_0000_0000_0000_0000_0000int)
        by (nonlinear_arith);
}

/// Of two reductions the one whose projection is nearer to the origin.
fn nearer_exec<V: AlgebraicVec>(p: (Vec<V>, V), q: (Vec<V>, V)) -> (r: (Vec<V>, V))
    requires
        p.1.wf(),
        q.1.wf(),
    ensures
        (r.0@, r.1) == nearer((p.0@, p.1), (q.0@, q.1)),
        r == p || r == q,
{
    proof {
        p.1.lemma_point_in_range();
        q.1.lemma_point_in_range();
    }
    if q.1.point().sqnorm() < p.1.point().sqnorm() {
        q
    } else {
        p
    }
}

/// The reduction of the segment from `a` to `b`.
fn reduce_segment_exec<V: AlgebraicVec>(a: &V, b: &V) -> (r: (Vec<V>, V))
    requires
        a.wf(),
        b.wf(),
    ensures
        (r.0@, r.1) == reduce_segment(*a, *b),
        reduction_in_range((r.0@, r.1), 2),
{
    let pa: Vec3 = a.point();
    let pb: Vec3 = b.point();
    proof {
        a.lemma_point_in_range();
        b.lemma_point_in_range();
        lemma_weight_terms(pa, pa);
        lemma_weight_terms(pa, pb);
        lemma_weight_terms(pb, pb);
    }
    let gab: i64 = pa.dot(&pb);
    let wa: i64 = pb.dot(&pb) - gab;
    let wb: i64 = pa.dot(&pa) - gab;
    if wb <= 0 {
        let mut pts: Vec<V> = Vec::new();
        pts.push(*a);
        assert(pts@ =~= seq![*a]);
        (pts, *a)
    } else if wa <= 0 {
        let mut pts: Vec<V> = Vec::new();
        pts.push(*b);
        assert(pts@ =~= seq![*b]);
        (pts, *b)
    } else {
        proof {
            V::lemma_combine(*a, *b, *a, *a, wa as int, wb as int, 0, 0);
        }
        let proj: V = V::combine(a, b, a, a, wa as u128, wb as u128, 0, 0);
        let mut pts: Vec<V> = Vec::new();
        pts.push(*a);
        pts.push(*b);
        assert(pts@ =~= seq![*a, *b]);
        (pts, proj)
    }
}

/// The reduction of the triangle `a`, `b`, `c`.
fn reduce_triangle_exec<V: AlgebraicVec>(a: &V, b: &V, c: &V) -> (r: (Vec<V>, V))
    requires
        a.wf(),
        b.wf(),
        c.wf(),
    ensures
        (r.0@, r.1) == reduce_triangle(*a, *b, *c),
        reduction_in_range((r.0@, r.1), 3),
{
    let pa: Vec3 = a.point();
    let pb: Vec3 = b.point();
    let pc: Vec3 = c.point();
    proof {
        a.lemma_point_in_range();
        b.lemma_point_in_range();
        c.lemma_point_in_range();
        lemma_weight_terms(pa, pa);
        lemma_weight_terms(pa, pb);
        lemma_weight_terms(pa, pc);
        lemma_weight_terms(pb, pb);
        lemma_weight_terms(pb, pc);
        lemma_weight_terms(pc, pc);
    }
    let gaa: i64 = pa.dot(&pa);
    let gab: i64 = pa.dot(&pb);
    let gac: i64 = pa.dot(&pc);
    let gbb: i64 = pb.dot(&pb);
    let gbc: i64 = pb.dot(&pc);
    let gcc: i64 = pc.dot(&pc);
    let d1: i128 = (gaa - gab) as i128;
    let d2: i128 = (gaa - gac) as i128;
    let d3: i128 = (gab - gbb) as i128;
    let d4: i128 = (gab - gbc) as i128;
    let d5: i128 = (gac - gbc) as i128;
    let d6: i128 = (gac - gcc) as i128;
    proof {
        lemma_weight_product(d3 as int, d6 as int);
        lemma_weight_product(d5 as int, d4 as int);
        lemma_weight_product(d5 as int, d2 as int);
        lemma_weight_product(d1 as int, d6 as int);
        lemma_weight_product(d1 as int, d4 as int);
        lemma_weight_product(d3 as int, d2 as int);
    }
    let wa: i128 = d3 * d6 - d5 * d4;
    let wb: i128 = d5 * d2 - d1 * d6;
    let wc: i128 = d1 * d4 - d3 * d2;
    if wa > 0 && wb > 0 && wc > 0 {
        proof {
            V::lemma_combine(*a, *b, *c, *a, wa as int, wb as int, wc as int, 0);
        }
        let proj: V = V::combine(a, b, c, a, wa as u128, wb as u128, wc as u128, 0);
        let mut pts: Vec<V> = Vec::new();
        pts.push(*a);
        pts.push(*b);
        pts.push(*c);
        assert(pts@ =~= seq![*a, *b, *c]);
        (pts, proj)
    } else {
        let ab = reduce_segment_exec(a, b);
        let ac = reduce_segment_exec(a, c);
        let bc = reduce_segment_exec(b, c);
        nearer_exec(nearer_exec(ab, ac), bc)
    }
}

/// The determinant of three vectors.
fn triple_exec(a: &Vec3, b: &Vec3, c: &Vec3) -> (t: i128)
    requires
        a.within(COORD_MAX as int),
        b.within(COORD_MAX as int),
        c.within(COORD_MAX as int),
    ensures
        t == triple(*a, *b, *c),
        -0x1_8000_0000_0000_0000_00 <= t <= 0x1_8000_0000_0000_0000_00,
{
    proof {
        assert(0x80_0000 * 0x80_0000 == 0x4000_0000_0000int) by (nonlinear_arith);
        assert(0x80_0000 * 0x8000_0000_0000 == 0x40_0000_0000_0000_0000int) by (nonlinear_arith);
        lemma_mul_bound(b.y as int, c.z as int, COORD_MAX as int, COORD_MAX as int);
        lemma_mul_bound(b.z as int, c.y as int, COORD_MAX as int, COORD_MAX as int);
        lemma_mul_bound(b.z as int, c.x as int, COORD_MAX as int, COORD_MAX as int);
        lemma_mul_bound(b.x as int, c.z as int, COORD_MAX as int, COORD_MAX as int);
        lemma_mul_bound(b.x as int, c.y as int, COORD_MAX as int, COORD_MAX as int);
        lemma_mul_bound(b.y as int, c.x as int, COORD_MAX as int, COORD_MAX as int);
    }
    let cx: i64 = b.y * c.z - b.z * c.y;
    let cy: i64 = b.z * c.x - b.x * c.z;
    let cz: i64 = b.x * c.y - b.y * c.x;
    proof {
        lemma_mul_bound(a.x as int, cx as int, COORD_MAX as int, 0x8000_0000_0000);
        lemma_mul_bound(a.y as int, cy as int, COORD_MAX as int, 0x8000_0000_0000);
        lemma_mul_bound(a.z as int, cz as int, COORD_MAX as int, 0x8000_0000_0000);
    }
    (a.x as i128) * (cx as i128) + (a.y as i128) * (cy as i128) + (a.z as i128) * (cz as i128)
}

/// The magnitude of a weight.
fn magnitude(w: i128) -> (m: u128)
    requires
        -0x1_8000_0000_0000_0000_00 <= w <= 0x1_8000_0000_0000_0000_00,
    ensures
        m == crate::math::abs(w as int),
{
    if w < 0 {
        (-w) as u128
    } else {
        w as u128
    }
}

/// The reduction of the tetrahedron `a`, `b`, `c`, `d`.
fn reduce_tetrahedron_exec<V: AlgebraicVec>(a: &V, b: &V, c: &V, d: &V) -> (r: (Vec<V>, V))
    requires
        a.wf(),
        b.wf(),
        c.wf(),
        d.wf(),
    ensures
        (r.0@, r.1) == reduce_tetrahedron(*a, *b, *c, *d),
        reduction_in_range((r.0@, r.1), 4),
{
    let pa: Vec3 = a.point();
    let pb: Vec3 = b.point();
    let pc: Vec3 = c.point();
    let pd: Vec3 = d.point();
    proof {
        a.lemma_point_in_range();
        b.lemma_point_in_range();
        c.lemma_point_in_range();
        d.lemma_point_in_range();
    }
    let wa: i128 = triple_exec(&pb, &pc, &pd);
    let wb: i128 = -triple_exec(&pa, &pc, &pd);
    let wc: i128 = triple_exec(&pa, &pb, &pd);
    let wd: i128 = -triple_exec(&pa, &pb, &pc);
    if (wa > 0 && wb > 0 && wc > 0 && wd > 0) || (wa < 0 && wb < 0 && wc < 0 && wd < 0) {
        let ma: u128 = magnitude(wa);
        let mb: u128 = magnitude(wb);
        let mc: u128 = magnitude(wc);
        let md: u128 = magnitude(wd);
        proof {
            V::lemma_combine(*a, *b, *c, *d, ma as int, mb as int, mc as int, md as int);
        }
        let proj: V = V::combine(a, b, c, d, ma, mb, mc, md);
        let mut pts: Vec<V> = Vec::new();
        pts.push(*a);
        pts.push(*b);
        pts.push(*c);
        pts.push(*d);
        assert(pts@ =~= seq![*a, *b, *c, *d]);
        (pts, proj)
    } else {
        let abc = reduce_triangle_exec(a, b, c);
        let abd = reduce_triangle_exec(a, b, d);
        let acd = reduce_triangle_exec(a, c, d);
        let bcd = reduce_triangle_exec(b, c, d);
        nearer_exec(nearer_exec(nearer_exec(abc, abd), acd), bcd)
    }
}

/// A simplex of up to four points. Its reduction decides by exact integer
/// arithmetic which part of the simplex lies nearest to the origin, and
/// rounds only the projection itself.
pub struct VoronoiSimplex<V> {
    pub vertices: Vec<V>,
}

impl<V: AlgebraicVec> VoronoiSimplex<V> {
    /// A simplex without points.
    pub fn new() -> (s: VoronoiSimplex<V>)
        ensures
            s.wf(),
            s.points() == Seq::<V>::empty(),
    {
        VoronoiSimplex { vertices: Vec::new() }
    }

    /// A copy of the simplex.
    pub fn duplicate(&self) -> (s: VoronoiSimplex<V>)
        ensures
            s.vertices@ == self.vertices@,
    {
        VoronoiSimplex { vertices: copy_vec(&self.vertices) }
    }

    /// Makes `p` the only point of the simplex.
    pub fn reset(&mut self, p: V)
        requires
            p.wf(),
        ensures
            final(self).wf(),
            final(self).points() == seq![p],
    {
        let mut pts: Vec<V> = Vec::new();
        pts.push(p);
        assert(pts@ =~= seq![p]);
        self.vertices = pts;
    }
}

impl<V: AlgebraicVec> Simplex<V> for VoronoiSimplex<V> {
    open spec fn wf(&self) -> bool {
        &&& self.vertices@.len() <= 4
        &&& forall|i: int| 0 <= i < self.vertices@.len() ==> (#[trigger] self.vertices@[i]).wf()
    }

    open spec fn points(&self) -> Seq<V> {
        self.vertices@
    }

    open spec fn inserted(pts: Seq<V>, p: V) -> Seq<V> {
        insert(pts, p)
    }

    open spec fn reduced(pts: Seq<V>) -> (Seq<V>, V) {
        reduce(pts)
    }

    open spec fn admits(pts: Seq<V>) -> bool {
        points_in_range(pts)
    }

    proof fn lemma_points_are_admitted(&self) {
    }

    proof fn lemma_inserted_is_admitted(pts: Seq<V>, p: V) {
    }

    proof fn lemma_reduced_is_admitted(pts: Seq<V>) {
        lemma_reduce_in_range(pts);
    }

    proof fn lemma_reduced_is_idempotent(pts: Seq<V>) {
        lemma_reduce_is_idempotent(pts);
    }

    fn dimension(&self) -> (d: usize) {
        self.vertices.len() - 1
    }

    fn add_point(&mut self, p: V) {
        if self.vertices.len() >= 4 {
            let mut pts: Vec<V> = Vec::new();
            pts.push(self.vertices[1]);
            pts.push(self.vertices[2]);
            pts.push(self.vertices[3]);
            pts.push(p);
            assert(pts@ =~= insert(self.vertices@, p));
            self.vertices = pts;
        } else {
            self.vertices.push(p);
        }
    }

    fn project_origin_and_reduce(&mut self) -> (proj: V) {
        let n: usize = self.vertices.len();
        if n == 2 {
            let r = reduce_segment_exec(&self.vertices[0], &self.vertices[1]);
            self.vertices = r.0;
            r.1
        } else if n == 3 {
            let r = reduce_triangle_exec(&self.vertices[0], &self.vertices[1], &self.vertices[2]);
            self.vertices = r.0;
            r.1
        } else if n == 4 {
            let r = reduce_tetrahedron_exec(
                &self.vertices[0],
                &self.vertices[1],
                &self.vertices[2],
                &self.vertices[3],
            );
            self.vertices = r.0;
            r.1
        } else {
            self.vertices[0]
        }
    }
}

/// The reduction of a segment keeps one or two of its ends, and reducing
/// what it keeps changes nothing.
pub proof fn lemma_reduce_segment<V: AlgebraicVec>(a: V, b: V)
    ensures
        1 <= reduce_segment(a, b).0.len() <= 2,
        among(reduce_segment(a, b).0, a, b, b, b),
        reduce(reduce_segment(a, b).0) == reduce_segment(a, b),
{
    let wa = segment_weight_a(a.point_spec(), b.point_spec());
    let wb = segment_weight_b(a.point_spec(), b.point_spec());
    if wb <= 0 {
        assert(seq![a][0] == a);
    } else if wa <= 0 {
        assert(seq![b][0] == b);
    } else {
        assert(seq![a, b][0] == a && seq![a, b][1] == b);
    }
}

/// The reduction of a triangle keeps between one and three of its corners,
/// and reducing what it keeps changes nothing.
pub proof fn lemma_reduce_triangle<V: AlgebraicVec>(a: V, b: V, c: V)
    ensures
        1 <= reduce_triangle(a, b, c).0.len() <= 3,
        among(reduce_triangle(a, b, c).0, a, b, c, c),
        reduce(reduce_triangle(a, b, c).0) == reduce_triangle(a, b, c),
{
    let r = reduce_triangle(a, b, c);
    lemma_reduce_segment(a, b);
    lemma_reduce_segment(a, c);
    lemma_reduce_segment(b, c);
    if triangle_weight_a(a.point_spec(), b.point_spec(), c.point_spec()) > 0 && triangle_weight_b(
        a.point_spec(),
        b.point_spec(),
        c.point_spec(),
    ) > 0 && triangle_weight_c(a.point_spec(), b.point_spec(), c.point_spec()) > 0 {
        assert(seq![a, b, c][0] == a && seq![a, b, c][1] == b && seq![a, b, c][2] == c);
    } else {
        assert(r == reduce_segment(a, b) || r == reduce_segment(a, c) || r == reduce_segment(
            b,
            c,
        ));
    }
}

/// The reduction of a tetrahedron keeps between one and four of its
/// corners, and reducing what it keeps changes nothing.
pub proof fn lemma_reduce_tetrahedron<V: AlgebraicVec>(a: V, b: V, c: V, d: V)
    ensures
        1 <= reduce_tetrahedron(a, b, c, d).0.len() <= 4,
        among(reduce_tetrahedron(a, b, c, d).0, a, b, c, d),
        reduce(reduce_tetrahedron(a, b, c, d).0) == reduce_tetrahedron(a, b, c, d),
{
    let r = reduce_tetrahedron(a, b, c, d);
    lemma_reduce_triangle(a, b, c);
    lemma_reduce_triangle(a, b, d);
    lemma_reduce_triangle(a, c, d);
    lemma_reduce_triangle(b, c, d);
    if tetrahedron_holds_origin(a.point_spec(), b.point_spec(), c.point_spec(), d.point_spec()) {
        let all = seq![a, b, c, d];
        assert(all[0] == a && all[1] == b && all[2] == c && all[3] == d);
    } else {
        assert(r == reduce_triangle(a, b, c) || r == reduce_triangle(a, b, d) || r
            == reduce_triangle(a, c, d) || r == reduce_triangle(b, c, d));
    }
}

/// A reduction keeps some of the points of the simplex, at least one of
/// them, and adds none.
pub proof fn lemma_reduce_keeps_points<V: AlgebraicVec>(pts: Seq<V>)
    requires
        1 <= pts.len() <= 4,
    ensures
        1 <= reduce(pts).0.len() <= pts.len(),
        taken_from(reduce(pts).0, pts),
{
    let kept = reduce(pts).0;
    if pts.len() == 2 {
        lemma_reduce_segment(pts[0], pts[1]);
    } else if pts.len() == 3 {
        lemma_reduce_triangle(pts[0], pts[1], pts[2]);
    } else if pts.len() == 4 {
        lemma_reduce_tetrahedron(pts[0], pts[1], pts[2], pts[3]);
    }
    assert forall|i: int| 0 <= i < kept.len() implies pts.contains(#[trigger] kept[i]) by {
        if pts.len() == 1 {
            assert(kept[i] == pts[i]);
        } else {
            let last = pts.len() - 1;
            assert(kept[i] == pts[0] || kept[i] == pts[1] || kept[i] == pts[last] || kept[i]
                == pts[last - 1]);
        }
    }
}

/// A reduction is idempotent: reducing a simplex twice in a row leaves the
/// points and the projection that the first reduction gave.
pub proof fn lemma_reduce_is_idempotent<V: AlgebraicVec>(pts: Seq<V>)
    ensures
        reduce(reduce(pts).0) == reduce(pts),
{
    if pts.len() == 2 {
        lemma_reduce_segment(pts[0], pts[1]);
    } else if pts.len() == 3 {
        lemma_reduce_triangle(pts[0], pts[1], pts[2]);
    } else if pts.len() == 4 {
        lemma_reduce_tetrahedron(pts[0], pts[1], pts[2], pts[3]);
    }
}

/// The reduction of a segment with ends in range is in range.
pub proof fn lemma_reduce_segment_in_range<V: AlgebraicVec>(a: V, b: V)
    requires
        a.wf(),
        b.wf(),
    ensures
        reduction_in_range(reduce_segment(a, b), 2),
{
    let wa = segment_weight_a(a.point_spec(), b.point_spec());
    let wb = segment_weight_b(a.point_spec(), b.point_spec());
    if wb > 0 && wa > 0 {
        V::lemma_combine(a, b, a, a, wa, wb, 0, 0);
    }
}

/// The reduction of a triangle with corners in range is in range.
pub proof fn lemma_reduce_triangle_in_range<V: AlgebraicVec>(a: V, b: V, c: V)
    requires
        a.wf(),
        b.wf(),
        c.wf(),
    ensures
        reduction_in_range(reduce_triangle(a, b, c), 3),
{
    let wa = triangle_weight_a(a.point_spec(), b.point_spec(), c.point_spec());
    let wb = triangle_weight_b(a.point_spec(), b.point_spec(), c.point_spec());
    let wc = triangle_weight_c(a.point_spec(), b.point_spec(), c.point_spec());
    if wa > 0 && wb > 0 && wc > 0 {
        V::lemma_combine(a, b, c, a, wa, wb, wc, 0);
    } else {
        lemma_reduce_segment_in_range(a, b);
        lemma_reduce_segment_in_range(a, c);
        lemma_reduce_segment_in_range(b, c);
    }
}

/// The reduction of a tetrahedron with corners in range is in range.
pub proof fn lemma_reduce_tetrahedron_in_range<V: AlgebraicVec>(a: V, b: V, c: V, d: V)
    requires
        a.wf(),
        b.wf(),
        c.wf(),
        d.wf(),
    ensures
        reduction_in_range(reduce_tetrahedron(a, b, c, d), 4),
{
    let w = tetrahedron_weights(a.point_spec(), b.point_spec(), c.point_spec(), d.point_spec());
    if tetrahedron_holds_origin(a.point_spec(), b.point_spec(), c.point_spec(), d.point_spec()) {
        V::lemma_combine(
            a,
            b,
            c,
            d,
            crate::math::abs(w.0),
            crate::math::abs(w.1),
            crate::math::abs(w.2),
            crate::math::abs(w.3),
        );
    } else {
        lemma_reduce_triangle_in_range(a, b, c);
        lemma_reduce_triangle_in_range(a, b, d);
        lemma_reduce_triangle_in_range(a, c, d);
        lemma_reduce_triangle_in_range(b, c, d);
    }
}

/// The reduction of a simplex with points in range is in range.
pub proof fn lemma_reduce_in_range<V: AlgebraicVec>(pts: Seq<V>)
    requires
        points_in_range(pts),
        1 <= pts.len(),
    ensures
        reduction_in_range(reduce(pts), 4),
{
    if pts.len() == 2 {
        lemma_reduce_segment_in_range(pts[0], pts[1]);
    } else if pts.len() == 3 {
        lemma_reduce_triangle_in_range(pts[0], pts[1], pts[2]);
    } else if pts.len() == 4 {
        lemma_reduce_tetrahedron_in_range(pts[0], pts[1], pts[2], pts[3]);
    }
}

/// The weights of a segment are those of the projection of the origin on
/// its line: the weighted sum of the two ends is perpendicular to the
/// segment, and the weights add up to the squared length of the segment.
pub proof fn lemma_segment_weights_project(a: Vec3, b: Vec3)
    ensures
        segment_weight_a(a, b) * (dot(a, b) - dot(a, a)) + segment_weight_b(a, b) * (dot(b, b)
            - dot(a, b)) == 0,
        segment_weight_a(a, b) + segment_weight_b(a, b) == dot(a, a) - 2 * dot(a, b) + dot(b, b),
{
    let gaa = dot(a, a);
    let gab = dot(a, b);
    let gbb = dot(b, b);
    assert((gbb - gab) * (gab - gaa) + (gaa - gab) * (gbb - gab) == 0) by (nonlinear_arith);
}

/// A sum of three products with a common factor, taken apart.
proof fn lemma_quadratic_times(w: int, uu: int, uv: int, vv: int, ga: int, gb: int, gc: int)
    ensures
        w * (uu * ga + 2 * uv * gb + vv * gc) == uu * (w * ga) + 2 * (uv * (w * gb)) + vv * (w
            * gc),
        (uu + 2 * uv + vv) * w == uu * w + 2 * (uv * w) + vv * w,
{
    assert(w * (uu * ga + 2 * uv * gb + vv * gc) == w * (uu * ga) + w * (2 * uv * gb) + w * (vv
        * gc)) by (nonlinear_arith);
    assert(w * (uu * ga) == uu * (w * ga)) by (nonlinear_arith);
    assert(w * (2 * uv * gb) == 2 * (uv * (w * gb))) by (nonlinear_arith);
    assert(w * (vv * gc) == vv * (w * gc)) by (nonlinear_arith);
    assert((uu + 2 * uv + vv) * w == uu * w + 2 * (uv * w) + vv * w) by (nonlinear_arith);
}

/// The squared length of the sum of `s` times the first end and `t` times
/// the second, times the sum of the weights of the segment.
proof fn lemma_weighted_length(
    ga: int,
    gb: int,
    gc: int,
    w: int,
    det: int,
    wa: int,
    wb: int,
    s: int,
    t: int,
)
    requires
        w * ga - det == wb * wb,
        w * gc - det == wa * wa,
        w * gb - det == -(wa * wb),
    ensures
        w * (s * s * ga + 2 * (s * t) * gb + t * t * gc) == (s + t) * (s + t) * det + (s * wb - t
            * wa) * (s * wb - t * wa),
{
    let ss = s * s;
    let st = s * t;
    let tt = t * t;
    lemma_quadratic_times(w, ss, st, tt, ga, gb, gc);
    lemma_quadratic_times(det, ss, st, tt, ga, gb, gc);
    assert((s + t) * (s + t) == ss + 2 * st + tt) by (nonlinear_arith)
        requires
            ss == s * s,
            st == s * t,
            tt == t * t,
    ;
    assert(ss * (w * ga) == ss * det + ss * (wb * wb)) by (nonlinear_arith)
        requires
            w * ga == det + wb * wb,
    ;
    assert(tt * (w * gc) == tt * det + tt * (wa * wa)) by (nonlinear_arith)
        requires
            w * gc == det + wa * wa,
    ;
    assert(st * (w * gb) == st * det - st * (wa * wb)) by (nonlinear_arith)
        requires
            w * gb == det - wa * wb,
    ;
    crate::math::lemma_cross_square(s, t, wa, wb);
    assert((s * wa) * (t * wb) == st * (wa * wb)) by (nonlinear_arith)
        requires
            st == s * t,
    ;
}

/// No point of the line through `a` and `b` is nearer to the origin than
/// the mean of `a` and `b` with the weights of the segment: scaled to whole
/// numbers, the squared length of every sum of `u` times `a` and `v` times
/// `b` is no less than that of the weighted sum with the same total.
pub proof fn lemma_segment_projection_is_nearest(a: Vec3, b: Vec3, u: int, v: int)
    ensures
        ({
            let wa = segment_weight_a(a, b);
            let wb = segment_weight_b(a, b);
            (wa + wb) * (wa + wb) * combination_sqnorm(a, b, u, v) >= (u + v) * (u + v)
                * combination_sqnorm(a, b, wa, wb)
        }),
        segment_weight_a(a, b) + segment_weight_b(a, b) >= 0,
{
    let ga = dot(a, a);
    let gb = dot(a, b);
    let gc = dot(b, b);
    let wa = gc - gb;
    let wb = ga - gb;
    let w = wa + wb;
    let det = ga * gc - gb * gb;
    crate::math::lemma_cauchy_schwarz(a, b);
    // The weights add up to the squared length of the segment.
    let dx = a.x - b.x;
    let dy = a.y - b.y;
    let dz = a.z - b.z;
    assert(dx * dx == a.x * a.x - 2 * (a.x * b.x) + b.x * b.x) by (nonlinear_arith)
        requires
            dx == a.x - b.x,
    ;
    assert(dy * dy == a.y * a.y - 2 * (a.y * b.y) + b.y * b.y) by (nonlinear_arith)
        requires
            dy == a.y - b.y,
    ;
    assert(dz * dz == a.z * a.z - 2 * (a.z * b.z) + b.z * b.z) by (nonlinear_arith)
        requires
            dz == a.z - b.z,
    ;
    assert(dx * dx >= 0 && dy * dy >= 0 && dz * dz >= 0) by (nonlinear_arith);
    assert(w == dx * dx + dy * dy + dz * dz);
    assert(w >= 0);
    // The squared length of a sum, times the sum of the weights.
    assert(w * ga - det == wb * wb) by (nonlinear_arith)
        requires
            w == ga - 2 * gb + gc,
            det == ga * gc - gb * gb,
            wb == ga - gb,
    ;
    assert(w * gc - det == wa * wa) by (nonlinear_arith)
        requires
            w == ga - 2 * gb + gc,
            det == ga * gc - gb * gb,
            wa == gc - gb,
    ;
    assert(w * gb - det == -(wa * wb)) by (nonlinear_arith)
        requires
            w == ga - 2 * gb + gc,
            det == ga * gc - gb * gb,
            wa == gc - gb,
            wb == ga - gb,
    ;
    lemma_weighted_length(ga, gb, gc, w, det, wa, wb, u, v);
    lemma_weighted_length(ga, gb, gc, w, det, wa, wb, wa, wb);
    let qx = combination_sqnorm(a, b, u, v);
    let qn = combination_sqnorm(a, b, wa, wb);
    let mix = u * wb - v * wa;
    assert(w * qx == (u + v) * (u + v) * det + mix * mix);
    assert(wa * wb - wb * wa == 0) by (nonlinear_arith);
    assert(w * qn == (wa + wb) * (wa + wb) * det);
    assert(mix * mix >= 0) by (nonlinear_arith);
    let n = (u + v) * (u + v);
    assert(n >= 0) by (nonlinear_arith)
        requires
            n == (u + v) * (u + v),
    ;
    // Both sides times the sum of the weights, which is not negative.
    assert(w * (w * qx) >= w * (n * det)) by (nonlinear_arith)
        requires
            w >= 0,
            w * qx >= n * det,
    ;
    assert(w * (w * qx) == (w * w) * qx) by (nonlinear_arith);
    assert(w * (n * det) == n * (w * det)) by (nonlinear_arith);
    if w > 0 {
        assert(qn == w * det) by (nonlinear_arith)
            requires
                w * qn == (w * w) * det,
                w > 0,
        ;
    } else {
        // Both ends are one point, and both weights are nothing.
        assert(ga == gb && gb == gc) by {
            assert(dx == 0) by (nonlinear_arith)
                requires
                    dx * dx <= 0,
            ;
            assert(dy == 0) by (nonlinear_arith)
                requires
                    dy * dy <= 0,
            ;
            assert(dz == 0) by (nonlinear_arith)
                requires
                    dz * dz <= 0,
            ;
        }
        assert(wa == 0 && wb == 0);
        assert(qn == 0) by (nonlinear_arith)
            requires
                qn == wa * wa * ga + 2 * (wa * wb) * gb + wb * wb * gc,
                wa == 0,
                wb == 0,
        ;
        assert(w * det == 0) by (nonlinear_arith)
            requires
                w == 0,
        ;
    }
}

/// Where the reduction of a segment keeps its first end alone, no point of
/// the segment is nearer to the origin than that end; and likewise for its
/// second end.
pub proof fn lemma_segment_end_is_nearest(a: Vec3, b: Vec3, u: int, v: int)
    requires
        u >= 0,
        v >= 0,
    ensures
        segment_weight_b(a, b) <= 0 ==> combination_sqnorm(a, b, u, v) >= (u + v) * (u + v)
            * dot(a, a),
        segment_weight_a(a, b) <= 0 ==> combination_sqnorm(a, b, u, v) >= (u + v) * (u + v)
            * dot(b, b),
{
    let ga = dot(a, a);
    let gb = dot(a, b);
    let gc = dot(b, b);
    let uu = u * u;
    let uv = u * v;
    let vv = v * v;
    lemma_segment_projection_is_nearest(a, b, u, v);
    assert((u + v) * (u + v) == uu + 2 * uv + vv) by (nonlinear_arith)
        requires
            uu == u * u,
            uv == u * v,
            vv == v * v,
    ;
    assert(uu >= 0 && uv >= 0 && vv >= 0) by (nonlinear_arith)
        requires
            uu == u * u,
            uv == u * v,
            vv == v * v,
            u >= 0,
            v >= 0,
    ;
    lemma_quadratic_times(ga, uu, uv, vv, ga, gb, gc);
    lemma_quadratic_times(gc, uu, uv, vv, ga, gb, gc);
    assert((2 * uv) * gb == 2 * (uv * gb)) by (nonlinear_arith);
    if ga - gb <= 0 {
        // The second end lies no nearer along the first: gb >= ga, and so
        // gc >= ga as well.
        assert(gc >= ga);
        assert(uv * gb >= uv * ga) by (nonlinear_arith)
            requires
                uv >= 0,
                gb >= ga,
        ;
        assert(vv * gc >= vv * ga) by (nonlinear_arith)
            requires
                vv >= 0,
                gc >= ga,
        ;
    }
    if gc - gb <= 0 {
        assert(ga >= gc);
        assert(uv * gb >= uv * gc) by (nonlinear_arith)
            requires
                uv >= 0,
                gb >= gc,
        ;
        assert(uu * ga >= uu * gc) by (nonlinear_arith)
            requires
                uu >= 0,
                ga >= gc,
        ;
    }
}

/// The weights of a triangle are those of the projection of the origin on
/// its plane: the weighted sum of the three corners is perpendicular to two
/// sides of the triangle.
pub proof fn lemma_triangle_weights_project(a: Vec3, b: Vec3, c: Vec3)
    ensures
        triangle_weight_a(a, b, c) * (dot(a, b) - dot(a, a)) + triangle_weight_b(a, b, c) * (dot(
            b,
            b,
        ) - dot(a, b)) + triangle_weight_c(a, b, c) * (dot(b, c) - dot(a, c)) == 0,
        triangle_weight_a(a, b, c) * (dot(a, c) - dot(a, a)) + triangle_weight_b(a, b, c) * (dot(
            b,
            c,
        ) - dot(a, b)) + triangle_weight_c(a, b, c) * (dot(c, c) - dot(a, c)) == 0,
{
    let d1 = dot(a, a) - dot(a, b);
    let d2 = dot(a, a) - dot(a, c);
    let d3 = dot(a, b) - dot(b, b);
    let d4 = dot(a, b) - dot(b, c);
    let d5 = dot(a, c) - dot(b, c);
    let d6 = dot(a, c) - dot(c, c);
    // Along the first side the three terms are -d1, -d3 and -d5; along the
    // second they are -d2, -d4 and -d6.
    let wa = d3 * d6 - d5 * d4;
    let wb = d5 * d2 - d1 * d6;
    let wc = d1 * d4 - d3 * d2;
    assert(wa * (-d1) == (d5 * d4) * d1 - (d3 * d6) * d1) by (nonlinear_arith)
        requires
            wa == d3 * d6 - d5 * d4,
    ;
    assert(wb * (-d3) == (d1 * d6) * d3 - (d5 * d2) * d3) by (nonlinear_arith)
        requires
            wb == d5 * d2 - d1 * d6,
    ;
    assert(wc * (-d5) == (d3 * d2) * d5 - (d1 * d4) * d5) by (nonlinear_arith)
        requires
            wc == d1 * d4 - d3 * d2,
    ;
    assert((d3 * d6) * d1 == (d1 * d6) * d3) by (nonlinear_arith);
    assert((d5 * d4) * d1 == (d1 * d4) * d5) by (nonlinear_arith);
    assert((d5 * d2) * d3 == (d3 * d2) * d5) by (nonlinear_arith);
    assert(wa * (-d1) + wb * (-d3) + wc * (-d5) == 0);
    assert(wa * (-d2) == (d5 * d4) * d2 - (d3 * d6) * d2) by (nonlinear_arith)
        requires
            wa == d3 * d6 - d5 * d4,
    ;
    assert(wb * (-d4) == (d1 * d6) * d4 - (d5 * d2) * d4) by (nonlinear_arith)
        requires
            wb == d5 * d2 - d1 * d6,
    ;
    assert(wc * (-d6) == (d3 * d2) * d6 - (d1 * d4) * d6) by (nonlinear_arith)
        requires
            wc == d1 * d4 - d3 * d2,
    ;
    assert((d5 * d4) * d2 == (d5 * d2) * d4) by (nonlinear_arith);
    assert((d3 * d6) * d2 == (d3 * d2) * d6) by (nonlinear_arith);
    assert((d1 * d6) * d4 == (d1 * d4) * d6) by (nonlinear_arith);
    assert(wa * (-d2) + wb * (-d4) + wc * (-d6) == 0);
}

/// The determinant of three vectors, given by their coordinates.
spec fn det3(u1: int, u2: int, u3: int, v1: int, v2: int, v3: int, w1: int, w2: int, w3: int) -> int {
    u1 * (v2 * w3 - v3 * w2) + u2 * (v3 * w1 - v1 * w3) + u3 * (v1 * w2 - v2 * w1)
}

/// The product of a sum of three terms is the sum of their products.
proof fn lemma_product_of_sum(a: int, b: int, c: int, x: int)
    ensures
        (a + b + c) * x == a * x + b * x + c * x,
{
    assert((a + b + c) * x == a * x + b * x + c * x) by (nonlinear_arith);
}

/// A product of three factors, grouped in two ways.
proof fn lemma_products_swap(a: int, x: int, b: int)
    ensures
        (a * x) * b == a * (b * x),
        (a * x) * b == b * (a * x),
{
    assert((a * x) * b == a * (b * x)) by (nonlinear_arith);
    assert((a * x) * b == b * (a * x)) by (nonlinear_arith);
}

/// Three terms of which each is a product of one coordinate of each of
/// three vectors cancel in pairs.
proof fn lemma_minors_cancel(b1: int, b2: int, c1: int, c2: int, d1: int, d2: int)
    ensures
        b1 * (c1 * d2 - c2 * d1) - c1 * (b1 * d2 - b2 * d1) + d1 * (b1 * c2 - b2 * c1) == 0,
{
    assert(b1 * (c1 * d2 - c2 * d1) == b1 * (c1 * d2) - b1 * (c2 * d1)) by (nonlinear_arith);
    assert(c1 * (b1 * d2 - b2 * d1) == c1 * (b1 * d2) - c1 * (b2 * d1)) by (nonlinear_arith);
    assert(d1 * (b1 * c2 - b2 * c1) == d1 * (b1 * c2) - d1 * (b2 * c1)) by (nonlinear_arith);
    assert(b1 * (c1 * d2) == c1 * (b1 * d2)) by (nonlinear_arith);
    assert(b1 * (c2 * d1) == d1 * (b1 * c2)) by (nonlinear_arith);
    assert(c1 * (b2 * d1) == d1 * (b2 * c1)) by (nonlinear_arith);
}

/// The first coordinates of four vectors, each weighted with the
/// determinant of the other three, with signs in turn, add up to nothing.
proof fn lemma_weighted_coordinates_cancel(
    a1: int,
    a2: int,
    a3: int,
    b1: int,
    b2: int,
    b3: int,
    c1: int,
    c2: int,
    c3: int,
    d1: int,
    d2: int,
    d3: int,
)
    ensures
        det3(b1, b2, b3, c1, c2, c3, d1, d2, d3) * a1 - det3(a1, a2, a3, c1, c2, c3, d1, d2, d3)
            * b1 + det3(a1, a2, a3, b1, b2, b3, d1, d2, d3) * c1 - det3(
            a1,
            a2,
            a3,
            b1,
            b2,
            b3,
            c1,
            c2,
            c3,
        ) * d1 == 0,
{
    let x1 = c2 * d3 - c3 * d2;
    let x2 = c3 * d1 - c1 * d3;
    let x3 = c1 * d2 - c2 * d1;
    let y1 = b2 * d3 - b3 * d2;
    let y2 = b3 * d1 - b1 * d3;
    let y3 = b1 * d2 - b2 * d1;
    let z1 = b2 * c3 - b3 * c2;
    let z2 = b3 * c1 - b1 * c3;
    let z3 = b1 * c2 - b2 * c1;
    let p = b1 * x1 + b2 * x2 + b3 * x3;
    let q = a1 * x1 + a2 * x2 + a3 * x3;
    let r = a1 * y1 + a2 * y2 + a3 * y3;
    let s = a1 * z1 + a2 * z2 + a3 * z3;
    // The part that goes with `a1`.
    let k1 = b2 * x2 + b3 * x3 + c1 * y1 - d1 * z1;
    // With the third and the first coordinates, and with the first and the
    // second, the minors cancel.
    lemma_minors_cancel(b1, b3, c1, c3, d1, d3);
    lemma_minors_cancel(b1, b2, c1, c2, d1, d2);
    let k2 = c1 * y2 - b1 * x2 - d1 * z2;
    let k3 = c1 * y3 - b1 * x3 - d1 * z3;
    assert(c1 * y2 == -(c1 * (b1 * d3 - b3 * d1))) by (nonlinear_arith)
        requires
            y2 == -(b1 * d3 - b3 * d1),
    ;
    assert(b1 * x2 == -(b1 * (c1 * d3 - c3 * d1))) by (nonlinear_arith)
        requires
            x2 == -(c1 * d3 - c3 * d1),
    ;
    assert(d1 * z2 == -(d1 * (b1 * c3 - b3 * c1))) by (nonlinear_arith)
        requires
            z2 == -(b1 * c3 - b3 * c1),
    ;
    assert(k2 == 0);
    assert(k3 == 0);
    assert(b2 * x2 == b2 * (c3 * d1) - b2 * (c1 * d3)) by (nonlinear_arith)
        requires
            x2 == c3 * d1 - c1 * d3,
    ;
    assert(b3 * x3 == b3 * (c1 * d2) - b3 * (c2 * d1)) by (nonlinear_arith)
        requires
            x3 == c1 * d2 - c2 * d1,
    ;
    assert(c1 * y1 == c1 * (b2 * d3) - c1 * (b3 * d2)) by (nonlinear_arith)
        requires
            y1 == b2 * d3 - b3 * d2,
    ;
    assert(d1 * z1 == d1 * (b2 * c3) - d1 * (b3 * c2)) by (nonlinear_arith)
        requires
            z1 == b2 * c3 - b3 * c2,
    ;
    assert(b2 * (c3 * d1) == d1 * (b2 * c3)) by (nonlinear_arith);
    assert(b2 * (c1 * d3) == c1 * (b2 * d3)) by (nonlinear_arith);
    assert(b3 * (c1 * d2) == c1 * (b3 * d2)) by (nonlinear_arith);
    assert(b3 * (c2 * d1) == d1 * (b3 * c2)) by (nonlinear_arith);
    assert(k1 == 0);
    lemma_product_of_sum(b1 * x1, b2 * x2, b3 * x3, a1);
    lemma_product_of_sum(a1 * x1, a2 * x2, a3 * x3, b1);
    lemma_product_of_sum(a1 * y1, a2 * y2, a3 * y3, c1);
    lemma_product_of_sum(a1 * z1, a2 * z2, a3 * z3, d1);
    lemma_products_swap(b1, x1, a1);
    lemma_products_swap(b2, x2, a1);
    lemma_products_swap(b3, x3, a1);
    lemma_products_swap(a1, x1, b1);
    lemma_products_swap(a2, x2, b1);
    lemma_products_swap(a3, x3, b1);
    lemma_products_swap(a1, y1, c1);
    lemma_products_swap(a2, y2, c1);
    lemma_products_swap(a3, y3, c1);
    lemma_products_swap(a1, z1, d1);
    lemma_products_swap(a2, z2, d1);
    lemma_products_swap(a3, z3, d1);
    assert(p * a1 == a1 * (b1 * x1) + a1 * (b2 * x2) + a1 * (b3 * x3));
    assert(q * b1 == a1 * (b1 * x1) + a2 * (b1 * x2) + a3 * (b1 * x3));
    assert(r * c1 == a1 * (c1 * y1) + a2 * (c1 * y2) + a3 * (c1 * y3));
    assert(s * d1 == a1 * (d1 * z1) + a2 * (d1 * z2) + a3 * (d1 * z3));
    assert(a1 * k1 == a1 * (b2 * x2) + a1 * (b3 * x3) + a1 * (c1 * y1) - a1 * (d1 * z1))
        by (nonlinear_arith)
        requires
            k1 == b2 * x2 + b3 * x3 + c1 * y1 - d1 * z1,
    ;
    assert(a2 * k2 == a2 * (c1 * y2) - a2 * (b1 * x2) - a2 * (d1 * z2)) by (nonlinear_arith)
        requires
            k2 == c1 * y2 - b1 * x2 - d1 * z2,
    ;
    assert(a3 * k3 == a3 * (c1 * y3) - a3 * (b1 * x3) - a3 * (d1 * z3)) by (nonlinear_arith)
        requires
            k3 == c1 * y3 - b1 * x3 - d1 * z3,
    ;
    assert(p * a1 - q * b1 + r * c1 - s * d1 == a1 * k1 + a2 * k2 + a3 * k3);
    assert(a1 * k1 == 0 && a2 * k2 == 0 && a3 * k3 == 0) by (nonlinear_arith)
        requires
            k1 == 0,
            k2 == 0,
            k3 == 0,
    ;
}

/// The weights of a tetrahedron are those of the origin in it: the sum of
/// the four corners, each weighted with its weight, is the origin.
pub proof fn lemma_tetrahedron_weights_balance(a: Vec3, b: Vec3, c: Vec3, d: Vec3)
    ensures
        ({
            let w = tetrahedron_weights(a, b, c, d);
            &&& w.0 * a.x + w.1 * b.x + w.2 * c.x + w.3 * d.x == 0
            &&& w.0 * a.y + w.1 * b.y + w.2 * c.y + w.3 * d.y == 0
            &&& w.0 * a.z + w.1 * b.z + w.2 * c.z + w.3 * d.z == 0
        }),
{
    let w = tetrahedron_weights(a, b, c, d);
    lemma_weighted_coordinates_cancel(
        a.x as int,
        a.y as int,
        a.z as int,
        b.x as int,
        b.y as int,
        b.z as int,
        c.x as int,
        c.y as int,
        c.z as int,
        d.x as int,
        d.y as int,
        d.z as int,
    );
    lemma_weighted_coordinates_cancel(
        a.y as int,
        a.z as int,
        a.x as int,
        b.y as int,
        b.z as int,
        b.x as int,
        c.y as int,
        c.z as int,
        c.x as int,
        d.y as int,
        d.z as int,
        d.x as int,
    );
    lemma_weighted_coordinates_cancel(
        a.z as int,
        a.x as int,
        a.y as int,
        b.z as int,
        b.x as int,
        b.y as int,
        c.z as int,
        c.x as int,
        c.y as int,
        d.z as int,
        d.x as int,
        d.y as int,
    );
    assert((-triple(a, c, d)) * b.x == -(triple(a, c, d) * b.x)) by (nonlinear_arith);
    assert((-triple(a, b, c)) * d.x == -(triple(a, b, c) * d.x)) by (nonlinear_arith);
    assert((-triple(a, c, d)) * b.y == -(triple(a, c, d) * b.y)) by (nonlinear_arith);
    assert((-triple(a, b, c)) * d.y == -(triple(a, b, c) * d.y)) by (nonlinear_arith);
    assert((-triple(a, c, d)) * b.z == -(triple(a, c, d) * b.z)) by (nonlinear_arith);
    assert((-triple(a, b, c)) * d.z == -(triple(a, b, c) * d.z)) by (nonlinear_arith);
}

/// One coordinate of the weighted mean of four points is nothing where the
/// weighted coordinates add up to nothing.
proof fn lemma_balanced_mean_is_zero(
    xa: int,
    xb: int,
    xc: int,
    xd: int,
    wa: int,
    wb: int,
    wc: int,
    wd: int,
)
    requires
        wa + wb + wc + wd > 0,
        wa * xa + wb * xb + wc * xc + wd * xd == 0,
    ensures
        crate::math::bary_coord(xa, xb, xc, xd, wa, wb, wc, wd) == 0,
{
    let m = COORD_MAX as int;
    let w = wa + wb + wc + wd;
    assert(wa * (xa + m) == wa * xa + wa * m) by (nonlinear_arith);
    assert(wb * (xb + m) == wb * xb + wb * m) by (nonlinear_arith);
    assert(wc * (xc + m) == wc * xc + wc * m) by (nonlinear_arith);
    assert(wd * (xd + m) == wd * xd + wd * m) by (nonlinear_arith);
    assert(wa * m + wb * m + wc * m + wd * m == m * w) by (nonlinear_arith)
        requires
            w == wa + wb + wc + wd,
    ;
    assert((m * w) / w == m) by (nonlinear_arith)
        requires
            w > 0,
    ;
}

/// Where the origin lies strictly inside a tetrahedron, the reduction
/// projects on the origin itself.
pub proof fn lemma_inside_tetrahedron_projects_on_origin<V: AlgebraicVec>(a: V, b: V, c: V, d: V)
    requires
        a.wf(),
        b.wf(),
        c.wf(),
        d.wf(),
        tetrahedron_holds_origin(a.point_spec(), b.point_spec(), c.point_spec(), d.point_spec()),
    ensures
        reduce_tetrahedron(a, b, c, d).0 == seq![a, b, c, d],
        reduce_tetrahedron(a, b, c, d).1.point_spec() == (Vec3 { x: 0, y: 0, z: 0 }),
{
    let pa = a.point_spec();
    let pb = b.point_spec();
    let pc = c.point_spec();
    let pd = d.point_spec();
    let w = tetrahedron_weights(pa, pb, pc, pd);
    let ma = crate::math::abs(w.0);
    let mb = crate::math::abs(w.1);
    let mc = crate::math::abs(w.2);
    let md = crate::math::abs(w.3);
    lemma_tetrahedron_weights_balance(pa, pb, pc, pd);
    V::lemma_combine(a, b, c, d, ma, mb, mc, md);
    a.lemma_point_in_range();
    b.lemma_point_in_range();
    c.lemma_point_in_range();
    d.lemma_point_in_range();
    crate::math::lemma_bary_in_range(pa, pb, pc, pd, ma, mb, mc, md);
    if w.0 < 0 {
        assert((-w.0) * pa.x == -(w.0 * pa.x) && (-w.1) * pb.x == -(w.1 * pb.x) && (-w.2) * pc.x
            == -(w.2 * pc.x) && (-w.3) * pd.x == -(w.3 * pd.x)) by (nonlinear_arith);
        assert((-w.0) * pa.y == -(w.0 * pa.y) && (-w.1) * pb.y == -(w.1 * pb.y) && (-w.2) * pc.y
            == -(w.2 * pc.y) && (-w.3) * pd.y == -(w.3 * pd.y)) by (nonlinear_arith);
        assert((-w.0) * pa.z == -(w.0 * pa.z) && (-w.1) * pb.z == -(w.1 * pb.z) && (-w.2) * pc.z
            == -(w.2 * pc.z) && (-w.3) * pd.z == -(w.3 * pd.z)) by (nonlinear_arith);
    }
    lemma_balanced_mean_is_zero(
        pa.x as int,
        pb.x as int,
        pc.x as int,
        pd.x as int,
        ma,
        mb,
        mc,
        md,
    );
    lemma_balanced_mean_is_zero(
        pa.y as int,
        pb.y as int,
        pc.y as int,
        pd.y as int,
        ma,
        mb,
        mc,
        md,
    );
    lemma_balanced_mean_is_zero(
        pa.z as int,
        pb.z as int,
        pc.z as int,
        pd.z as int,
        ma,
        mb,
        mc,
        md,
    );
}

/// A reduction leaves four points only where they enclose the origin:
/// the origin then lies strictly inside the tetrahedron of the four points,
/// and is its own projection.
pub proof fn lemma_full_reduction_encloses_origin<V: AlgebraicVec>(pts: Seq<V>)
    requires
        points_in_range(pts),
        reduce(pts).0.len() == 4,
    ensures
        pts.len() == 4,
        reduce(pts).0 == pts,
        tetrahedron_holds_origin(
            pts[0].point_spec(),
            pts[1].point_spec(),
            pts[2].point_spec(),
            pts[3].point_spec(),
        ),
        reduce(pts).1.point_spec() == (Vec3 { x: 0, y: 0, z: 0 }),
{
    if pts.len() == 2 {
        lemma_reduce_segment(pts[0], pts[1]);
    } else if pts.len() == 3 {
        lemma_reduce_triangle(pts[0], pts[1], pts[2]);
    } else if pts.len() == 4 {
        lemma_reduce_triangle(pts[0], pts[1], pts[2]);
        lemma_reduce_triangle(pts[0], pts[1], pts[3]);
        lemma_reduce_triangle(pts[0], pts[2], pts[3]);
        lemma_reduce_triangle(pts[1], pts[2], pts[3]);
        lemma_inside_tetrahedron_projects_on_origin(pts[0], pts[1], pts[2], pts[3]);
        assert(seq![pts[0], pts[1], pts[2], pts[3]] =~= pts);
    }
}

} // verus!
