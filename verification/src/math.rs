//! Fixed-point scalars and three-dimensional lattice vectors.
//!
//! Lengths and coordinates are whole numbers of lattice steps, `UNIT` steps to
//! one unit of length. All points that the algorithms handle lie within
//! `COORD_MAX` steps of the origin on every axis, which keeps every product
//! that they form inside the machine integers.

use vstd::prelude::*;

verus! {

/// Number of lattice steps in one unit of length.
pub const UNIT: i64 = 4096;

/// Largest magnitude of a coordinate.
pub const COORD_MAX: i64 = 0x80_0000;

/// Largest sum of weights that `AlgebraicVec::combine` accepts.
pub const WEIGHT_MAX: u128 = 0x20_0000_0000_0000_0000_0000_0000;

/// A vector of the lattice.
#[derive(Clone, Copy, Debug, PartialEq, Eq, Structural)]
pub struct Vec3 {
    pub x: i64,
    pub y: i64,
    pub z: i64,
}

/// A rotation, as a quaternion whose parts are in `1 / UNIT`.
#[derive(Clone, Copy, Debug, PartialEq, Eq, Structural)]
pub struct Rotation {
    pub w: i64,
    pub i: i64,
    pub j: i64,
    pub k: i64,
}

/// The placement of a shape in space: a rotation followed by a
/// translation.
#[derive(Clone, Copy, Debug, PartialEq, Eq, Structural)]
pub struct Isometry {
    pub rotation: Rotation,
    pub translation: Vec3,
}

/// Dot product of two vectors, over the integers.
pub open spec fn dot(a: Vec3, b: Vec3) -> int {
    a.x * b.x + a.y * b.y + a.z * b.z
}

/// Squared length of a vector, over the integers.
pub open spec fn sqnorm(a: Vec3) -> int {
    dot(a, a)
}

/// The magnitude of an integer.
pub open spec fn abs(a: int) -> int {
    if a < 0 {
        -a
    } else {
        a
    }
}

/// The largest magnitude of a coordinate of `v`.
pub open spec fn max_abs(v: Vec3) -> int {
    let x = abs(v.x as int);
    let y = abs(v.y as int);
    let z = abs(v.z as int);
    if x >= y && x >= z {
        x
    } else if y >= z {
        y
    } else {
        z
    }
}

/// `r` is the square root of `n`, rounded up to a whole number.
pub open spec fn is_sqrt_up(n: int, r: int) -> bool {
    &&& r >= 0
    &&& r * r >= n
    &&& (r == 0 || (r - 1) * (r - 1) < n)
}

/// The square root of `n`, rounded up to a whole number.
pub open spec fn sqrt_up(n: int) -> int {
    choose|r: int| is_sqrt_up(n, r)
}

/// The length of a vector in `1 / UNIT` of a lattice step, rounded up.
pub open spec fn norm(a: Vec3) -> int {
    sqrt_up(sqnorm(a) * UNIT * UNIT)
}

/// One coordinate of a vector stretched to the length `len`: the coordinate
/// `c` of a vector of length `n / UNIT`, rounded towards zero. Zero where the
/// vector has no length.
pub open spec fn rescale_coord(c: int, n: int, len: int) -> int {
    if n <= 0 {
        0
    } else if c < 0 {
        -((len * (-c) * UNIT) / n)
    } else {
        (len * c * UNIT) / n
    }
}

/// The vector that points along `dir` and has the length `len`, each
/// coordinate rounded towards zero. The zero vector where `dir` is zero.
pub open spec fn rescale(dir: Vec3, len: int) -> Vec3 {
    Vec3 {
        x: rescale_coord(dir.x as int, norm(dir), len) as i64,
        y: rescale_coord(dir.y as int, norm(dir), len) as i64,
        z: rescale_coord(dir.z as int, norm(dir), len) as i64,
    }
}

/// One coordinate of a weighted mean of four points, rounded down.
pub open spec fn bary_coord(
    xa: int,
    xb: int,
    xc: int,
    xd: int,
    wa: int,
    wb: int,
    wc: int,
    wd: int,
) -> int {
    (wa * (xa + COORD_MAX) + wb * (xb + COORD_MAX) + wc * (xc + COORD_MAX) + wd * (xd
        + COORD_MAX)) / (wa + wb + wc + wd) - COORD_MAX
}

/// The weighted mean of four points, each coordinate rounded down.
pub open spec fn bary(
    a: Vec3,
    b: Vec3,
    c: Vec3,
    d: Vec3,
    wa: int,
    wb: int,
    wc: int,
    wd: int,
) -> Vec3 {
    Vec3 {
        x: bary_coord(a.x as int, b.x as int, c.x as int, d.x as int, wa, wb, wc, wd) as i64,
        y: bary_coord(a.y as int, b.y as int, c.y as int, d.y as int, wa, wb, wc, wd) as i64,
        z: bary_coord(a.z as int, b.z as int, c.z as int, d.z as int, wa, wb, wc, wd) as i64,
    }
}

/// The sum of two lengths, held within the range of the machine integers.
pub open spec fn saturating_sum(a: int, b: int) -> int {
    if a + b > i64::MAX {
        i64::MAX as int
    } else if a + b < i64::MIN {
        i64::MIN as int
    } else {
        a + b
    }
}

/// A product is bounded by the product of the bounds of its factors.
pub proof fn lemma_mul_bound(a: int, b: int, ba: int, bb: int)
    requires
        -ba <= a <= ba,
        -bb <= b <= bb,
    ensures
        -(ba * bb) <= a * b <= ba * bb,
{
    assert((ba - a) * (bb - b) >= 0) by (nonlinear_arith)
        requires
            ba - a >= 0,
            bb - b >= 0,
    ;
    assert((ba + a) * (bb + b) >= 0) by (nonlinear_arith)
        requires
            ba + a >= 0,
            bb + b >= 0,
    ;
    assert((ba - a) * (bb + b) >= 0) by (nonlinear_arith)
        requires
            ba - a >= 0,
            bb + b >= 0,
    ;
    assert((ba + a) * (bb - b) >= 0) by (nonlinear_arith)
        requires
            ba + a >= 0,
            bb - b >= 0,
    ;
    assert((ba - a) * (bb - b) == ba * bb - ba * b - a * bb + a * b) by (nonlinear_arith);
    assert((ba + a) * (bb + b) == ba * bb + ba * b + a * bb + a * b) by (nonlinear_arith);
    assert((ba - a) * (bb + b) == ba * bb + ba * b - a * bb - a * b) by (nonlinear_arith);
    assert((ba + a) * (bb - b) == ba * bb - ba * b + a * bb - a * b) by (nonlinear_arith);
}

/// The dot product of two vectors within `bound` is within `3 * bound * bound`.
pub proof fn lemma_dot_bound(a: Vec3, b: Vec3, bound: int)
    requires
        a.within(bound),
        b.within(bound),
    ensures
        -(3 * (bound * bound)) <= dot(a, b) <= 3 * (bound * bound),
{
    lemma_mul_bound(a.x as int, b.x as int, bound, bound);
    lemma_mul_bound(a.y as int, b.y as int, bound, bound);
    lemma_mul_bound(a.z as int, b.z as int, bound, bound);
}

/// A squared length is never negative.
pub proof fn lemma_sqnorm_nonneg(a: Vec3)
    ensures
        sqnorm(a) >= 0,
{
    assert(a.x * a.x >= 0) by (nonlinear_arith);
    assert(a.y * a.y >= 0) by (nonlinear_arith);
    assert(a.z * a.z >= 0) by (nonlinear_arith);
}

/// The product with a sum is the sum of the products.
pub proof fn lemma_dot_add(d: Vec3, a: Vec3, b: Vec3)
    requires
        a.within(0x4000_0000),
        b.within(0x4000_0000),
    ensures
        dot(d, a.add_spec(b)) == dot(d, a) + dot(d, b),
{
    assert(d.x * (a.x + b.x) == d.x * a.x + d.x * b.x) by (nonlinear_arith);
    assert(d.y * (a.y + b.y) == d.y * a.y + d.y * b.y) by (nonlinear_arith);
    assert(d.z * (a.z + b.z) == d.z * a.z + d.z * b.z) by (nonlinear_arith);
}

/// The product with a difference is the difference of the products.
pub proof fn lemma_dot_sub(d: Vec3, a: Vec3, b: Vec3)
    requires
        a.within(0x4000_0000),
        b.within(0x4000_0000),
    ensures
        dot(d, a.sub_spec(b)) == dot(d, a) - dot(d, b),
{
    assert(d.x * (a.x - b.x) == d.x * a.x - d.x * b.x) by (nonlinear_arith);
    assert(d.y * (a.y - b.y) == d.y * a.y - d.y * b.y) by (nonlinear_arith);
    assert(d.z * (a.z - b.z) == d.z * a.z - d.z * b.z) by (nonlinear_arith);
}

/// Reversing one of two vectors reverses the sign of their product.
pub proof fn lemma_dot_opposite(a: Vec3, b: Vec3)
    requires
        a.within(0x4000_0000),
        b.within(0x4000_0000),
    ensures
        dot(a.opposite(), b) == -dot(a, b),
        dot(a, b.opposite()) == -dot(a, b),
        a.opposite().opposite() == a,
{
    assert((-a.x) * b.x == -(a.x * b.x)) by (nonlinear_arith);
    assert((-a.y) * b.y == -(a.y * b.y)) by (nonlinear_arith);
    assert((-a.z) * b.z == -(a.z * b.z)) by (nonlinear_arith);
    assert(a.x * (-b.x) == -(a.x * b.x)) by (nonlinear_arith);
    assert(a.y * (-b.y) == -(a.y * b.y)) by (nonlinear_arith);
    assert(a.z * (-b.z) == -(a.z * b.z)) by (nonlinear_arith);
}

/// The square of a difference of two products of coordinates, written out.
pub proof fn lemma_cross_square(a: int, b: int, c: int, d: int)
    ensures
        (a * d - b * c) * (a * d - b * c) == (a * a) * (d * d) + (b * b) * (c * c) - 2 * ((a * c)
            * (b * d)),
{
    let ad = a * d;
    let bc = b * c;
    assert((ad - bc) * (ad - bc) == ad * ad + bc * bc - 2 * (ad * bc)) by (nonlinear_arith);
    assert(ad * ad == (a * a) * (d * d)) by (nonlinear_arith)
        requires
            ad == a * d,
    ;
    assert(bc * bc == (b * b) * (c * c)) by (nonlinear_arith)
        requires
            bc == b * c,
    ;
    assert(ad * bc == (a * c) * (b * d)) by (nonlinear_arith)
        requires
            ad == a * d,
            bc == b * c,
    ;
}

/// The product of two vectors is no more than the product of their lengths.
pub proof fn lemma_cauchy_schwarz(a: Vec3, b: Vec3)
    ensures
        dot(a, b) * dot(a, b) <= sqnorm(a) * sqnorm(b),
{
    let ax = a.x as int;
    let ay = a.y as int;
    let az = a.z as int;
    let bx = b.x as int;
    let by = b.y as int;
    let bz = b.z as int;
    let u = ax * by - ay * bx;
    let v = ax * bz - az * bx;
    let w = ay * bz - az * by;
    let px = ax * bx;
    let py = ay * by;
    let pz = az * bz;
    let sax = ax * ax;
    let say = ay * ay;
    let saz = az * az;
    let sbx = bx * bx;
    let sby = by * by;
    let sbz = bz * bz;
    lemma_cross_square(ax, ay, bx, by);
    lemma_cross_square(ax, az, bx, bz);
    lemma_cross_square(ay, az, by, bz);
    assert(u * u == sax * sby + say * sbx - 2 * (px * py));
    assert(v * v == sax * sbz + saz * sbx - 2 * (px * pz));
    assert(w * w == say * sbz + saz * sby - 2 * (py * pz));
    assert((sax + say + saz) * (sbx + sby + sbz) == sax * sbx + sax * sby + sax * sbz + say * sbx
        + say * sby + say * sbz + saz * sbx + saz * sby + saz * sbz) by (nonlinear_arith);
    assert((px + py + pz) * (px + py + pz) == px * px + py * py + pz * pz + 2 * (px * py) + 2 * (
    px * pz) + 2 * (py * pz)) by (nonlinear_arith);
    assert(px * px == sax * sbx) by (nonlinear_arith)
        requires
            px == ax * bx,
            sax == ax * ax,
            sbx == bx * bx,
    ;
    assert(py * py == say * sby) by (nonlinear_arith)
        requires
            py == ay * by,
            say == ay * ay,
            sby == by * by,
    ;
    assert(pz * pz == saz * sbz) by (nonlinear_arith)
        requires
            pz == az * bz,
            saz == az * az,
            sbz == bz * bz,
    ;
    assert(u * u >= 0) by (nonlinear_arith);
    assert(v * v >= 0) by (nonlinear_arith);
    assert(w * w >= 0) by (nonlinear_arith);
    assert(sqnorm(a) * sqnorm(b) - dot(a, b) * dot(a, b) == u * u + v * v + w * w);
}

/// At most one number is the rounded-up square root of `n`.
pub proof fn lemma_sqrt_up_unique(n: int, r: int, s: int)
    requires
        is_sqrt_up(n, r),
        is_sqrt_up(n, s),
    ensures
        r == s,
{
    if r < s {
        assert(r * r <= (s - 1) * (s - 1)) by (nonlinear_arith)
            requires
                0 <= r <= s - 1,
        ;
    }
    if s < r {
        assert(s * s <= (r - 1) * (r - 1)) by (nonlinear_arith)
            requires
                0 <= s <= r - 1,
        ;
    }
}

/// A number with the defining property is the rounded-up square root.
pub proof fn lemma_sqrt_up_is(n: int, r: int)
    requires
        is_sqrt_up(n, r),
    ensures
        sqrt_up(n) == r,
{
    lemma_sqrt_up_unique(n, r, sqrt_up(n));
}

/// Every number has a rounded-up square root.
pub proof fn lemma_sqrt_up_exists(n: int)
    ensures
        is_sqrt_up(n, sqrt_up(n)),
    decreases n,
{
    if n <= 0 {
        assert(is_sqrt_up(n, 0));
    } else {
        lemma_sqrt_up_exists(n - 1);
        let r = sqrt_up(n - 1);
        if r * r >= n {
            assert(is_sqrt_up(n, r));
        } else {
            assert((r + 1) * (r + 1) >= n) by (nonlinear_arith)
                requires
                    r * r >= n - 1,
                    r >= 0,
            ;
            assert((r + 1 - 1) * (r + 1 - 1) == r * r);
            assert(is_sqrt_up(n, r + 1));
        }
    }
}

/// A coordinate's square, scaled, is no more than the scaled squared length.
proof fn lemma_coord_below_norm(v: Vec3, c: int, n: int)
    requires
        c == v.x || c == v.y || c == v.z,
        is_sqrt_up(sqnorm(v) * UNIT * UNIT, n),
    ensures
        abs(c) * UNIT <= n,
{
    let a = abs(c) * UNIT;
    assert(v.x * v.x >= 0) by (nonlinear_arith);
    assert(v.y * v.y >= 0) by (nonlinear_arith);
    assert(v.z * v.z >= 0) by (nonlinear_arith);
    assert(abs(c) * abs(c) == c * c) by (nonlinear_arith)
        requires
            abs(c) == c || abs(c) == -c,
    ;
    assert(c * c <= sqnorm(v));
    assert(a * a == (c * c) * UNIT * UNIT) by (nonlinear_arith)
        requires
            a == abs(c) * UNIT,
            abs(c) * abs(c) == c * c,
    ;
    assert((c * c) * UNIT * UNIT <= sqnorm(v) * UNIT * UNIT) by (nonlinear_arith)
        requires
            c * c <= sqnorm(v),
    ;
    if a > n {
        assert(a * a > n * n) by (nonlinear_arith)
            requires
                a > n,
                n >= 0,
        ;
    }
}

/// One coordinate of a vector stretched to the length `len` is no more
/// than `len`.
proof fn lemma_rescale_coord_in_range(c: int, n: int, len: int)
    requires
        0 <= len,
        abs(c) * UNIT <= n,
    ensures
        -len <= rescale_coord(c, n, len) <= len,
{
    if n > 0 {
        let num = len * abs(c) * UNIT;
        assert(len * abs(c) * UNIT == len * (abs(c) * UNIT)) by (nonlinear_arith);
        assert(0 <= len * (abs(c) * UNIT) <= len * n) by (nonlinear_arith)
            requires
                0 <= abs(c) * UNIT <= n,
                0 <= len,
        ;
        assert(0 <= num / n <= len) by (nonlinear_arith)
            requires
                0 <= num <= len * n,
                n > 0,
        ;
    }
}

/// A vector stretched to the length `len` reaches no farther than `len`
/// along any axis.
pub proof fn lemma_rescale_in_range(dir: Vec3, len: int)
    requires
        0 <= len <= COORD_MAX,
    ensures
        rescale(dir, len).within(len),
        rescale(dir, len).x == rescale_coord(dir.x as int, norm(dir), len),
        rescale(dir, len).y == rescale_coord(dir.y as int, norm(dir), len),
        rescale(dir, len).z == rescale_coord(dir.z as int, norm(dir), len),
{
    let n = norm(dir);
    lemma_sqrt_up_exists(sqnorm(dir) * UNIT * UNIT);
    lemma_coord_below_norm(dir, dir.x as int, n);
    lemma_coord_below_norm(dir, dir.y as int, n);
    lemma_coord_below_norm(dir, dir.z as int, n);
    lemma_rescale_coord_in_range(dir.x as int, n, len);
    lemma_rescale_coord_in_range(dir.y as int, n, len);
    lemma_rescale_coord_in_range(dir.z as int, n, len);
}

/// A weighted mean of coordinates in range is in range.
pub proof fn lemma_bary_coord_in_range(
    xa: int,
    xb: int,
    xc: int,
    xd: int,
    wa: int,
    wb: int,
    wc: int,
    wd: int,
)
    requires
        -COORD_MAX <= xa <= COORD_MAX,
        -COORD_MAX <= xb <= COORD_MAX,
        -COORD_MAX <= xc <= COORD_MAX,
        -COORD_MAX <= xd <= COORD_MAX,
        0 <= wa,
        0 <= wb,
        0 <= wc,
        0 <= wd,
        0 < wa + wb + wc + wd,
    ensures
        -COORD_MAX <= bary_coord(xa, xb, xc, xd, wa, wb, wc, wd) <= COORD_MAX,
{
    let den = wa + wb + wc + wd;
    let num = wa * (xa + COORD_MAX) + wb * (xb + COORD_MAX) + wc * (xc + COORD_MAX) + wd * (xd
        + COORD_MAX);
    assert(0 <= wa * (xa + COORD_MAX) <= wa * 0x100_0000) by (nonlinear_arith)
        requires
            0 <= xa + COORD_MAX <= 0x100_0000,
            0 <= wa,
    ;
    assert(0 <= wb * (xb + COORD_MAX) <= wb * 0x100_0000) by (nonlinear_arith)
        requires
            0 <= xb + COORD_MAX <= 0x100_0000,
            0 <= wb,
    ;
    assert(0 <= wc * (xc + COORD_MAX) <= wc * 0x100_0000) by (nonlinear_arith)
        requires
            0 <= xc + COORD_MAX <= 0x100_0000,
            0 <= wc,
    ;
    assert(0 <= wd * (xd + COORD_MAX) <= wd * 0x100_0000) by (nonlinear_arith)
        requires
            0 <= xd + COORD_MAX <= 0x100_0000,
            0 <= wd,
    ;
    assert(0 <= num / den <= 0x100_0000) by (nonlinear_arith)
        requires
            0 <= num <= den * 0x100_0000,
            den > 0,
    ;
}

/// A weighted mean of points in range is in range.
pub proof fn lemma_bary_in_range(
    a: Vec3,
    b: Vec3,
    c: Vec3,
    d: Vec3,
    wa: int,
    wb: int,
    wc: int,
    wd: int,
)
    requires
        a.within(COORD_MAX as int),
        b.within(COORD_MAX as int),
        c.within(COORD_MAX as int),
        d.within(COORD_MAX as int),
        0 <= wa,
        0 <= wb,
        0 <= wc,
        0 <= wd,
        0 < wa + wb + wc + wd,
    ensures
        bary(a, b, c, d, wa, wb, wc, wd).within(COORD_MAX as int),
        bary(a, b, c, d, wa, wb, wc, wd).x == bary_coord(
            a.x as int,
            b.x as int,
            c.x as int,
            d.x as int,
            wa,
            wb,
            wc,
            wd,
        ),
        bary(a, b, c, d, wa, wb, wc, wd).y == bary_coord(
            a.y as int,
            b.y as int,
            c.y as int,
            d.y as int,
            wa,
            wb,
            wc,
            wd,
        ),
        bary(a, b, c, d, wa, wb, wc, wd).z == bary_coord(
            a.z as int,
            b.z as int,
            c.z as int,
            d.z as int,
            wa,
            wb,
            wc,
            wd,
        ),
{
    lemma_bary_coord_in_range(a.x as int, b.x as int, c.x as int, d.x as int, wa, wb, wc, wd);
    lemma_bary_coord_in_range(a.y as int, b.y as int, c.y as int, d.y as int, wa, wb, wc, wd);
    lemma_bary_coord_in_range(a.z as int, b.z as int, c.z as int, d.z as int, wa, wb, wc, wd);
}

/// The square root of `n`, rounded up.
pub fn sqrt_up_exec(n: u128) -> (r: u128)
    requires
        n <= 0x1_0000_0000_0000_0000_0000,
    ensures
        r == sqrt_up(n as int),
        is_sqrt_up(n as int, r as int),
        r <= 0x100_0000_0000,
{
    if n == 0 {
        proof {
            lemma_sqrt_up_is(0, 0);
        }
        return 0;
    }
    let mut lo: u128 = 0;
    let mut hi: u128 = 0x100_0000_0000;
    while hi - lo > 1
        invariant
            lo < hi <= 0x100_0000_0000,
            lo * lo < n,
            hi * hi >= n,
            0 < n <= 0x1_0000_0000_0000_0000_0000,
        decreases hi - lo,
    {
        let mid: u128 = lo + (hi - lo) / 2;
        assert(mid * mid <= 0x100_0000_0000 * 0x100_0000_0000) by (nonlinear_arith)
            requires
                0 <= mid <= 0x100_0000_0000,
        ;
        if mid * mid >= n {
            hi = mid;
        } else {
            lo = mid;
        }
    }
    proof {
        lemma_sqrt_up_is(n as int, hi as int);
    }
    hi
}

/// The sum of two lengths, held within the range of the machine integers.
pub fn saturating_sum_exec(a: i64, b: i64) -> (r: i64)
    ensures
        r == saturating_sum(a as int, b as int),
{
    let wide: i128 = (a as i128) + (b as i128);
    if wide > (i64::MAX as i128) {
        i64::MAX
    } else if wide < (i64::MIN as i128) {
        i64::MIN
    } else {
        wide as i64
    }
}

/// One coordinate of `Vec3::rescaled`.
fn rescale_coord_exec(c: i64, n: i64, len: i64) -> (r: i64)
    requires
        -2 * COORD_MAX <= c <= 2 * COORD_MAX,
        0 <= len <= COORD_MAX,
        0 <= n <= 0x100_0000_0000,
        abs(c as int) * UNIT <= n,
    ensures
        r == rescale_coord(c as int, n as int, len as int),
        -len <= r <= len,
{
    if n <= 0 {
        return 0;
    }
    let mag: i64 = if c < 0 {
        -c
    } else {
        c
    };
    proof {
        lemma_mul_bound(len as int, mag as int, COORD_MAX as int, 2 * COORD_MAX);
        assert(len * mag >= 0) by (nonlinear_arith)
            requires
                len >= 0,
                mag >= 0,
        ;
        assert(len * mag * UNIT <= len * n) by (nonlinear_arith)
            requires
                mag * UNIT <= n,
                len >= 0,
        ;
    }
    let num: i64 = len * mag * UNIT;
    let q: i64 = num / n;
    proof {
        assert(num / n <= len) by (nonlinear_arith)
            requires
                0 <= num <= len * n,
                n > 0,
        ;
        assert(num / n >= 0) by (nonlinear_arith)
            requires
                0 <= num,
                n > 0,
        ;
    }
    if c < 0 {
        -q
    } else {
        q
    }
}

/// One coordinate of a weighted mean of four points.
fn bary_coord_exec(
    xa: i64,
    xb: i64,
    xc: i64,
    xd: i64,
    wa: u128,
    wb: u128,
    wc: u128,
    wd: u128,
) -> (r: i64)
    requires
        -COORD_MAX <= xa <= COORD_MAX,
        -COORD_MAX <= xb <= COORD_MAX,
        -COORD_MAX <= xc <= COORD_MAX,
        -COORD_MAX <= xd <= COORD_MAX,
        0 < wa + wb + wc + wd <= WEIGHT_MAX,
    ensures
        r == bary_coord(
            xa as int,
            xb as int,
            xc as int,
            xd as int,
            wa as int,
            wb as int,
            wc as int,
            wd as int,
        ),
        -COORD_MAX <= r <= COORD_MAX,
{
    let sa: u128 = (xa + COORD_MAX) as u128;
    let sb: u128 = (xb + COORD_MAX) as u128;
    let sc: u128 = (xc + COORD_MAX) as u128;
    let sd: u128 = (xd + COORD_MAX) as u128;
    let den: u128 = wa + wb + wc + wd;
    proof {
        assert(0 <= wa * sa <= wa * 0x100_0000) by (nonlinear_arith)
            requires
                0 <= sa <= 0x100_0000,
                0 <= wa,
        ;
        assert(0 <= wb * sb <= wb * 0x100_0000) by (nonlinear_arith)
            requires
                0 <= sb <= 0x100_0000,
                0 <= wb,
        ;
        assert(0 <= wc * sc <= wc * 0x100_0000) by (nonlinear_arith)
            requires
                0 <= sc <= 0x100_0000,
                0 <= wc,
        ;
        assert(0 <= wd * sd <= wd * 0x100_0000) by (nonlinear_arith)
            requires
                0 <= sd <= 0x100_0000,
                0 <= wd,
        ;
    }
    let num: u128 = wa * sa + wb * sb + wc * sc + wd * sd;
    let q: u128 = num / den;
    proof {
        assert(num / den <= 0x100_0000) by (nonlinear_arith)
            requires
                0 <= num <= den * 0x100_0000,
                den > 0,
        ;
    }
    (q as i64) - COORD_MAX
}

impl Vec3 {
    /// All coordinates lie within `bound` of zero.
    pub open spec fn within(self, bound: int) -> bool {
        &&& -bound <= self.x <= bound
        &&& -bound <= self.y <= bound
        &&& -bound <= self.z <= bound
    }

    /// The vector reversed.
    pub open spec fn opposite(self) -> Vec3 {
        Vec3 { x: (-self.x) as i64, y: (-self.y) as i64, z: (-self.z) as i64 }
    }

    /// The sum of two vectors.
    pub open spec fn add_spec(self, other: Vec3) -> Vec3 {
        Vec3 {
            x: (self.x + other.x) as i64,
            y: (self.y + other.y) as i64,
            z: (self.z + other.z) as i64,
        }
    }

    /// The difference of two vectors.
    pub open spec fn sub_spec(self, other: Vec3) -> Vec3 {
        Vec3 {
            x: (self.x - other.x) as i64,
            y: (self.y - other.y) as i64,
            z: (self.z - other.z) as i64,
        }
    }

    pub fn new(x: i64, y: i64, z: i64) -> (v: Vec3)
        ensures
            v == (Vec3 { x, y, z }),
    {
        Vec3 { x, y, z }
    }

    /// The zero vector.
    pub fn zero() -> (v: Vec3)
        ensures
            v == (Vec3 { x: 0, y: 0, z: 0 }),
    {
        Vec3 { x: 0, y: 0, z: 0 }
    }

    /// Whether every coordinate lies within `bound` of zero.
    pub fn is_within(&self, bound: i64) -> (b: bool)
        requires
            0 <= bound,
        ensures
            b == self.within(bound as int),
    {
        -bound <= self.x && self.x <= bound && -bound <= self.y && self.y <= bound && -bound
            <= self.z && self.z <= bound
    }

    /// The sum of two vectors.
    pub fn add(&self, other: &Vec3) -> (v: Vec3)
        requires
            self.within(0x4000_0000),
            other.within(0x4000_0000),
        ensures
            v == self.add_spec(*other),
            v.x == self.x + other.x,
            v.y == self.y + other.y,
            v.z == self.z + other.z,
    {
        Vec3 { x: self.x + other.x, y: self.y + other.y, z: self.z + other.z }
    }

    /// The difference of two vectors.
    pub fn sub(&self, other: &Vec3) -> (v: Vec3)
        requires
            self.within(0x4000_0000),
            other.within(0x4000_0000),
        ensures
            v == self.sub_spec(*other),
            v.x == self.x - other.x,
            v.y == self.y - other.y,
            v.z == self.z - other.z,
    {
        Vec3 { x: self.x - other.x, y: self.y - other.y, z: self.z - other.z }
    }

    /// The dot product of two vectors.
    pub fn dot(&self, other: &Vec3) -> (d: i64)
        requires
            self.within(0x4000_0000),
            other.within(0x4000_0000),
        ensures
            d == dot(*self, *other),
    {
        proof {
            lemma_mul_bound(self.x as int, other.x as int, 0x4000_0000, 0x4000_0000);
            lemma_mul_bound(self.y as int, other.y as int, 0x4000_0000, 0x4000_0000);
            lemma_mul_bound(self.z as int, other.z as int, 0x4000_0000, 0x4000_0000);
            assert(0x4000_0000 * 0x4000_0000 == 0x1000_0000_0000_0000int) by (nonlinear_arith);
        }
        self.x * other.x + self.y * other.y + self.z * other.z
    }

    /// The squared length of the vector.
    pub fn sqnorm(&self) -> (n: i64)
        requires
            self.within(2 * COORD_MAX),
        ensures
            n == sqnorm(*self),
            n >= 0,
    {
        proof {
            lemma_sqnorm_nonneg(*self);
        }
        self.dot(self)
    }

    /// The length of the vector in `1 / UNIT` of a lattice step, rounded up.
    pub fn norm(&self) -> (n: i64)
        requires
            self.within(2 * COORD_MAX),
        ensures
            n == norm(*self),
            0 <= n <= 0x100_0000_0000,
            is_sqrt_up(sqnorm(*self) * UNIT * UNIT, n as int),
    {
        let sq: i64 = self.sqnorm();
        proof {
            lemma_dot_bound(*self, *self, 2 * COORD_MAX);
            assert(sq * UNIT * UNIT == sq * (UNIT * UNIT)) by (nonlinear_arith);
        }
        let wide: u128 = (sq as u128) * 0x100_0000;
        let r: u128 = sqrt_up_exec(wide);
        r as i64
    }

    /// The vector that points along `self` and has the length `len`. The zero
    /// vector where `self` is zero.
    pub fn rescaled(&self, len: i64) -> (v: Vec3)
        requires
            self.within(2 * COORD_MAX),
            0 <= len <= COORD_MAX,
        ensures
            v == rescale(*self, len as int),
            v.within(len as int),
    {
        let n: i64 = self.norm();
        proof {
            lemma_coord_below_norm(*self, self.x as int, n as int);
            lemma_coord_below_norm(*self, self.y as int, n as int);
            lemma_coord_below_norm(*self, self.z as int, n as int);
        }
        let x: i64 = rescale_coord_exec(self.x, n, len);
        let y: i64 = rescale_coord_exec(self.y, n, len);
        let z: i64 = rescale_coord_exec(self.z, n, len);
        Vec3 { x, y, z }
    }

    /// The weighted mean of four points, each coordinate rounded down.
    pub fn weighted_mean(
        a: &Vec3,
        b: &Vec3,
        c: &Vec3,
        d: &Vec3,
        wa: u128,
        wb: u128,
        wc: u128,
        wd: u128,
    ) -> (r: Vec3)
        requires
            a.within(COORD_MAX as int),
            b.within(COORD_MAX as int),
            c.within(COORD_MAX as int),
            d.within(COORD_MAX as int),
            0 < wa + wb + wc + wd <= WEIGHT_MAX,
        ensures
            r == bary(*a, *b, *c, *d, wa as int, wb as int, wc as int, wd as int),
            r.within(COORD_MAX as int),
    {
        let x: i64 = bary_coord_exec(a.x, b.x, c.x, d.x, wa, wb, wc, wd);
        let y: i64 = bary_coord_exec(a.y, b.y, c.y, d.y, wa, wb, wc, wd);
        let z: i64 = bary_coord_exec(a.z, b.z, c.z, d.z, wa, wb, wc, wd);
        Vec3 { x, y, z }
    }

    /// The vector reversed.
    pub fn reversed(&self) -> (r: Vec3)
        requires
            self.within(COORD_MAX as int),
        ensures
            r == self.opposite(),
            r.within(COORD_MAX as int),
            r.x == -self.x,
            r.y == -self.y,
            r.z == -self.z,
    {
        Vec3 { x: -self.x, y: -self.y, z: -self.z }
    }
}

impl Rotation {
    /// The rotation that turns nothing.
    pub open spec fn identity_spec() -> Rotation {
        Rotation { w: UNIT, i: 0, j: 0, k: 0 }
    }

    /// The rotation that turns nothing.
    pub fn identity() -> (r: Rotation)
        ensures
            r == Rotation::identity_spec(),
    {
        Rotation { w: UNIT, i: 0, j: 0, k: 0 }
    }
}

impl Isometry {
    /// The placement that turns a shape by `rotation` and then moves it by
    /// `translation`.
    pub fn new(rotation: Rotation, translation: Vec3) -> (m: Isometry)
        ensures
            m == (Isometry { rotation, translation }),
    {
        Isometry { rotation, translation }
    }

    /// The placement that moves a shape by `translation` and does not turn
    /// it.
    pub fn translation(translation: Vec3) -> (m: Isometry)
        ensures
            m == (Isometry { rotation: Rotation::identity_spec(), translation }),
    {
        Isometry { rotation: Rotation::identity(), translation }
    }
}

/// A vector type that the closest-point algorithms can work on: it stands for
/// a point of the lattice, can be reversed, and weighted means of it can be
/// taken.
pub trait AlgebraicVec: Sized + Copy {
    /// The vector lies within the range of the lattice.
    spec fn wf(&self) -> bool;

    /// The point of the lattice that the vector stands for.
    spec fn point_spec(&self) -> Vec3;

    /// The vector reversed.
    spec fn neg_spec(&self) -> Self;

    /// The weighted mean of four vectors.
    spec fn combine_spec(
        a: Self,
        b: Self,
        c: Self,
        d: Self,
        wa: int,
        wb: int,
        wc: int,
        wd: int,
    ) -> Self;

    /// The dimension of the space of these vectors.
    spec fn dim_spec() -> nat;

    /// A vector in range stands for a point in range.
    proof fn lemma_point_in_range(&self)
        requires
            self.wf(),
        ensures
            self.point_spec().within(COORD_MAX as int),
    ;

    /// Reversing a vector reverses its point and keeps it in range.
    proof fn lemma_neg(&self)
        requires
            self.wf(),
        ensures
            self.neg_spec().wf(),
            self.neg_spec().point_spec() == self.point_spec().opposite(),
    ;

    /// A weighted mean of vectors in range is in range, and its point is the
    /// weighted mean of their points.
    proof fn lemma_combine(
        a: Self,
        b: Self,
        c: Self,
        d: Self,
        wa: int,
        wb: int,
        wc: int,
        wd: int,
    )
        requires
            a.wf(),
            b.wf(),
            c.wf(),
            d.wf(),
            0 <= wa,
            0 <= wb,
            0 <= wc,
            0 <= wd,
            0 < wa + wb + wc + wd,
        ensures
            Self::combine_spec(a, b, c, d, wa, wb, wc, wd).wf(),
            Self::combine_spec(a, b, c, d, wa, wb, wc, wd).point_spec() == bary(
                a.point_spec(),
                b.point_spec(),
                c.point_spec(),
                d.point_spec(),
                wa,
                wb,
                wc,
                wd,
            ),
    ;

    /// The dimension of the space of these vectors.
    fn dim() -> (d: usize)
        ensures
            d == Self::dim_spec(),
    ;

    /// The point of the lattice that the vector stands for.
    fn point(&self) -> (p: Vec3)
        requires
            self.wf(),
        ensures
            p == self.point_spec(),
    ;

    /// The vector reversed.
    fn neg(&self) -> (r: Self)
        requires
            self.wf(),
        ensures
            r == self.neg_spec(),
    ;

    /// The weighted mean of four vectors, with the weights given.
    fn combine(
        a: &Self,
        b: &Self,
        c: &Self,
        d: &Self,
        wa: u128,
        wb: u128,
        wc: u128,
        wd: u128,
    ) -> (r: Self)
        requires
            a.wf(),
            b.wf(),
            c.wf(),
            d.wf(),
            0 < wa + wb + wc + wd <= WEIGHT_MAX,
        ensures
            r == Self::combine_spec(
                *a,
                *b,
                *c,
                *d,
                wa as int,
                wb as int,
                wc as int,
                wd as int,
            ),
    ;
}

impl AlgebraicVec for Vec3 {
    open spec fn wf(&self) -> bool {
        self.within(COORD_MAX as int)
    }

    open spec fn point_spec(&self) -> Vec3 {
        *self
    }

    open spec fn neg_spec(&self) -> Vec3 {
        self.opposite()
    }

    open spec fn combine_spec(
        a: Vec3,
        b: Vec3,
        c: Vec3,
        d: Vec3,
        wa: int,
        wb: int,
        wc: int,
        wd: int,
    ) -> Vec3 {
        bary(a, b, c, d, wa, wb, wc, wd)
    }

    open spec fn dim_spec() -> nat {
        3
    }

    proof fn lemma_point_in_range(&self) {
    }

    proof fn lemma_neg(&self) {
    }

    proof fn lemma_combine(
        a: Vec3,
        b: Vec3,
        c: Vec3,
        d: Vec3,
        wa: int,
        wb: int,
        wc: int,
        wd: int,
    ) {
        lemma_bary_in_range(a, b, c, d, wa, wb, wc, wd);
    }

    fn dim() -> (d: usize) {
        3
    }

    fn point(&self) -> (p: Vec3) {
        *self
    }

    fn neg(&self) -> (r: Vec3) {
        self.reversed()
    }

    fn combine(
        a: &Vec3,
        b: &Vec3,
        c: &Vec3,
        d: &Vec3,
        wa: u128,
        wb: u128,
        wc: u128,
        wd: u128,
    ) -> (r: Vec3) {
        Vec3::weighted_mean(a, b, c, d, wa, wb, wc, wd)
    }
}

} // verus!
