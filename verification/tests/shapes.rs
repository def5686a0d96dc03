use ncollide::geom::ball::Ball;
use ncollide::geom::cone::Cone;
use ncollide::geom::cone::DEFAULT_CONE_MARGIN;
use ncollide::geom::cylinder::Cylinder;
use ncollide::geom::cylinder::DEFAULT_CYLINDER_MARGIN;
use ncollide::geom::plane::Plane;
use ncollide::implicit::Implicit;
use ncollide::math::saturating_sum_exec;
use ncollide::math::sqrt_up_exec;
use ncollide::math::AlgebraicVec;
use ncollide::math::Isometry;
use ncollide::math::Rotation;
use ncollide::math::Vec3;
use ncollide::math::COORD_MAX;
use ncollide::math::UNIT;
use ncollide::query::contact::Contact;

#[test]
fn cone_keeps_its_measures() {
    let c = Cone::new_with_margin(2 * UNIT, UNIT, 10);
    assert_eq!(c.half_height(), 2 * UNIT);
    assert_eq!(c.radius(), UNIT);
    assert_eq!(c.margin(), 10);
    let d = Cone::new(UNIT / 2, UNIT / 2);
    assert_eq!(d.half_height(), UNIT / 2);
    assert_eq!(d.radius(), UNIT / 2);
    assert_eq!(d.margin(), DEFAULT_CONE_MARGIN);
    // Four hundredths of a unit, to the nearest lattice step.
    assert_eq!(DEFAULT_CONE_MARGIN, 164);
}

#[test]
fn cylinder_keeps_its_measures() {
    let c = Cylinder::new_with_margin(2 * UNIT, UNIT, 0);
    assert_eq!(c.half_height(), 2 * UNIT);
    assert_eq!(c.radius(), UNIT);
    assert_eq!(c.margin(), 0);
    let d = Cylinder::new(UNIT, UNIT / 2);
    assert_eq!(d.half_height(), UNIT);
    assert_eq!(d.radius(), UNIT / 2);
    assert_eq!(d.margin(), DEFAULT_CYLINDER_MARGIN);
    assert_eq!(d, d.clone());
}

#[test]
fn plane_normal_is_brought_to_unit_length() {
    let p = Plane::new(Vec3::new(0, 0, 5));
    assert_eq!(p.normal(), Vec3::new(0, 0, UNIT));
    let q = Plane::new(Vec3::new(-3 * UNIT, 0, 4 * UNIT));
    assert_eq!(q.normal(), Vec3::new(-2457, 0, 3276));
    let r = Plane::new_normalized(Vec3::new(0, UNIT, 0));
    assert_eq!(r.normal(), Vec3::new(0, UNIT, 0));
}

#[test]
fn square_roots_are_rounded_up() {
    assert_eq!(sqrt_up_exec(0), 0);
    assert_eq!(sqrt_up_exec(1), 1);
    assert_eq!(sqrt_up_exec(2), 2);
    assert_eq!(sqrt_up_exec(4), 2);
    assert_eq!(sqrt_up_exec(5), 3);
    assert_eq!(sqrt_up_exec(1 << 80), 1 << 40);
    assert_eq!(sqrt_up_exec((1 << 80) - 1), 1 << 40);
    assert_eq!(sqrt_up_exec(144), 12);
}

#[test]
fn vector_lengths_and_products() {
    let v = Vec3::new(3, 4, 0);
    assert_eq!(v.sqnorm(), 25);
    assert_eq!(v.norm(), 5 * UNIT);
    assert_eq!(v.dot(&Vec3::new(1, 1, 1)), 7);
    assert_eq!(Vec3::new(1, 1, 0).norm(), 5793);
    assert_eq!(v.add(&Vec3::new(1, 2, 3)), Vec3::new(4, 6, 3));
    assert_eq!(v.sub(&Vec3::new(1, 2, 3)), Vec3::new(2, 2, -3));
    assert_eq!(v.reversed(), Vec3::new(-3, -4, 0));
    assert_eq!(Vec3::zero().norm(), 0);
    assert!(v.is_within(4));
    assert!(!v.is_within(3));
}

#[test]
fn rescaling_rounds_towards_zero() {
    assert_eq!(Vec3::new(3, 4, 0).rescaled(10), Vec3::new(6, 8, 0));
    assert_eq!(Vec3::new(-3, 4, 0).rescaled(10), Vec3::new(-6, 8, 0));
    assert_eq!(Vec3::new(1, 1, 1).rescaled(UNIT), Vec3::new(2364, 2364, 2364));
    assert_eq!(Vec3::new(-1, -1, -1).rescaled(UNIT), Vec3::new(-2364, -2364, -2364));
    assert_eq!(Vec3::zero().rescaled(UNIT), Vec3::zero());
    assert_eq!(Vec3::new(0, 0, -7).rescaled(0), Vec3::zero());
}

#[test]
fn weighted_means_round_down() {
    let a = Vec3::new(0, 0, 0);
    let b = Vec3::new(10, -10, 1);
    assert_eq!(Vec3::weighted_mean(&a, &b, &a, &a, 1, 1, 0, 0), Vec3::new(5, -5, 0));
    assert_eq!(Vec3::weighted_mean(&a, &b, &a, &a, 2, 1, 0, 0), Vec3::new(3, -4, 0));
    assert_eq!(Vec3::weighted_mean(&a, &b, &a, &a, 0, 5, 0, 0), b);
    let far = Vec3::new(COORD_MAX, -COORD_MAX, COORD_MAX);
    assert_eq!(Vec3::weighted_mean(&far, &far, &far, &far, 1 << 99, 1 << 99, 1 << 99, 1 << 99), far);
    assert_eq!(Vec3::combine(&a, &b, &a, &a, 1, 3, 0, 0), Vec3::new(7, -8, 0));
    assert_eq!(<Vec3 as AlgebraicVec>::dim(), 3);
}

#[test]
fn sums_of_lengths_saturate() {
    assert_eq!(saturating_sum_exec(1, 2), 3);
    assert_eq!(saturating_sum_exec(i64::MAX, 1), i64::MAX);
    assert_eq!(saturating_sum_exec(i64::MIN, -1), i64::MIN);
    assert_eq!(saturating_sum_exec(i64::MAX, i64::MIN), -1);
}

#[test]
fn ball_support_points() {
    let ball = Ball::new(2 * UNIT);
    assert_eq!(ball.radius(), 2 * UNIT);
    assert_eq!(ball.margin(), 2 * UNIT);
    let m = Isometry::new(Rotation::identity(), Vec3::new(UNIT, UNIT, UNIT));
    assert_eq!(m, Isometry::translation(Vec3::new(UNIT, UNIT, UNIT)));
    assert_eq!(ball.support_point(&m, &Vec3::new(0, 0, -9)), Vec3::new(UNIT, UNIT, -UNIT));
    assert_eq!(ball.support_point(&m, &Vec3::new(3, 0, 4)), Vec3::new(UNIT + 4915, UNIT, UNIT + 6553));
    assert_eq!(ball.support_point_without_margin(&m, &Vec3::new(3, 0, 4)), Vec3::new(UNIT, UNIT, UNIT));
    assert_eq!(ball.support_point(&m, &Vec3::zero()), Vec3::new(UNIT, UNIT, UNIT));
}

#[test]
fn ball_fits_the_lattice() {
    let ball = Ball::new(UNIT);
    assert!(ball.fits(&Isometry::translation(Vec3::new(0, 0, 0)), 0));
    assert!(ball.fits(&Isometry::translation(Vec3::new(COORD_MAX - UNIT, 0, 0)), 0));
    assert!(!ball.fits(&Isometry::translation(Vec3::new(COORD_MAX - UNIT + 1, 0, 0)), 0));
    assert!(!ball.fits(&Isometry::translation(Vec3::new(0, -COORD_MAX, 0)), 0));
    assert!(ball.fits(&Isometry::translation(Vec3::new(0, 0, UNIT)), COORD_MAX - 2 * UNIT));
    assert!(!ball.fits(&Isometry::translation(Vec3::new(0, 0, UNIT)), COORD_MAX - 2 * UNIT + 1));
    assert!(!Ball::new(-1).fits(&Isometry::translation(Vec3::new(0, 0, 0)), 0));
}

#[test]
fn contact_depth_is_the_signed_separation() {
    let n = Vec3::new(UNIT, 0, 0);
    let apart = Contact::new_wo_depth(Vec3::new(0, 0, 0), Vec3::new(10, 5, 5), n);
    assert_eq!(apart.depth, 10);
    let overlapping = Contact::new_wo_depth(Vec3::new(10, 0, 0), Vec3::new(0, 0, 0), n);
    assert_eq!(overlapping.depth, -10);
    // Rounded down.
    let skew = Contact::new_wo_depth(Vec3::new(0, 0, 0), Vec3::new(-1, 0, 0), Vec3::new(UNIT / 2, 0, 0));
    assert_eq!(skew.depth, -1);
    let given = Contact::new(Vec3::new(1, 2, 3), Vec3::new(4, 5, 6), n, 77);
    assert_eq!(given.depth, 77);
    assert_eq!(given.world1, Vec3::new(1, 2, 3));
    assert_eq!(given.world2, Vec3::new(4, 5, 6));
    assert_eq!(given.normal, n);
}
