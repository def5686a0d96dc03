use ncollide::geom::annotated_point::AnnotatedPoint;
use ncollide::geom::ball::Ball;
use ncollide::geom::geom_with_margin::GeomWithMargin;
use ncollide::geom::minkowski_sum::AnnotatedMinkowskiSum;
use ncollide::geom::minkowski_sum::Identity;
use ncollide::geom::reflection::Reflection;
use ncollide::implicit::Implicit;
use ncollide::math::AlgebraicVec;
use ncollide::math::Isometry;
use ncollide::math::Vec3;
use ncollide::math::UNIT;
use ncollide::narrow::algorithm::gjk::closest_points;
use ncollide::narrow::algorithm::gjk::closest_points_without_margin;
use ncollide::narrow::algorithm::gjk::closest_points_without_margin_with_max_dist;
use ncollide::narrow::algorithm::gjk::project_origin;
use ncollide::narrow::algorithm::gjk::project_origin_with_max_dist;
use ncollide::narrow::algorithm::gjk::GJKResult;
use ncollide::narrow::algorithm::simplex::Simplex;
use ncollide::narrow::algorithm::voronoi_simplex::VoronoiSimplex;

fn at(x: i64, y: i64, z: i64) -> Isometry {
    Isometry::translation(Vec3::new(x, y, z))
}

/// A simplex that holds the point of the difference of the two balls,
/// margins included, that lies farthest along `dir`.
fn seeded(m1: &Isometry, b1: &Ball, m2: &Isometry, b2: &Ball, dir: Vec3) -> VoronoiSimplex<AnnotatedPoint> {
    let mg1 = GeomWithMargin::new(b1);
    let mg2 = GeomWithMargin::new(b2);
    let reflect2 = Reflection::new(&mg2);
    let cso = AnnotatedMinkowskiSum::new(m1, &mg1, m2, &reflect2);
    let seed = cso.support_point(&Identity::new(), &AnnotatedPoint::new_invalid(dir));
    let mut simplex = VoronoiSimplex::new();
    simplex.add_point(seed);
    simplex
}

/// A simplex that holds the point of the difference of the cores of the two
/// balls that lies farthest along `dir`.
fn seeded_cores(m1: &Isometry, b1: &Ball, m2: &Isometry, b2: &Ball, dir: Vec3) -> VoronoiSimplex<AnnotatedPoint> {
    let reflect2 = Reflection::new(b2);
    let cso = AnnotatedMinkowskiSum::new(m1, b1, m2, &reflect2);
    let seed = cso.support_point_without_margin(&Identity::new(), &AnnotatedPoint::new_invalid(dir));
    let mut simplex = VoronoiSimplex::new();
    simplex.add_point(seed);
    simplex
}

#[test]
fn separated_spheres_give_their_closest_points() {
    let ball = Ball::new(UNIT);
    let m1 = at(0, 0, 0);
    let m2 = at(3 * UNIT, 0, 0);
    let mut simplex = seeded(&m1, &ball, &m2, &ball, Vec3::new(UNIT, 0, 0));
    let res = closest_points(&m1, &ball, &m2, &ball, &mut simplex);
    assert_eq!(res, Some((Vec3::new(UNIT, 0, 0), Vec3::new(2 * UNIT, 0, 0))));
    let (pa, pb) = res.unwrap();
    assert_eq!(pb.sub(&pa).sqnorm(), UNIT * UNIT);
}

#[test]
fn separated_spheres_from_a_skew_seed() {
    let ball = Ball::new(UNIT);
    let m1 = at(0, 0, 0);
    let m2 = at(3 * UNIT, 0, 0);
    let mut simplex = seeded(&m1, &ball, &m2, &ball, Vec3::new(0, UNIT, 0));
    let res = closest_points(&m1, &ball, &m2, &ball, &mut simplex);
    let (pa, pb) = res.expect("the spheres are apart");
    // The distance is one unit, to the relative precision of the search.
    let sq = pb.sub(&pa).sqnorm();
    assert!(sq >= UNIT * UNIT - UNIT * UNIT / 16, "distance too small: {}", sq);
    assert!(sq <= UNIT * UNIT + UNIT * UNIT / 8, "distance too large: {}", sq);
}

#[test]
fn overlapping_spheres_intersect() {
    let ball = Ball::new(UNIT);
    let m1 = at(0, 0, 0);
    let m2 = at(3 * UNIT / 2, 0, 0);
    let mut simplex = seeded(&m1, &ball, &m2, &ball, Vec3::new(UNIT, 0, 0));
    assert_eq!(closest_points(&m1, &ball, &m2, &ball, &mut simplex), None);
}

#[test]
fn overlapping_spheres_intersect_from_a_skew_seed() {
    let ball = Ball::new(UNIT);
    let m1 = at(0, 0, 0);
    let m2 = at(3 * UNIT / 2, 0, 0);
    let mut simplex = seeded(&m1, &ball, &m2, &ball, Vec3::new(UNIT, 2 * UNIT, -UNIT));
    assert_eq!(closest_points(&m1, &ball, &m2, &ball, &mut simplex), None);
}

#[test]
fn bounded_query_proves_spheres_apart() {
    let ball = Ball::new(UNIT);
    let m1 = at(0, 0, 0);
    let m2 = at(3 * UNIT, 0, 0);
    let mg1 = GeomWithMargin::new(&ball);
    let mg2 = GeomWithMargin::new(&ball);
    let reflect2 = Reflection::new(&mg2);
    let cso = AnnotatedMinkowskiSum::new(&m1, &mg1, &m2, &reflect2);
    let mut simplex = seeded(&m1, &ball, &m2, &ball, Vec3::new(UNIT, 0, 0));
    let res = project_origin_with_max_dist(&Identity::new(), &cso, UNIT / 2, &mut simplex);
    match res {
        GJKResult::NoIntersection(dir) => assert_eq!(dir.point(), Vec3::new(-UNIT, 0, 0)),
        other => panic!("expected NoIntersection, got {:?}", other),
    }
}

#[test]
fn bounded_query_with_a_wide_bound_projects() {
    let ball = Ball::new(UNIT);
    let m1 = at(0, 0, 0);
    let m2 = at(3 * UNIT, 0, 0);
    let mg1 = GeomWithMargin::new(&ball);
    let mg2 = GeomWithMargin::new(&ball);
    let reflect2 = Reflection::new(&mg2);
    let cso = AnnotatedMinkowskiSum::new(&m1, &mg1, &m2, &reflect2);
    let mut simplex = seeded(&m1, &ball, &m2, &ball, Vec3::new(UNIT, 0, 0));
    let res = project_origin_with_max_dist(&Identity::new(), &cso, 2 * UNIT, &mut simplex);
    match res {
        GJKResult::Projection(p) => {
            assert_eq!(p.point(), Vec3::new(-UNIT, 0, 0));
            assert_eq!(p.orig1(), Vec3::new(UNIT, 0, 0));
            assert_eq!(p.orig2(), Vec3::new(-2 * UNIT, 0, 0));
        },
        other => panic!("expected Projection, got {:?}", other),
    }
}

#[test]
fn bounded_query_at_the_bound_projects() {
    // The bound is met exactly: the shapes are not farther apart than it.
    let ball = Ball::new(UNIT);
    let m1 = at(0, 0, 0);
    let m2 = at(3 * UNIT, 0, 0);
    let mut simplex = seeded_cores(&m1, &ball, &m2, &ball, Vec3::new(UNIT, 0, 0));
    let res = closest_points_without_margin_with_max_dist(&m1, &ball, &m2, &ball, 3 * UNIT, &mut simplex);
    assert!(matches!(res, GJKResult::Projection(_)));
    let mut simplex = seeded_cores(&m1, &ball, &m2, &ball, Vec3::new(UNIT, 0, 0));
    let res = closest_points_without_margin_with_max_dist(&m1, &ball, &m2, &ball, 3 * UNIT - 1, &mut simplex);
    assert!(matches!(res, GJKResult::NoIntersection(_)));
}

#[test]
fn bounded_query_on_cores() {
    let ball = Ball::new(UNIT);
    let m1 = at(0, 0, 0);
    let m2 = at(3 * UNIT, 0, 0);
    let mut simplex = seeded_cores(&m1, &ball, &m2, &ball, Vec3::new(UNIT, 0, 0));
    let res = closest_points_without_margin_with_max_dist(&m1, &ball, &m2, &ball, UNIT / 2, &mut simplex);
    match res {
        GJKResult::NoIntersection(dir) => assert_eq!(dir, Vec3::new(-3 * UNIT, 0, 0)),
        other => panic!("expected NoIntersection, got {:?}", other),
    }
    let mut simplex = seeded_cores(&m1, &ball, &m2, &ball, Vec3::new(UNIT, 0, 0));
    let res = closest_points_without_margin_with_max_dist(&m1, &ball, &m2, &ball, 4 * UNIT, &mut simplex);
    match res {
        GJKResult::Projection((pa, pb)) => {
            assert_eq!(pa, Vec3::new(0, 0, 0));
            assert_eq!(pb, Vec3::new(3 * UNIT, 0, 0));
        },
        other => panic!("expected Projection, got {:?}", other),
    }
}

#[test]
fn cores_at_one_place_intersect() {
    let ball = Ball::new(UNIT);
    let m1 = at(5, 5, 5);
    let m2 = at(5, 5, 5);
    let mut simplex = seeded_cores(&m1, &ball, &m2, &ball, Vec3::new(UNIT, 0, 0));
    let res = closest_points_without_margin_with_max_dist(&m1, &ball, &m2, &ball, UNIT, &mut simplex);
    assert!(matches!(res, GJKResult::Intersection));
    let mut simplex = seeded_cores(&m1, &ball, &m2, &ball, Vec3::new(UNIT, 0, 0));
    assert_eq!(closest_points_without_margin(&m1, &ball, &m2, &ball, &mut simplex), None);
}

#[test]
fn closest_points_of_cores_are_the_centres() {
    let ball = Ball::new(UNIT);
    let m1 = at(UNIT, 2 * UNIT, 0);
    let m2 = at(-UNIT, 0, 3 * UNIT);
    let mut simplex = seeded_cores(&m1, &ball, &m2, &ball, Vec3::new(0, 0, UNIT));
    let res = closest_points_without_margin(&m1, &ball, &m2, &ball, &mut simplex);
    assert_eq!(res, Some((Vec3::new(UNIT, 2 * UNIT, 0), Vec3::new(-UNIT, 0, 3 * UNIT))));
}

#[test]
fn repeated_searches_agree() {
    let ball = Ball::new(UNIT);
    let m1 = at(17, -40, 3);
    let m2 = at(2 * UNIT + 100, 3 * UNIT + 7, -UNIT);
    let dir = Vec3::new(100, -300, 77);
    let mut first = seeded(&m1, &ball, &m2, &ball, dir);
    let mut second = seeded(&m1, &ball, &m2, &ball, dir);
    let r1 = closest_points(&m1, &ball, &m2, &ball, &mut first);
    let r2 = closest_points(&m1, &ball, &m2, &ball, &mut second);
    assert!(r1.is_some());
    assert_eq!(r1, r2);
    assert_eq!(first.vertices, second.vertices);
}

#[test]
fn projection_on_a_single_ball() {
    // A ball of radius one, three units up the second axis.
    let ball = Ball::new(UNIT);
    let m = at(0, 3 * UNIT, 0);
    let mg = GeomWithMargin::new(&ball);
    let mut simplex: VoronoiSimplex<Vec3> = VoronoiSimplex::new();
    simplex.add_point(mg.support_point(&m, &Vec3::new(0, -UNIT, 0)));
    let res = project_origin(&m, &mg, &mut simplex);
    assert_eq!(res, Some(Vec3::new(0, 2 * UNIT, 0)));
    assert_eq!(simplex.dimension(), 0);
}

#[test]
fn search_ends_on_far_apart_spheres_from_every_axis() {
    let ball = Ball::new(UNIT);
    let m1 = at(-100 * UNIT, 50 * UNIT, 7 * UNIT);
    let m2 = at(90 * UNIT, -30 * UNIT, 2 * UNIT);
    let dirs = [
        Vec3::new(UNIT, 0, 0),
        Vec3::new(-UNIT, 0, 0),
        Vec3::new(0, UNIT, 0),
        Vec3::new(0, -UNIT, 0),
        Vec3::new(0, 0, UNIT),
        Vec3::new(0, 0, -UNIT),
    ];
    for dir in dirs.iter() {
        let mut simplex = seeded(&m1, &ball, &m2, &ball, *dir);
        let res = closest_points(&m1, &ball, &m2, &ball, &mut simplex);
        let (pa, pb) = res.expect("the spheres are apart");
        // The centres are about 206.2 units apart, the spheres two less.
        let d = pb.sub(&pa).norm() / UNIT;
        assert!(d >= 204 * UNIT - UNIT * 4 && d <= 204 * UNIT + UNIT * 8, "distance {}", d);
        assert!(simplex.dimension() <= 3);
    }
}

#[test]
fn projections_within_tolerance_count_as_the_origin() {
    // A squared length of a hundred lattice units, in steps, is the limit.
    let ball = Ball::new(UNIT);
    let m1 = at(0, 0, 0);
    let near = at(640, 0, 0);
    let mut simplex = seeded_cores(&m1, &ball, &near, &ball, Vec3::new(UNIT, 0, 0));
    let res = closest_points_without_margin_with_max_dist(&m1, &ball, &near, &ball, 10 * UNIT, &mut simplex);
    assert!(matches!(res, GJKResult::Intersection));
    let far = at(641, 0, 0);
    let mut simplex = seeded_cores(&m1, &ball, &far, &ball, Vec3::new(UNIT, 0, 0));
    let res = closest_points_without_margin_with_max_dist(&m1, &ball, &far, &ball, 10 * UNIT, &mut simplex);
    match res {
        GJKResult::Projection((pa, pb)) => {
            assert_eq!(pa, Vec3::new(0, 0, 0));
            assert_eq!(pb, Vec3::new(641, 0, 0));
        },
        other => panic!("expected Projection, got {:?}", other),
    }
}

#[test]
fn search_ends_from_many_seeds() {
    let ball = Ball::new(3 * UNIT);
    let small = Ball::new(UNIT / 3);
    let m1 = at(-7 * UNIT, 2 * UNIT, UNIT);
    let m2 = at(5 * UNIT, -3 * UNIT, 4 * UNIT);
    let mut seen = 0;
    for x in -3..=3 {
        for y in -3..=3 {
            for z in -3..=3 {
                if x == 0 && y == 0 && z == 0 {
                    continue;
                }
                let dir = Vec3::new(x * 1000, y * 1000, z * 1000);
                let mut simplex = seeded(&m1, &ball, &m2, &small, dir);
                let (pa, pb) = closest_points(&m1, &ball, &m2, &small, &mut simplex).expect("the spheres are apart");
                // The centres are 13.34 units apart; the gap is 10.01 units.
                let d = pb.sub(&pa).norm() / UNIT;
                assert!(d >= 10 * UNIT - UNIT / 2 && d <= 10 * UNIT + UNIT, "gap {} from {:?}", d, dir);
                seen += 1;
            }
        }
    }
    assert_eq!(seen, 342);
}
