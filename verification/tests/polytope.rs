use ncollide::geom::annotated_point::AnnotatedPoint;
use ncollide::geom::ball::Ball;
use ncollide::geom::cuboid::Cuboid;
use ncollide::geom::minkowski_sum::AnnotatedMinkowskiSum;
use ncollide::geom::minkowski_sum::Identity;
use ncollide::geom::reflection::Reflection;
use ncollide::implicit::Implicit;
use ncollide::math::Isometry;
use ncollide::math::Vec3;
use ncollide::math::UNIT;
use ncollide::narrow::algorithm::gjk::closest_points;
use ncollide::narrow::algorithm::gjk::closest_points_without_margin_with_max_dist;
use ncollide::narrow::algorithm::gjk::GJKResult;
use ncollide::narrow::algorithm::simplex::Simplex;
use ncollide::narrow::algorithm::voronoi_simplex::VoronoiSimplex;
use ncollide::pipeline::narrow_phase::contact_generator::support_map_support_map_manifold_generator::SupportMapSupportMapManifoldGenerator;
use ncollide::query::contact_manifold::ContactManifold;
use ncollide::utils::id_allocator::IdAllocator;

fn at(x: i64, y: i64, z: i64) -> Isometry {
    Isometry::translation(Vec3::new(x, y, z))
}

fn unit_box() -> Cuboid {
    Cuboid::new(Vec3::new(UNIT, UNIT, UNIT))
}

fn seeded<A: Implicit<Vec3, Isometry>, B: Implicit<Vec3, Isometry>>(
    m1: &Isometry,
    a: &A,
    m2: &Isometry,
    b: &B,
    dir: Vec3,
) -> VoronoiSimplex<AnnotatedPoint> {
    let reflect2 = Reflection::new(b);
    let cso = AnnotatedMinkowskiSum::new(m1, a, m2, &reflect2);
    let seed = cso.support_point_without_margin(&Identity::new(), &AnnotatedPoint::new_invalid(dir));
    let mut simplex = VoronoiSimplex::new();
    simplex.add_point(seed);
    simplex
}

#[test]
fn boxes_face_to_face() {
    let m1 = at(0, 0, 0);
    let m2 = at(5 * UNIT, 0, 0);
    for dir in [Vec3::new(UNIT, 0, 0), Vec3::new(-UNIT, 7, 3), Vec3::new(0, 0, -UNIT)].iter() {
        let mut simplex = seeded(&m1, &unit_box(), &m2, &unit_box(), *dir);
        let (pa, pb) = closest_points(&m1, &unit_box(), &m2, &unit_box(), &mut simplex).expect("the boxes are apart");
        assert_eq!(pa.x, UNIT);
        assert_eq!(pb.x, 4 * UNIT);
        let gap = pb.sub(&pa);
        assert_eq!(gap.x, 3 * UNIT);
        assert!(gap.y.abs() <= 2 && gap.z.abs() <= 2, "gap {:?}", gap);
    }
}

#[test]
fn boxes_corner_to_corner() {
    let m1 = at(0, 0, 0);
    let m2 = at(4 * UNIT, 4 * UNIT, 4 * UNIT);
    let mut simplex = seeded(&m1, &unit_box(), &m2, &unit_box(), Vec3::new(0, UNIT, 0));
    let res = closest_points(&m1, &unit_box(), &m2, &unit_box(), &mut simplex);
    assert_eq!(res, Some((Vec3::new(UNIT, UNIT, UNIT), Vec3::new(3 * UNIT, 3 * UNIT, 3 * UNIT))));
}

#[test]
fn overlapping_boxes_intersect() {
    let m1 = at(0, 0, 0);
    let m2 = at(UNIT, UNIT / 2, -UNIT / 3);
    for dir in [Vec3::new(UNIT, 0, 0), Vec3::new(-UNIT, 7, 3), Vec3::new(0, 0, -UNIT), Vec3::new(5, 5, 5)].iter() {
        let mut simplex = seeded(&m1, &unit_box(), &m2, &unit_box(), *dir);
        assert_eq!(closest_points(&m1, &unit_box(), &m2, &unit_box(), &mut simplex), None);
        assert!(simplex.dimension() <= 3);
    }
}

#[test]
fn box_and_ball_core() {
    // The core of a ball is its centre: a point two units above the box.
    let ball = Ball::new(UNIT / 2);
    let m1 = at(0, 0, 0);
    let m2 = at(UNIT / 4, 3 * UNIT, -UNIT / 4);
    let mut simplex = seeded(&m1, &unit_box(), &m2, &ball, Vec3::new(UNIT, 0, 0));
    let res = closest_points_without_margin_with_max_dist(&m1, &unit_box(), &m2, &ball, 5 * UNIT / 2, &mut simplex);
    match res {
        GJKResult::Projection((pa, pb)) => {
            assert_eq!(pb, Vec3::new(UNIT / 4, 3 * UNIT, -UNIT / 4));
            assert_eq!(pa.y, UNIT);
            assert!((pa.x - UNIT / 4).abs() <= 2 && (pa.z + UNIT / 4).abs() <= 2, "pa {:?}", pa);
        },
        other => panic!("expected Projection, got {:?}", other),
    }
    let mut simplex = seeded(&m1, &unit_box(), &m2, &ball, Vec3::new(UNIT, 0, 0));
    let res = closest_points_without_margin_with_max_dist(&m1, &unit_box(), &m2, &ball, 3 * UNIT / 2, &mut simplex);
    assert!(matches!(res, GJKResult::NoIntersection(_)));
}

#[test]
fn no_intersection_means_farther_than_the_bound() {
    // Every corner of the difference of the two boxes is farther from the
    // origin than the bound.
    let m1 = at(0, 0, 0);
    let m2 = at(5 * UNIT, UNIT, -2 * UNIT);
    let bound = 2 * UNIT;
    let mut simplex = seeded(&m1, &unit_box(), &m2, &unit_box(), Vec3::new(0, UNIT, 0));
    let res = closest_points_without_margin_with_max_dist(&m1, &unit_box(), &m2, &unit_box(), bound, &mut simplex);
    assert!(matches!(res, GJKResult::NoIntersection(_)));
    for sx in [-2, 2] {
        for sy in [-2, 2] {
            for sz in [-2, 2] {
                let corner = Vec3::new(-5 * UNIT + sx * UNIT, -UNIT + sy * UNIT, 2 * UNIT + sz * UNIT);
                assert!(corner.sqnorm() > bound * bound);
            }
        }
    }
}

#[test]
fn generator_on_boxes_keeps_its_id() {
    let m1 = at(0, 0, 0);
    let mut alloc = IdAllocator::new();
    let mut generator = SupportMapSupportMapManifoldGenerator::new();
    let mut seen: Vec<u64> = Vec::new();
    for step in 0..6 {
        let m2 = at(2 * UNIT + UNIT / 2 + step * 10, step * 30, -step * 20);
        assert!(generator.update(0, &m1, Some(&unit_box()), 0, &m2, Some(&unit_box()), UNIT, &mut alloc));
        assert_eq!(generator.num_contacts(), 1);
        let mut out: Vec<&ContactManifold> = Vec::new();
        generator.contacts(&mut out);
        let c = out[0].contacts()[0];
        seen.push(c.id);
        assert_eq!(c.contact.normal, Vec3::new(UNIT, 0, 0));
        assert_eq!(c.contact.depth, UNIT / 2 + step * 10);
    }
    assert_eq!(seen, vec![0, 0, 0, 0, 0, 0]);
}

#[test]
fn cuboid_support_points_are_corners() {
    let c = Cuboid::new(Vec3::new(1, 2, 3));
    assert_eq!(c.half_extents(), Vec3::new(1, 2, 3));
    assert_eq!(c.margin(), 0);
    let m = at(10, 20, 30);
    assert_eq!(c.support_point(&m, &Vec3::new(5, -5, 0)), Vec3::new(11, 18, 33));
    assert_eq!(c.support_point_without_margin(&m, &Vec3::new(-1, 1, -1)), Vec3::new(9, 22, 27));
    assert!(c.fits(&m, 0));
    assert_eq!(c.extent_of(&m), 33);
    let turned = Isometry::new(ncollide::math::Rotation { w: 0, i: UNIT, j: 0, k: 0 }, Vec3::new(0, 0, 0));
    assert!(!c.fits(&turned, 0));
    assert!(!Cuboid::new(Vec3::new(-1, 2, 3)).fits(&m, 0));
    assert!(!c.fits(&at(ncollide::math::COORD_MAX, 0, 0), 0));
}
