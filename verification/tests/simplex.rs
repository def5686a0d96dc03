use ncollide::math::Vec3;
use ncollide::math::UNIT;
use ncollide::narrow::algorithm::simplex::Simplex;
use ncollide::narrow::algorithm::voronoi_simplex::VoronoiSimplex;

fn simplex_of(points: &[Vec3]) -> VoronoiSimplex<Vec3> {
    let mut s = VoronoiSimplex::new();
    for p in points.iter() {
        s.add_point(*p);
    }
    s
}

#[test]
fn single_point_projects_on_itself() {
    let mut s = simplex_of(&[Vec3::new(5, -6, 7)]);
    assert_eq!(s.project_origin_and_reduce(), Vec3::new(5, -6, 7));
    assert_eq!(s.dimension(), 0);
}

#[test]
fn segment_projects_between_its_ends() {
    let mut s = simplex_of(&[Vec3::new(UNIT, UNIT, 0), Vec3::new(UNIT, -UNIT, 0)]);
    assert_eq!(s.project_origin_and_reduce(), Vec3::new(UNIT, 0, 0));
    assert_eq!(s.dimension(), 1);
    assert_eq!(s.vertices, vec![Vec3::new(UNIT, UNIT, 0), Vec3::new(UNIT, -UNIT, 0)]);
}

#[test]
fn segment_reduces_to_its_nearest_end() {
    let a = Vec3::new(UNIT, UNIT, 0);
    let b = Vec3::new(3 * UNIT, 2 * UNIT, 0);
    let mut s = simplex_of(&[a, b]);
    assert_eq!(s.project_origin_and_reduce(), a);
    assert_eq!(s.vertices, vec![a]);
    let mut s = simplex_of(&[b, a]);
    assert_eq!(s.project_origin_and_reduce(), a);
    assert_eq!(s.vertices, vec![a]);
}

#[test]
fn coincident_points_reduce_to_one() {
    let a = Vec3::new(7, 7, 7);
    let mut s = simplex_of(&[a, a]);
    assert_eq!(s.project_origin_and_reduce(), a);
    assert_eq!(s.dimension(), 0);
    let mut s = simplex_of(&[a, a, a]);
    assert_eq!(s.project_origin_and_reduce(), a);
    assert_eq!(s.dimension(), 0);
    let mut s = simplex_of(&[a, a, a, a]);
    assert_eq!(s.project_origin_and_reduce(), a);
    assert_eq!(s.dimension(), 0);
}

#[test]
fn triangle_projects_inside() {
    let a = Vec3::new(3 * UNIT, 0, 5 * UNIT);
    let b = Vec3::new(-3 * UNIT, 3 * UNIT, 5 * UNIT);
    let c = Vec3::new(-3 * UNIT, -3 * UNIT, 5 * UNIT);
    let mut s = simplex_of(&[a, b, c]);
    assert_eq!(s.project_origin_and_reduce(), Vec3::new(0, 0, 5 * UNIT));
    assert_eq!(s.dimension(), 2);
}

#[test]
fn triangle_reduces_to_its_nearest_side() {
    let a = Vec3::new(UNIT, UNIT, 0);
    let b = Vec3::new(UNIT, -UNIT, 0);
    let c = Vec3::new(5 * UNIT, 0, 0);
    let mut s = simplex_of(&[a, b, c]);
    assert_eq!(s.project_origin_and_reduce(), Vec3::new(UNIT, 0, 0));
    assert_eq!(s.vertices, vec![a, b]);
    let mut s = simplex_of(&[c, a, b]);
    assert_eq!(s.project_origin_and_reduce(), Vec3::new(UNIT, 0, 0));
    assert_eq!(s.vertices, vec![a, b]);
}

#[test]
fn collinear_points_reduce_to_a_segment() {
    let a = Vec3::new(UNIT, -2 * UNIT, 0);
    let b = Vec3::new(UNIT, 0, 0);
    let c = Vec3::new(UNIT, 2 * UNIT, 0);
    let mut s = simplex_of(&[a, b, c]);
    assert_eq!(s.project_origin_and_reduce(), Vec3::new(UNIT, 0, 0));
    assert!(s.dimension() <= 1);
}

#[test]
fn tetrahedron_around_the_origin_is_kept() {
    let a = Vec3::new(UNIT, UNIT, UNIT);
    let b = Vec3::new(UNIT, -UNIT, -UNIT);
    let c = Vec3::new(-UNIT, UNIT, -UNIT);
    let d = Vec3::new(-UNIT, -UNIT, UNIT);
    let mut s = simplex_of(&[a, b, c, d]);
    assert_eq!(s.project_origin_and_reduce(), Vec3::new(0, 0, 0));
    assert_eq!(s.dimension(), 3);
    let mut s = simplex_of(&[b, a, c, d]);
    assert_eq!(s.project_origin_and_reduce(), Vec3::new(0, 0, 0));
    assert_eq!(s.dimension(), 3);
}

#[test]
fn tetrahedron_beside_the_origin_reduces_to_a_face() {
    let a = Vec3::new(UNIT, 2 * UNIT, 2 * UNIT);
    let b = Vec3::new(UNIT, -2 * UNIT, 2 * UNIT);
    let c = Vec3::new(UNIT, 0, -2 * UNIT);
    let d = Vec3::new(4 * UNIT, 0, 0);
    let mut s = simplex_of(&[a, b, c, d]);
    assert_eq!(s.project_origin_and_reduce(), Vec3::new(UNIT, 0, 0));
    assert_eq!(s.vertices, vec![a, b, c]);
}

#[test]
fn flat_tetrahedron_does_not_hold_the_origin() {
    let a = Vec3::new(UNIT, UNIT, 0);
    let b = Vec3::new(-UNIT, UNIT, 0);
    let c = Vec3::new(-UNIT, -UNIT, 0);
    let d = Vec3::new(UNIT, -UNIT, 0);
    let mut s = simplex_of(&[a, b, c, d]);
    let p = s.project_origin_and_reduce();
    assert!(p.sqnorm() <= 3);
    assert!(s.dimension() <= 2);
}

#[test]
fn reducing_twice_changes_nothing() {
    let sets: [[Vec3; 4]; 3] = [
        [Vec3::new(UNIT, 2 * UNIT, 2 * UNIT), Vec3::new(UNIT, -2 * UNIT, 2 * UNIT), Vec3::new(UNIT, 0, -2 * UNIT), Vec3::new(4 * UNIT, 0, 0)],
        [Vec3::new(100, 7, -3), Vec3::new(90, 700, 5), Vec3::new(95, -400, 300), Vec3::new(180, 3, 3)],
        [Vec3::new(-5, 7, 2000), Vec3::new(1000, 1000, 1000), Vec3::new(-1000, 1000, 1500), Vec3::new(0, -1500, 1200)],
    ];
    for pts in sets.iter() {
        for n in 1..=4 {
            let mut s = simplex_of(&pts[..n]);
            let p = s.project_origin_and_reduce();
            let kept = s.vertices.clone();
            assert_eq!(s.project_origin_and_reduce(), p);
            assert_eq!(s.vertices, kept);
            for v in kept.iter() {
                assert!(pts[..n].contains(v));
            }
        }
    }
}

#[test]
fn a_fifth_point_takes_the_place_of_the_oldest() {
    let pts = [Vec3::new(1, 0, 0), Vec3::new(2, 0, 0), Vec3::new(3, 0, 0), Vec3::new(4, 0, 0)];
    let mut s = simplex_of(&pts);
    s.add_point(Vec3::new(5, 0, 0));
    assert_eq!(s.vertices, vec![pts[1], pts[2], pts[3], Vec3::new(5, 0, 0)]);
    s.reset(Vec3::new(9, 9, 9));
    assert_eq!(s.vertices, vec![Vec3::new(9, 9, 9)]);
}
