use ncollide::geom::ball::Ball;
use ncollide::math::Isometry;
use ncollide::math::Vec3;
use ncollide::math::UNIT;
use ncollide::pipeline::narrow_phase::contact_generator::support_map_support_map_manifold_generator::SupportMapSupportMapManifoldGenerator;
use ncollide::query::contact_kinematic::FeatureId;
use ncollide::query::contact_manifold::ContactManifold;
use ncollide::utils::id_allocator::IdAllocator;

fn at(x: i64, y: i64, z: i64) -> Isometry {
    Isometry::translation(Vec3::new(x, y, z))
}

fn ids(generator: &SupportMapSupportMapManifoldGenerator) -> Vec<u64> {
    let mut out: Vec<&ContactManifold> = Vec::new();
    generator.contacts(&mut out);
    let mut ids = Vec::new();
    for manifold in out.iter() {
        for c in manifold.contacts().iter() {
            ids.push(c.id);
        }
    }
    ids
}

#[test]
fn generator_twice_on_separated_spheres() {
    // Two spheres one unit apart, with a prediction margin of a tenth.
    let ball = Ball::new(UNIT);
    let ma = at(0, 0, 0);
    let mb = at(3 * UNIT, 0, 0);
    let mut alloc = IdAllocator::new();
    let mut generator = SupportMapSupportMapManifoldGenerator::new();
    assert!(generator.update(0, &ma, Some(&ball), 0, &mb, Some(&ball), UNIT / 10, &mut alloc));
    let first = ids(&generator);
    let n = generator.num_contacts();
    assert!(generator.update(0, &ma, Some(&ball), 0, &mb, Some(&ball), UNIT / 10, &mut alloc));
    assert_eq!(ids(&generator), first);
    assert_eq!(generator.num_contacts(), n);
    // They are farther apart than the margin: nothing is reported.
    assert_eq!(n, 0);
}

#[test]
fn generator_keeps_the_contact_id() {
    let ball = Ball::new(UNIT);
    let ma = at(0, 0, 0);
    let mb = at(3 * UNIT, 0, 0);
    let mut alloc = IdAllocator::new();
    // Some identifiers are in use already.
    assert_eq!(alloc.allocate(), 0);
    assert_eq!(alloc.allocate(), 1);
    let mut generator = SupportMapSupportMapManifoldGenerator::new();
    assert!(generator.update(4, &ma, Some(&ball), 9, &mb, Some(&ball), 3 * UNIT / 2, &mut alloc));
    assert_eq!(generator.num_contacts(), 1);
    let first = ids(&generator);
    assert_eq!(first, vec![2]);
    {
        let mut out: Vec<&ContactManifold> = Vec::new();
        generator.contacts(&mut out);
        assert_eq!(out.len(), 1);
        assert_eq!(out[0].subshape_id1(), 4);
        assert_eq!(out[0].subshape_id2(), 9);
        let c = out[0].contacts()[0];
        assert_eq!(c.contact.world1, Vec3::new(UNIT, 0, 0));
        assert_eq!(c.contact.world2, Vec3::new(2 * UNIT, 0, 0));
        assert_eq!(c.contact.normal, Vec3::new(UNIT, 0, 0));
        assert_eq!(c.contact.depth, UNIT);
        assert_eq!(c.kinematic.feature1(), FeatureId::Unknown);
        assert_eq!(c.kinematic.feature2(), FeatureId::Unknown);
    }
    for _ in 0..5 {
        assert!(generator.update(4, &ma, Some(&ball), 9, &mb, Some(&ball), 3 * UNIT / 2, &mut alloc));
        assert_eq!(ids(&generator), first);
    }
    // No identifier was issued or given back meanwhile.
    assert_eq!(alloc.allocate(), 3);
}

#[test]
fn generator_follows_a_small_move() {
    let ball = Ball::new(UNIT);
    let ma = at(0, 0, 0);
    let mut alloc = IdAllocator::new();
    let mut generator = SupportMapSupportMapManifoldGenerator::new();
    assert!(generator.update(0, &ma, Some(&ball), 0, &at(3 * UNIT, 0, 0), Some(&ball), 2 * UNIT, &mut alloc));
    let first = ids(&generator);
    assert_eq!(first.len(), 1);
    assert!(generator.update(0, &ma, Some(&ball), 0, &at(3 * UNIT, 40, -25), Some(&ball), 2 * UNIT, &mut alloc));
    assert_eq!(ids(&generator), first);
}

#[test]
fn generator_reports_overlap_as_negative_separation() {
    let ball = Ball::new(UNIT);
    let ma = at(0, 0, 0);
    let mb = at(0, 3 * UNIT / 2, 0);
    let mut alloc = IdAllocator::new();
    let mut generator = SupportMapSupportMapManifoldGenerator::new();
    assert!(generator.update(0, &ma, Some(&ball), 0, &mb, Some(&ball), 0, &mut alloc));
    let mut out: Vec<&ContactManifold> = Vec::new();
    generator.contacts(&mut out);
    assert_eq!(out.len(), 1);
    let c = out[0].contacts()[0].contact;
    assert_eq!(c.normal, Vec3::new(0, UNIT, 0));
    assert_eq!(c.world1, Vec3::new(0, UNIT, 0));
    assert_eq!(c.world2, Vec3::new(0, UNIT / 2, 0));
    assert_eq!(c.depth, -UNIT / 2);
}

#[test]
fn generator_gives_its_id_back_when_the_contact_is_lost() {
    let ball = Ball::new(UNIT);
    let ma = at(0, 0, 0);
    let mut alloc = IdAllocator::new();
    let mut generator = SupportMapSupportMapManifoldGenerator::new();
    assert!(generator.update(0, &ma, Some(&ball), 0, &at(3 * UNIT, 0, 0), Some(&ball), 2 * UNIT, &mut alloc));
    assert_eq!(ids(&generator), vec![0]);
    assert!(alloc.is_live(0));
    // The second ball moves away: the contact goes to the cache.
    assert!(generator.update(0, &ma, Some(&ball), 0, &at(30 * UNIT, 0, 0), Some(&ball), 2 * UNIT, &mut alloc));
    assert_eq!(generator.num_contacts(), 0);
    let mut out: Vec<&ContactManifold> = Vec::new();
    generator.contacts(&mut out);
    assert!(out.is_empty());
    assert!(alloc.is_live(0));
    // Nothing took the identifier over: the next step gives it back.
    assert!(generator.update(0, &ma, Some(&ball), 0, &at(30 * UNIT, 0, 0), Some(&ball), 2 * UNIT, &mut alloc));
    assert!(!alloc.is_live(0));
    assert_eq!(alloc.allocate(), 0);
}

#[test]
fn generator_does_not_match_other_subshapes() {
    let ball = Ball::new(UNIT);
    let ma = at(0, 0, 0);
    let mb = at(3 * UNIT, 0, 0);
    let mut alloc = IdAllocator::new();
    let mut generator = SupportMapSupportMapManifoldGenerator::new();
    assert!(generator.update(1, &ma, Some(&ball), 2, &mb, Some(&ball), 2 * UNIT, &mut alloc));
    assert_eq!(ids(&generator), vec![0]);
    assert!(generator.update(1, &ma, Some(&ball), 3, &mb, Some(&ball), 2 * UNIT, &mut alloc));
    assert_eq!(ids(&generator), vec![1]);
}

#[test]
fn generator_refuses_a_shape_without_support_function() {
    let ball = Ball::new(UNIT);
    let ma = at(0, 0, 0);
    let mb = at(3 * UNIT, 0, 0);
    let mut alloc = IdAllocator::new();
    let mut generator = SupportMapSupportMapManifoldGenerator::new();
    assert!(generator.update(0, &ma, Some(&ball), 0, &mb, Some(&ball), 2 * UNIT, &mut alloc));
    let before = ids(&generator);
    assert!(!generator.update(7, &ma, None::<&Ball>, 8, &mb, Some(&ball), 2 * UNIT, &mut alloc));
    assert!(!generator.update(7, &ma, Some(&ball), 8, &mb, None::<&Ball>, 2 * UNIT, &mut alloc));
    assert_eq!(ids(&generator), before);
    let mut out: Vec<&ContactManifold> = Vec::new();
    generator.contacts(&mut out);
    assert_eq!(out[0].subshape_id1(), 0);
}

#[test]
fn generator_leaves_the_manifold_empty_where_cores_meet() {
    let ball = Ball::new(UNIT);
    let ma = at(0, 0, 0);
    let mut alloc = IdAllocator::new();
    let mut generator = SupportMapSupportMapManifoldGenerator::new();
    assert!(generator.update(0, &ma, Some(&ball), 0, &ma, Some(&ball), 2 * UNIT, &mut alloc));
    assert_eq!(generator.num_contacts(), 0);
}

#[test]
fn generator_clone_is_independent() {
    let ball = Ball::new(UNIT);
    let ma = at(0, 0, 0);
    let mb = at(3 * UNIT, 0, 0);
    let mut alloc = IdAllocator::new();
    let mut generator = SupportMapSupportMapManifoldGenerator::new();
    assert!(generator.update(0, &ma, Some(&ball), 0, &mb, Some(&ball), 2 * UNIT, &mut alloc));
    let copy = generator.clone();
    assert!(generator.update(0, &ma, Some(&ball), 0, &at(40 * UNIT, 0, 0), Some(&ball), 2 * UNIT, &mut alloc));
    assert_eq!(generator.num_contacts(), 0);
    assert_eq!(copy.num_contacts(), 1);
    assert_eq!(ids(&copy), vec![0]);
}
