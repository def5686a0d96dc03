use ncollide::math::Vec3;
use ncollide::math::UNIT;
use ncollide::query::contact::Contact;
use ncollide::query::contact_kinematic::ContactKinematic;
use ncollide::query::contact_kinematic::FeatureId;
use ncollide::query::contact_manifold::ContactManifold;
use ncollide::utils::id_allocator::IdAllocator;

fn contact(x: i64) -> Contact {
    Contact::new(Vec3::new(x, 0, 0), Vec3::new(x, 1, 0), Vec3::new(0, UNIT, 0), 1)
}

fn on(f1: FeatureId, f2: FeatureId) -> ContactKinematic {
    let mut k = ContactKinematic::new();
    k.set_feature1(f1);
    k.set_feature2(f2);
    k
}

#[test]
fn allocator_issues_and_recycles() {
    let mut a = IdAllocator::new();
    assert!(a.can_alloc());
    assert_eq!(a.allocate(), 0);
    assert_eq!(a.allocate(), 1);
    assert_eq!(a.allocate(), 2);
    assert!(a.is_live(1));
    a.free(1);
    assert!(!a.is_live(1));
    a.free(0);
    // Given back twice, or never issued: nothing happens.
    a.free(0);
    a.free(17);
    assert!(!a.is_live(17));
    assert_eq!(a.allocate(), 0);
    assert_eq!(a.allocate(), 1);
    assert_eq!(a.allocate(), 3);
}

#[test]
fn manifold_keeps_the_order_of_discovery() {
    let mut a = IdAllocator::new();
    let mut m = ContactManifold::new();
    assert_eq!(m.len(), 0);
    m.set_subshape_id1(3);
    m.set_subshape_id2(5);
    assert!(m.push(contact(1), on(FeatureId::Vertex(0), FeatureId::Face(1)), &mut a));
    assert!(m.push(contact(2), on(FeatureId::Edge(4), FeatureId::Face(1)), &mut a));
    assert_eq!(m.len(), 2);
    let cs = m.contacts();
    assert_eq!(cs[0].contact, contact(1));
    assert_eq!(cs[0].id, 0);
    assert_eq!(cs[0].subshape_id1, 3);
    assert_eq!(cs[0].subshape_id2, 5);
    assert_eq!(cs[1].contact, contact(2));
    assert_eq!(cs[1].id, 1);
}

#[test]
fn manifold_carries_ids_over() {
    let mut a = IdAllocator::new();
    let mut m = ContactManifold::new();
    let k1 = on(FeatureId::Vertex(0), FeatureId::Face(1));
    let k2 = on(FeatureId::Edge(4), FeatureId::Face(1));
    let k3 = on(FeatureId::Unknown, FeatureId::Vertex(2));
    assert!(m.push(contact(1), k1, &mut a));
    assert!(m.push(contact(2), k2, &mut a));
    m.save_cache_and_clear(&mut a);
    assert_eq!(m.len(), 0);
    assert!(a.is_live(0) && a.is_live(1));
    // The second contact is found again, the first is not; a third is new.
    assert!(!m.push(contact(20), k2, &mut a));
    assert!(m.push(contact(30), k3, &mut a));
    assert_eq!(m.contacts()[0].id, 1);
    assert_eq!(m.contacts()[1].id, 2);
    m.save_cache_and_clear(&mut a);
    // The identifier of the first contact went back to the allocator.
    assert!(!a.is_live(0));
    assert!(a.is_live(1) && a.is_live(2));
    assert!(m.push(contact(1), k1, &mut a));
    assert_eq!(m.contacts()[0].id, 0);
}

#[test]
fn manifold_gives_an_identifier_to_one_contact_only() {
    let mut a = IdAllocator::new();
    let mut m = ContactManifold::new();
    let k = ContactKinematic::new();
    assert!(m.push(contact(1), k, &mut a));
    m.save_cache_and_clear(&mut a);
    assert!(!m.push(contact(1), k, &mut a));
    assert!(m.push(contact(2), k, &mut a));
    assert_eq!(m.contacts()[0].id, 0);
    assert_eq!(m.contacts()[1].id, 1);
}

#[test]
fn manifold_copy_is_independent() {
    let mut a = IdAllocator::new();
    let mut m = ContactManifold::new();
    assert!(m.push(contact(1), ContactKinematic::new(), &mut a));
    let copy = m.duplicate();
    m.save_cache_and_clear(&mut a);
    assert_eq!(m.len(), 0);
    assert_eq!(copy.len(), 1);
    assert_eq!(copy.contacts()[0].contact, contact(1));
}
