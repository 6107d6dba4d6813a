use vent::world::World;

#[test]
fn a_new_world_is_empty() {
    let world = World::new();
    assert!(world.iter_entities().is_empty());
}

#[test]
fn entities_are_numbered_in_order() {
    let mut world = World::new();
    assert_eq!(world.create_entity(), 0);
    assert_eq!(world.create_entity(), 1);
    assert_eq!(world.create_entity(), 2);
    assert_eq!(world.iter_entities(), &[0, 1, 2]);
}

#[test]
fn the_last_entity_takes_the_place_of_a_deleted_one() {
    let mut world = World::new();
    for _ in 0..5 {
        world.create_entity();
    }
    world.delete_entity(1);
    assert_eq!(world.iter_entities(), &[0, 4, 2, 3]);
    world.delete_entity(3);
    assert_eq!(world.iter_entities(), &[0, 4, 2]);
    world.delete_entity(0);
    assert_eq!(world.iter_entities(), &[2, 4]);
}

#[test]
fn a_deleted_number_is_not_given_again() {
    let mut world = World::new();
    let first = world.create_entity();
    world.delete_entity(first);
    assert!(world.iter_entities().is_empty());
    let second = world.create_entity();
    assert_ne!(second, first);
    assert_eq!(world.iter_entities(), &[second]);
}

#[test]
fn contains_tells_the_living_from_the_deleted() {
    let mut world = World::new();
    assert_eq!(world.next_entity(), 0);
    assert!(!world.contains(0));
    let a = world.create_entity();
    let b = world.create_entity();
    assert!(world.contains(a));
    assert!(world.contains(b));
    world.delete_entity(a);
    assert!(!world.contains(a));
    assert!(world.contains(b));
    assert_eq!(world.next_entity(), 2);
}
