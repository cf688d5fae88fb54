use arcade::components::{BallType, Transform, Velocity};
use arcade::storage::{Entity, Storage};
use arcade::vector::Vector2;
use arcade::world::{join, join3, NotAlive, World};

fn at(x: i32, y: i32) -> Transform {
    Transform { pos: Vector2::new(x, y), ..Transform::default() }
}

#[test]
fn storage_inserts_overwrites_and_removes() {
    let mut s: Storage<i32> = Storage::new();
    let e = Entity { id: 3 };
    assert!(!s.contains(e));
    assert_eq!(s.get(e), None);
    s.insert(e, 7);
    assert!(s.contains(e));
    assert_eq!(s.get(e), Some(&7));
    assert_eq!(s.limit(), 4);
    s.insert(e, 8);
    assert_eq!(s.get(e), Some(&8));
    assert_eq!(s.get(Entity { id: 2 }), None);
    assert_eq!(s.remove(e), Some(8));
    assert_eq!(s.remove(e), None);
    assert!(!s.contains(e));
    assert_eq!(s.remove(Entity { id: 100 }), None);
}

#[test]
fn created_entities_are_fresh_and_usable_at_once() {
    let mut world = World::new();
    let a = world.create_entity();
    let b = world.create_entity();
    assert_ne!(a, b);
    assert!(world.entities.is_alive(a));
    assert!(world.entities.is_alive(b));
    assert!(!world.entities.is_doomed(a));
    world.transforms.insert(a, at(1, 2));
    assert_eq!(world.transforms.get(a), Some(&at(1, 2)));
    assert_eq!(world.transforms.get(b), None);
}

#[test]
fn create_skips_ids_that_hold_data() {
    let mut world = World::new();
    world.velocities.insert(Entity { id: 0 }, Velocity(Vector2::zero()));
    world.ball_types.insert(Entity { id: 1 }, BallType::Bad);
    assert!(!world.is_fresh(Entity { id: 0 }));
    assert!(world.is_fresh(Entity { id: 2 }));
    let e = world.create_entity();
    assert_eq!(e, Entity { id: 2 });
}

#[test]
fn deletion_is_deferred_until_maintain() {
    let mut world = World::new();
    let keep = world.create_entity();
    let gone = world.create_entity();
    world.transforms.insert(keep, at(1, 1));
    world.transforms.insert(gone, at(2, 2));
    world.velocities.insert(gone, Velocity(Vector2::new(5, 5)));
    world.ball_types.insert(gone, BallType::Good);

    assert_eq!(world.delete_entity(gone), Ok(()));
    assert!(world.entities.is_alive(gone));
    assert!(world.entities.is_doomed(gone));
    assert_eq!(world.transforms.get(gone), Some(&at(2, 2)));
    assert!(world.velocities.contains(gone));
    assert!(world.ball_types.contains(gone));

    world.maintain();
    assert!(!world.entities.is_alive(gone));
    assert!(!world.entities.is_doomed(gone));
    assert!(!world.transforms.contains(gone));
    assert!(!world.velocities.contains(gone));
    assert!(!world.ball_types.contains(gone));
    assert!(world.entities.is_alive(keep));
    assert_eq!(world.transforms.get(keep), Some(&at(1, 1)));
}

#[test]
fn deleting_what_is_not_alive_fails() {
    let mut world = World::new();
    assert_eq!(world.delete_entity(Entity { id: 9 }), Err(NotAlive));
    let e = world.create_entity();
    assert_eq!(world.delete_entity(e), Ok(()));
    assert_eq!(world.delete_entity(e), Ok(()));
    world.maintain();
    assert_eq!(world.delete_entity(e), Err(NotAlive));
}

#[test]
fn ids_are_used_again_only_after_the_purge() {
    let mut world = World::new();
    let a = world.create_entity();
    world.transforms.insert(a, at(3, 3));
    world.delete_entity(a).unwrap();
    let b = world.create_entity();
    assert_ne!(a, b);
    world.maintain();
    let c = world.create_entity();
    assert_eq!(c, a);
    assert!(!world.transforms.contains(c));
}

#[test]
fn maintain_without_deletions_changes_nothing() {
    let mut world = World::new();
    let a = world.create_entity();
    world.transforms.insert(a, at(3, 3));
    world.maintain();
    assert!(world.entities.is_alive(a));
    assert_eq!(world.transforms.get(a), Some(&at(3, 3)));
}

#[test]
fn joins_visit_each_entity_once_by_rising_id() {
    let mut a: Storage<i32> = Storage::new();
    let mut b: Storage<bool> = Storage::new();
    let mut c: Storage<u8> = Storage::new();
    for id in [0, 2, 3, 5, 9] {
        a.insert(Entity { id }, id as i32);
    }
    for id in [9, 3, 1, 0, 12] {
        b.insert(Entity { id }, true);
    }
    for id in [3, 9, 4] {
        c.insert(Entity { id }, 1);
    }
    assert_eq!(join(&a, &b), vec![Entity { id: 0 }, Entity { id: 3 }, Entity { id: 9 }]);
    assert_eq!(join(&b, &a), vec![Entity { id: 0 }, Entity { id: 3 }, Entity { id: 9 }]);
    assert_eq!(join3(&a, &b, &c), vec![Entity { id: 3 }, Entity { id: 9 }]);
    assert_eq!(join(&a, &Storage::<u8>::new()), vec![]);
    b.remove(Entity { id: 3 });
    assert_eq!(join3(&a, &b, &c), vec![Entity { id: 9 }]);
}

#[test]
fn a_new_registry_is_empty() {
    let registry = arcade::world::Entities::new();
    assert_eq!(registry.limit(), 0);
    assert!(!registry.is_alive(Entity { id: 0 }));
    assert!(!registry.is_doomed(Entity { id: 0 }));
}
