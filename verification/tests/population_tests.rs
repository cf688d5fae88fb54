use arcade::components::{BallType, ObamaComponent, Transform, Velocity};
use arcade::population::{
    create_obama, edge_position_at, inward_heading, random_edge_position, replenish, spawn_obama,
    way_off_screen, ObamaSystem,
};
use arcade::spawner::{spawn_ball_of, BallSpawner};
use arcade::sprite::{Key, Sprite, TextureId};
use arcade::storage::Entity;
use arcade::vector::Vector2;
use arcade::world::World;

fn at(x: i32, y: i32) -> Transform {
    Transform { pos: Vector2::new(x, y), ..Transform::default() }
}

fn on_edge(p: Vector2) -> bool {
    ((p.y == 0 || p.y == 480_000) && 0 <= p.x && p.x <= 640_000)
        || ((p.x == 0 || p.x == 640_000) && 0 <= p.y && p.y <= 480_000)
}

/// The side of the perimeter that `dist` lies on: top, right, bottom, left.
fn side_of(dist: u32) -> usize {
    if dist < 640 {
        0
    } else if dist < 1120 {
        1
    } else if dist < 1760 {
        2
    } else {
        3
    }
}

fn obama_at(world: &mut World, x: i32, y: i32) -> Entity {
    let e = world.create_entity();
    world.obamas.insert(e, ObamaComponent);
    world.transforms.insert(e, at(x, y));
    e
}

fn census(world: &mut World) -> bool {
    let mut system = ObamaSystem { too_few_obamas: false };
    system.run(&mut world.entities, &world.obamas, &world.transforms);
    system.too_few_obamas
}

#[test]
fn way_off_screen_counts_whole_units() {
    assert!(!way_off_screen(Vector2::new(0, 0)));
    assert!(!way_off_screen(Vector2::new(-100_000, -100_000)));
    assert!(!way_off_screen(Vector2::new(-100_999, 0)));
    assert!(way_off_screen(Vector2::new(-101_000, 0)));
    assert!(!way_off_screen(Vector2::new(740_999, 580_999)));
    assert!(way_off_screen(Vector2::new(741_000, 0)));
    assert!(way_off_screen(Vector2::new(0, 581_000)));
    assert!(way_off_screen(Vector2::new(0, -101_000)));
    assert!(way_off_screen(Vector2::new(5_000_000, 5_000_000)));
}

#[test]
fn edge_positions_run_round_the_arena() {
    assert_eq!(edge_position_at(0), Vector2::new(0, 0));
    assert_eq!(edge_position_at(639), Vector2::new(639_000, 0));
    assert_eq!(edge_position_at(640), Vector2::new(640_000, 0));
    assert_eq!(edge_position_at(1119), Vector2::new(640_000, 479_000));
    assert_eq!(edge_position_at(1120), Vector2::new(0, 480_000));
    assert_eq!(edge_position_at(1759), Vector2::new(639_000, 480_000));
    assert_eq!(edge_position_at(1760), Vector2::new(0, 0));
    assert_eq!(edge_position_at(2239), Vector2::new(0, 479_000));
    assert_eq!(edge_position_at(u32::MAX), Vector2::new(0, i32::MAX));
    for dist in 0..2240 {
        let p = edge_position_at(dist);
        assert!(on_edge(p));
        assert!(!way_off_screen(p));
    }
}

#[test]
fn random_edge_positions_lie_on_the_edge() {
    let mut seen_sides = [false; 4];
    for _ in 0..400 {
        let p = random_edge_position();
        assert!(on_edge(p));
        if p.y == 0 && p.x > 0 && p.x < 640_000 {
            seen_sides[0] = true;
        } else if p.x == 640_000 && p.y > 0 {
            seen_sides[1] = true;
        } else if p.y == 480_000 && p.x > 0 {
            seen_sides[2] = true;
        } else if p.x == 0 && p.y > 0 {
            seen_sides[3] = true;
        }
    }
    assert_eq!(seen_sides, [true; 4]);
}

#[test]
fn population_floor_scenario() {
    let mut world = World::new();
    let mut obamas = Vec::new();
    for i in 0..5 {
        obamas.push(obama_at(&mut world, 100_000 * i, 100_000));
    }
    assert!(!census(&mut world));
    for e in obamas {
        world.delete_entity(e).unwrap();
    }
    world.maintain();
    assert!(census(&mut world));

    let sprites = vec![Sprite::new(TextureId::new()), Sprite::new(TextureId::new().next())];
    let before = world.obamas.limit();
    let e = create_obama(&mut world, &sprites);
    assert!(world.entities.is_alive(e));
    assert!(world.obamas.contains(e));
    let mut tagged = 0;
    for id in 0..world.obamas.limit().max(before) {
        if world.obamas.contains(Entity { id }) {
            tagged += 1;
        }
    }
    assert_eq!(tagged, 1);
    let t = world.transforms.get(e).unwrap();
    assert!(on_edge(t.pos));
    assert_eq!(t.scale, Vector2::new(500, 500));
    assert_eq!(t.angle, 0);
    let v = world.velocities.get(e).unwrap().0;
    let speed = v.norm_squared();
    assert!(speed <= 20_000 * 20_000 && speed >= 20_000 * 20_000 - 6 * 20_000);
    let sprite = world.sprites.get(e).unwrap();
    assert!(sprites.contains(sprite));
    assert!(!world.ball_types.contains(e));
    assert!(!world.respawns.contains(e));
}

#[test]
fn census_counts_and_culls() {
    let mut world = World::new();
    let a = obama_at(&mut world, 0, 0);
    let b = obama_at(&mut world, 741_000, 0);
    let c = obama_at(&mut world, 100_000, -101_000);
    let d = obama_at(&mut world, 639_000, 479_000);
    let untagged = world.create_entity();
    world.transforms.insert(untagged, at(5_000_000, 5_000_000));
    let no_transform = world.create_entity();
    world.obamas.insert(no_transform, ObamaComponent);

    assert!(!census(&mut world));
    assert!(!world.entities.is_doomed(a));
    assert!(world.entities.is_doomed(b));
    assert!(world.entities.is_doomed(c));
    assert!(!world.entities.is_doomed(d));
    assert!(!world.entities.is_doomed(untagged));
    assert!(!world.entities.is_doomed(no_transform));
    assert!(world.entities.is_alive(b));

    world.maintain();
    assert!(!world.entities.is_alive(b));
    assert!(!world.entities.is_alive(c));
    assert!(census(&mut world));
}

#[test]
fn census_ignores_what_does_not_exist() {
    let mut world = World::new();
    for id in 0..6 {
        world.obamas.insert(Entity { id }, ObamaComponent);
        world.transforms.insert(Entity { id }, at(5_000_000, 0));
    }
    assert!(census(&mut world));
    assert!(!world.entities.is_doomed(Entity { id: 0 }));
}

#[test]
fn create_obama_with_no_sprites_still_spawns() {
    let mut world = World::new();
    let e = create_obama(&mut world, &Vec::new());
    assert!(world.obamas.contains(e));
    assert!(world.transforms.contains(e));
    assert!(world.velocities.contains(e));
    assert!(!world.sprites.contains(e));
}

#[test]
fn spawn_obama_is_exact() {
    let mut world = World::new();
    let sprite = Sprite::new(TextureId(4));
    let e = spawn_obama(&mut world, Vector2::new(640_000, 7000), 3_141_592, Some(sprite));
    assert_eq!(
        world.transforms.get(e),
        Some(&Transform { pos: Vector2::new(640_000, 7000), scale: Vector2::new(500, 500), angle: 0 })
    );
    assert_eq!(world.velocities.get(e), Some(&Velocity(Vector2::new(-20_000, 0))));
    assert_eq!(world.sprites.get(e), Some(&sprite));
    assert_eq!(world.obamas.get(e), Some(&ObamaComponent));
}

#[test]
fn ball_spawner_waits_for_its_interval() {
    let mut world = World::new();
    let types = vec![(BallType::Bad, Sprite::new(TextureId(2)))];
    let mut spawner = BallSpawner::new(types);
    assert_eq!(spawner.spawn_time, 3_000_000);
    assert_eq!(spawner.last_spawn, 0);
    assert_eq!(spawner.do_spawn_at(&mut world, 3_000_000), None);
    assert_eq!(spawner.last_spawn, 0);
    let first = spawner.do_spawn_at(&mut world, 3_000_001);
    assert!(first.is_some());
    assert_eq!(spawner.last_spawn, 3_000_001);
    assert_eq!(spawner.do_spawn_at(&mut world, 3_000_002), None);
    assert_eq!(spawner.do_spawn_at(&mut world, 6_000_001), None);
    let second = spawner.do_spawn_at(&mut world, 6_000_002);
    assert!(second.is_some());
    assert_ne!(first, second);
    assert_eq!(spawner.last_spawn, 6_000_002);

    let mut late = BallSpawner { spawn_time: u64::MAX, last_spawn: u64::MAX, types: Vec::new() };
    assert_eq!(late.do_spawn_at(&mut world, u64::MAX), None);
}

#[test]
fn ball_spawner_by_the_clock() {
    let mut world = World::new();
    let mut spawner = BallSpawner::new(vec![(BallType::Good, Sprite::new(TextureId(0)))]);
    let first = spawner.do_spawn(&mut world);
    let again = spawner.do_spawn(&mut world);
    if first.is_some() {
        assert!(spawner.last_spawn > 3_000_000);
        assert_eq!(again, None);
    } else {
        assert_eq!(spawner.last_spawn, 0);
    }
}

#[test]
fn spawned_balls_have_the_whole_bundle() {
    let mut world = World::new();
    let types = vec![
        (BallType::Good, Sprite::new(TextureId(0))),
        (BallType::Neutral, Sprite::new(TextureId(1))),
        (BallType::Bad, Sprite::new(TextureId(2))),
    ];
    let spawner = BallSpawner::new(types.clone());
    let mut kinds_seen = [false; 3];
    for _ in 0..200 {
        let e = spawner.spawn_ball(&mut world).unwrap();
        let kind = *world.ball_types.get(e).unwrap();
        let sprite = *world.sprites.get(e).unwrap();
        assert!(types.contains(&(kind, sprite)));
        kinds_seen[sprite.texture_id.0 as usize] = true;
        assert_eq!(
            world.transforms.get(e),
            Some(&Transform { pos: Vector2::new(600_000, 600_000), scale: Vector2::new(250, 250), angle: 0 })
        );
        assert_eq!(world.velocities.get(e), Some(&Velocity(Vector2::zero())));
        assert_eq!(world.bounding_circles.get(e).unwrap().radius, 14_000);
        let r = world.respawns.get(e).unwrap();
        assert_eq!((r.max_radius, r.max_speed, r.min_speed), (400_000, 120_000, 70_000));
    }
    assert_eq!(kinds_seen, [true; 3]);
}

#[test]
fn spawning_from_an_empty_list_spawns_nothing() {
    let mut world = World::new();
    let mut spawner = BallSpawner::new(Vec::new());
    assert_eq!(spawner.spawn_ball(&mut world), None);
    assert!(world.is_fresh(Entity { id: 0 }));
    assert_eq!(spawner.do_spawn_at(&mut world, 10_000_000), None);
    assert_eq!(spawner.last_spawn, 10_000_000);
}

#[test]
fn spawn_ball_of_is_exact() {
    let mut world = World::new();
    let e = spawn_ball_of(&mut world, BallType::Neutral, Sprite::new(TextureId(9)));
    assert_eq!(world.ball_types.get(e), Some(&BallType::Neutral));
    assert_eq!(world.sprites.get(e), Some(&Sprite { texture_id: TextureId(9), depth: 0 }));
    assert!(world.entities.is_alive(e));
}

#[test]
fn replenish_spawns_only_when_too_few() {
    let mut world = World::new();
    let sprites = vec![Sprite::new(TextureId(1))];
    assert_eq!(replenish(&mut world, false, &sprites), None);
    assert!(world.is_fresh(Entity { id: 0 }));
    let e = replenish(&mut world, true, &sprites).unwrap();
    assert!(world.obamas.contains(e));
    assert!(on_edge(world.transforms.get(e).unwrap().pos));
    assert_eq!(world.sprites.get(e), Some(&Sprite::new(TextureId(1))));
}

#[test]
fn new_decorations_head_inward() {
    assert_eq!(inward_heading(0), 0);
    assert_eq!(inward_heading(639), 0);
    assert_eq!(inward_heading(640), 1_570_796);
    assert_eq!(inward_heading(1120), 3_141_592);
    assert_eq!(inward_heading(1760), 4_712_388);
    assert_eq!(inward_heading(u32::MAX), 4_712_388);
    let mut world = World::new();
    let mut sides = [false; 4];
    for _ in 0..400 {
        let e = create_obama(&mut world, &Vec::new());
        let p = world.transforms.get(e).unwrap().pos;
        let v = world.velocities.get(e).unwrap().0;
        assert!(on_edge(p));
        if p.y == 0 && p.x > 0 && p.x < 640_000 {
            assert!(v.y >= 0);
            sides[0] = true;
        } else if p.x == 640_000 && p.y > 0 && p.y < 480_000 {
            assert!(v.x <= 0);
            sides[1] = true;
        } else if p.y == 480_000 && p.x > 0 && p.x < 640_000 {
            assert!(v.y <= 0);
            sides[2] = true;
        } else if p.x == 0 && p.y > 0 && p.y < 480_000 {
            assert!(v.x >= 0);
            sides[3] = true;
        }
    }
    assert_eq!(sides, [true; 4]);
}

#[test]
fn headings_lead_inward_from_every_point_of_the_perimeter() {
    for dist in (0..2240u32).step_by(7) {
        for spread in [0i64, 1, 785_398, 1_570_796, 3_141_591] {
            let mut world = World::new();
            let e = spawn_obama(&mut world, edge_position_at(dist), inward_heading(dist) + spread, None);
            let v = world.velocities.get(e).unwrap().0;
            match side_of(dist) {
                0 => assert!(v.y >= 0),
                1 => assert!(v.x <= 0),
                2 => assert!(v.y <= 0),
                _ => assert!(v.x >= 0),
            }
        }
    }
}
