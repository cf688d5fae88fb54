use arcade::collision::CollisionSystem;
use arcade::components::{
    BallType, BoundingCircle, HitBad, HitGood, MaxVelocity, ObamaComponent, OrbitComponent,
    RespawnComponent, Transform, Velocity,
};
use arcade::frame::{run_systems, Systems};
use arcade::game::{MaxVelSystem, MotionSystem, RespawnSystem};
use arcade::input::{InputEvent, InputSystem, KeyCode};
use arcade::orbit::OrbitSystem;
use arcade::player::Keys;
use arcade::population::ObamaSystem;
use arcade::scene::create_player;
use arcade::sprite::{Sprite, TextureId};
use arcade::storage::Entity;
use arcade::vector::Vector2;
use arcade::world::World;

fn at(x: i32, y: i32) -> Transform {
    Transform { pos: Vector2::new(x, y), ..Transform::default() }
}

fn systems_for(player: Entity, frametime: u32) -> Systems {
    Systems {
        motion: MotionSystem { frametime },
        obama: ObamaSystem { too_few_obamas: false },
        input: InputSystem { mouse_pos: Vector2::zero(), should_exit: false },
        collision: CollisionSystem { player, new_points: 0 },
        orbit: OrbitSystem { player, nuke_angle: 0 },
        max_vel: MaxVelSystem,
        respawn: RespawnSystem,
    }
}

#[test]
fn a_frame_runs_the_systems_in_order() {
    let mut world = World::new();
    let player = create_player(&mut world, Sprite::new(TextureId(0)));

    // a ball that motion carries into the player, and that respawn then brings back
    let ball = world.create_entity();
    world.transforms.insert(ball, at(320_000 + 127_000, 240_000));
    world.velocities.insert(ball, Velocity(Vector2::new(-100_000, 0)));
    world.bounding_circles.insert(ball, BoundingCircle { radius: 14_000 });
    world.ball_types.insert(ball, BallType::Good);
    world
        .respawns
        .insert(ball, RespawnComponent { max_radius: 400_000, max_speed: 120_000, min_speed: 70_000 });

    // a decoration that motion carries out of the arena
    let stray = world.create_entity();
    world.obamas.insert(stray, ObamaComponent);
    world.transforms.insert(stray, at(740_000, 0));
    world.velocities.insert(stray, Velocity(Vector2::new(20_000, 0)));

    // something that orbits the player
    let nuke = world.create_entity();
    world.transforms.insert(nuke, at(0, 0));
    world.orbits.insert(
        nuke,
        OrbitComponent { radius: 250_000, target_radius: 0, angular_velocity: 20_000, angle: -20_000 },
    );

    let mut systems = systems_for(player, 1_000_000);
    let events = vec![InputEvent::KeyDown(KeyCode::S), InputEvent::MouseMotion { x: 0, y: 480 }];
    run_systems(&mut systems, &mut world, &events);

    assert_eq!(systems.collision.new_points, 1);
    assert_eq!(world.hit_good, HitGood(true));
    assert_eq!(world.hit_bad, HitBad(false));
    let t = world.transforms.get(ball).unwrap();
    let d = t.pos.distance_squared(Vector2::new(320_000, 240_000));
    assert!(d <= 400_000u128 * 400_000 && d >= 400_000u128 * 400_000 - 6 * 400_000);
    let speed = world.velocities.get(ball).unwrap().0.norm_squared();
    assert!(speed <= 120_000 * 120_000 && speed >= 70_000 * 70_000 - 6 * 70_000);

    assert!(!world.entities.is_alive(stray));
    assert!(!world.transforms.contains(stray));
    assert!(!world.obamas.contains(stray));
    assert!(systems.obama.too_few_obamas);

    assert_eq!(systems.orbit.nuke_angle, 0);
    assert_eq!(world.transforms.get(nuke).unwrap().pos, Vector2::new(320_000 + 250_000, 240_000));
    assert_eq!(world.orbits.get(nuke).unwrap().radius, 249_250);

    assert!(world.players.get(player).unwrap().get_key(Keys::Down));
    assert_eq!(world.velocities.get(player), Some(&Velocity(Vector2::new(0, 15_000))));
    let facing = world.transforms.get(player).unwrap();
    assert_eq!(facing.pos, Vector2::new(320_000, 240_000));
    assert_eq!(facing.angle, 3_141_592);
    assert_eq!(systems.input.mouse_pos, Vector2::new(0, 480_000));
    assert!(!systems.input.should_exit);
    assert_eq!(systems.motion.frametime, 1_000_000);
}

#[test]
fn a_frame_limits_the_player_after_input() {
    let mut world = World::new();
    let player = create_player(&mut world, Sprite::new(TextureId(0)));
    world.velocities.insert(player, Velocity(Vector2::new(95_000, 0)));
    assert_eq!(world.max_velocities.get(player), Some(&MaxVelocity(100_000)));
    let mut systems = systems_for(player, 0);
    run_systems(&mut systems, &mut world, &vec![InputEvent::KeyDown(KeyCode::D)]);
    assert_eq!(world.velocities.get(player), Some(&Velocity(Vector2::new(100_000, 0))));
    run_systems(&mut systems, &mut world, &vec![InputEvent::Quit]);
    assert!(systems.input.should_exit);
    assert_eq!(world.velocities.get(player), Some(&Velocity(Vector2::new(100_000, 0))));
}
