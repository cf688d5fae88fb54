use arcade::collision::{are_colliding, CollisionSystem};
use arcade::components::{
    BallType, BoundingCircle, HitBad, HitGood, HitNeutral, MaxVelocity, OrbitComponent,
    RespawnComponent, Transform, Velocity,
};
use arcade::game::{center, left_circle, polar_vector, respawn, MaxVelSystem, MotionSystem, RespawnSystem};
use arcade::orbit::{advance, OrbitSystem};
use arcade::storage::{Entity, Storage};
use arcade::vector::Vector2;
use arcade::world::World;

fn at(x: i32, y: i32) -> Transform {
    Transform { pos: Vector2::new(x, y), ..Transform::default() }
}

fn units(x: f64) -> i32 {
    (x * 1000.0).round() as i32
}

#[test]
fn circles_collide_below_the_sum_of_radii() {
    let one = BoundingCircle::default();
    let a = at(0, 0);
    assert!(!are_colliding(&a, &one, &at(units(2.0), 0), &one));
    assert!(are_colliding(&a, &one, &at(units(1.999), 0), &one));
    assert!(!are_colliding(&a, &one, &at(units(2.001), 0), &one));
    assert!(are_colliding(&a, &one, &a, &one));
    assert!(!are_colliding(&a, &one, &at(0, -2000), &one));
    assert!(are_colliding(&a, &one, &at(1200, -1599), &one));
    assert!(!are_colliding(&a, &one, &at(1200, -1600), &one));
}

#[test]
fn collision_does_not_depend_on_the_order() {
    let pairs = [
        (at(0, 0), 1000, at(1999, 0), 1000),
        (at(5, -7), 30, at(-40, 9), 20),
        (at(i32::MIN, i32::MIN), i32::MAX, at(i32::MAX, i32::MAX), i32::MAX),
        (at(100, 100), -50, at(120, 100), 10),
    ];
    for (t1, r1, t2, r2) in pairs {
        let b1 = BoundingCircle { radius: r1 };
        let b2 = BoundingCircle { radius: r2 };
        assert_eq!(are_colliding(&t1, &b1, &t2, &b2), are_colliding(&t2, &b2, &t1, &b1));
    }
}

struct Hits {
    bad: HitBad,
    neutral: HitNeutral,
    good: HitGood,
}

fn collide(world: &mut World, system: &mut CollisionSystem) -> Hits {
    let mut hits = Hits { bad: HitBad(true), neutral: HitNeutral(true), good: HitGood(true) };
    system.run(
        &mut world.transforms,
        &world.bounding_circles,
        &world.ball_types,
        &mut hits.bad,
        &mut hits.neutral,
        &mut hits.good,
    );
    hits
}

fn player_at(world: &mut World, x: i32, y: i32) -> Entity {
    let player = world.create_entity();
    world.transforms.insert(player, at(x, y));
    world.bounding_circles.insert(player, BoundingCircle { radius: 14_000 });
    player
}

fn ball_at(world: &mut World, x: i32, y: i32, kind: BallType) -> Entity {
    let ball = world.create_entity();
    world.transforms.insert(ball, at(x, y));
    world.bounding_circles.insert(ball, BoundingCircle { radius: 14_000 });
    world.ball_types.insert(ball, kind);
    ball
}

#[test]
fn scoring_scenario() {
    let mut world = World::new();
    let player = player_at(&mut world, 320_000, 240_000);
    let ball = ball_at(&mut world, 320_000, 240_000, BallType::Good);
    world.velocities.insert(ball, Velocity(Vector2::zero()));
    let mut system = CollisionSystem { player, new_points: 0 };
    let hits = collide(&mut world, &mut system);
    assert_eq!(system.new_points, 1);
    assert_eq!(hits.good, HitGood(true));
    assert_eq!(hits.bad, HitBad(false));
    assert_eq!(hits.neutral, HitNeutral(false));
    let pos = world.transforms.get(ball).unwrap().pos;
    assert_eq!(pos, Vector2::new(5_000_000, 5_000_000));
    assert!(pos.x > 640_000 && pos.y > 480_000);
    assert_eq!(world.transforms.get(player), Some(&at(320_000, 240_000)));
}

#[test]
fn collision_classifies_and_counts() {
    let mut world = World::new();
    let player = player_at(&mut world, 0, 0);
    let good1 = ball_at(&mut world, 1000, 0, BallType::Good);
    let good2 = ball_at(&mut world, 0, 27_999, BallType::Good);
    let good_far = ball_at(&mut world, 0, 28_000, BallType::Good);
    let bad = ball_at(&mut world, -5000, 5000, BallType::Bad);
    let neutral_far = ball_at(&mut world, 100_000, 0, BallType::Neutral);
    let no_kind = world.create_entity();
    world.transforms.insert(no_kind, at(0, 0));
    world.bounding_circles.insert(no_kind, BoundingCircle { radius: 14_000 });

    let mut system = CollisionSystem { player, new_points: 40 };
    let hits = collide(&mut world, &mut system);
    assert_eq!(system.new_points, 2);
    assert_eq!(hits.good, HitGood(true));
    assert_eq!(hits.bad, HitBad(true));
    assert_eq!(hits.neutral, HitNeutral(false));
    let off = Vector2::new(5_000_000, 5_000_000);
    assert_eq!(world.transforms.get(good1).unwrap().pos, off);
    assert_eq!(world.transforms.get(good2).unwrap().pos, off);
    assert_eq!(world.transforms.get(bad).unwrap().pos, off);
    assert_eq!(world.transforms.get(good_far), Some(&at(0, 28_000)));
    assert_eq!(world.transforms.get(neutral_far), Some(&at(100_000, 0)));
    assert_eq!(world.transforms.get(no_kind), Some(&at(0, 0)));

    let hits = collide(&mut world, &mut system);
    assert_eq!(system.new_points, 0);
    assert_eq!(hits.good, HitGood(false));
    assert_eq!(hits.bad, HitBad(false));
    assert_eq!(hits.neutral, HitNeutral(false));
}

#[test]
fn collision_keeps_scale_and_angle() {
    let mut world = World::new();
    let player = player_at(&mut world, 0, 0);
    let ball = ball_at(&mut world, 10, 10, BallType::Neutral);
    let t = Transform { pos: Vector2::new(10, 10), scale: Vector2::new(250, 250), angle: 77 };
    world.transforms.insert(ball, t);
    let mut system = CollisionSystem { player, new_points: 0 };
    let hits = collide(&mut world, &mut system);
    assert_eq!(hits.neutral, HitNeutral(true));
    assert_eq!(
        world.transforms.get(ball),
        Some(&Transform { pos: Vector2::new(5_000_000, 5_000_000), ..t })
    );
}

#[test]
fn motion_moves_by_velocity_times_time() {
    let mut transforms: Storage<Transform> = Storage::new();
    let mut velocities: Storage<Velocity> = Storage::new();
    let a = Entity { id: 0 };
    let b = Entity { id: 1 };
    let c = Entity { id: 5 };
    transforms.insert(a, at(1000, 2000));
    velocities.insert(a, Velocity(Vector2::new(20_000, -30_000)));
    transforms.insert(b, at(7, 7));
    velocities.insert(c, Velocity(Vector2::new(1, 1)));
    let mut system = MotionSystem { frametime: 16_667 };
    system.run(&mut transforms, &velocities);
    assert_eq!(transforms.get(a), Some(&at(1000 + 333, 2000 - 500)));
    assert_eq!(transforms.get(b), Some(&at(7, 7)));
    assert_eq!(transforms.get(c), None);
    assert_eq!(system.frametime, 16_667);
}

#[test]
fn motion_in_two_steps_ends_where_one_step_ends() {
    let velocities = [Vector2::new(20_000, -30_000), Vector2::new(-7, 119_999), Vector2::new(1, -1)];
    let times = [(16_667u32, 16_667u32), (1, 999_999), (0, 5), (123_456, 654_321)];
    for v in velocities {
        for (t1, t2) in times {
            let e = Entity { id: 0 };
            let mut vs: Storage<Velocity> = Storage::new();
            vs.insert(e, Velocity(v));
            let mut twice: Storage<Transform> = Storage::new();
            twice.insert(e, at(320_000, 240_000));
            MotionSystem { frametime: t1 }.run(&mut twice, &vs);
            MotionSystem { frametime: t2 }.run(&mut twice, &vs);
            let mut once: Storage<Transform> = Storage::new();
            once.insert(e, at(320_000, 240_000));
            MotionSystem { frametime: t1 + t2 }.run(&mut once, &vs);
            let p = twice.get(e).unwrap().pos;
            let q = once.get(e).unwrap().pos;
            assert!((p.x - q.x).abs() <= 1 && (p.y - q.y).abs() <= 1);
        }
    }
}

#[test]
fn motion_saturates_at_the_end_of_the_plane() {
    let e = Entity { id: 0 };
    let mut vs: Storage<Velocity> = Storage::new();
    vs.insert(e, Velocity(Vector2::new(i32::MAX, i32::MIN)));
    let mut ts: Storage<Transform> = Storage::new();
    ts.insert(e, at(i32::MAX - 5, i32::MIN + 5));
    MotionSystem { frametime: u32::MAX }.run(&mut ts, &vs);
    assert_eq!(ts.get(e), Some(&at(i32::MAX, i32::MIN)));
}

#[test]
fn max_velocity_limits_only_those_that_have_one() {
    let mut velocities: Storage<Velocity> = Storage::new();
    let mut maxima: Storage<MaxVelocity> = Storage::new();
    let a = Entity { id: 0 };
    let b = Entity { id: 1 };
    let c = Entity { id: 2 };
    velocities.insert(a, Velocity(Vector2::new(300_000, -400_000)));
    maxima.insert(a, MaxVelocity(100_000));
    velocities.insert(b, Velocity(Vector2::new(300_000, -400_000)));
    velocities.insert(c, Velocity(Vector2::zero()));
    maxima.insert(c, MaxVelocity(0));
    MaxVelSystem.run(&mut velocities, &maxima);
    assert_eq!(velocities.get(a), Some(&Velocity(Vector2::new(60_000, -80_000))));
    assert_eq!(velocities.get(b), Some(&Velocity(Vector2::new(300_000, -400_000))));
    assert_eq!(velocities.get(c), Some(&Velocity(Vector2::zero())));
    MaxVelSystem.run(&mut velocities, &maxima);
    assert_eq!(velocities.get(a), Some(&Velocity(Vector2::new(60_000, -80_000))));
}

fn ball_params() -> RespawnComponent {
    RespawnComponent { max_radius: 400_000, max_speed: 120_000, min_speed: 70_000 }
}

#[test]
fn respawn_puts_on_the_circle_with_the_speed_drawn() {
    let t = Transform { pos: Vector2::new(5_000_000, 5_000_000), scale: Vector2::new(250, 250), angle: 3 };
    let (new_t, new_v) = respawn(t, ball_params(), 0, 1_570_796, 100_000);
    assert_eq!(new_t, Transform { pos: Vector2::new(720_000, 240_000), ..t });
    assert_eq!(new_v, Velocity(Vector2::new(0, 100_000)));
    let (new_t, new_v) = respawn(t, ball_params(), 3_141_592, 3_141_592 + 785_398, 70_000);
    assert_eq!(new_t.pos, Vector2::new(-80_000, 240_000));
    let want = -(70_000.0 * std::f64::consts::FRAC_1_SQRT_2);
    assert!((new_v.0.x as f64 - want).abs() < 3.0);
    assert!((new_v.0.y as f64 - want).abs() < 3.0);
}

#[test]
fn respawn_lands_within_the_tolerance_of_the_circle() {
    let r = ball_params();
    let mut angle: i64 = 0;
    while angle < 6_283_184 {
        let (t, v) = respawn(at(0, 0), r, angle, angle, 93_000);
        let d = t.pos.distance_squared(center());
        let full = 400_000u128 * 400_000u128;
        assert!(d <= full && d >= full - 6 * 400_000);
        assert!(!left_circle(&t, &r));
        let s = v.0.norm_squared();
        assert!(s <= 93_000 * 93_000 && s >= 93_000 * 93_000 - 6 * 93_000);
        angle += 4_999;
    }
}

#[test]
fn respawn_pass_brings_back_only_what_has_left() {
    for _ in 0..50 {
        let mut transforms: Storage<Transform> = Storage::new();
        let mut velocities: Storage<Velocity> = Storage::new();
        let mut params: Storage<RespawnComponent> = Storage::new();
        let out = Entity { id: 0 };
        let inside = Entity { id: 1 };
        let edge = Entity { id: 2 };
        let no_params = Entity { id: 3 };
        let slow = Entity { id: 4 };
        for e in [out, inside, edge, no_params, slow] {
            velocities.insert(e, Velocity(Vector2::new(1, 2)));
        }
        transforms.insert(out, at(5_000_000, 5_000_000));
        transforms.insert(inside, at(320_000, 240_000));
        transforms.insert(edge, at(720_000, 240_000));
        transforms.insert(no_params, at(5_000_000, 5_000_000));
        transforms.insert(slow, at(-5_000_000, 0));
        params.insert(out, ball_params());
        params.insert(inside, ball_params());
        params.insert(edge, ball_params());
        params.insert(slow, RespawnComponent { max_radius: 1000, max_speed: 10, min_speed: 500 });
        RespawnSystem.run(&mut transforms, &mut velocities, &params);

        let t = transforms.get(out).unwrap();
        let d = t.pos.distance_squared(center());
        let full = 400_000u128 * 400_000u128;
        assert!(d <= full && d >= full - 6 * 400_000);
        let s = velocities.get(out).unwrap().0.norm_squared();
        assert!(s <= 120_000 * 120_000);
        assert!(s >= 70_000 * 70_000 - 6 * 70_000);

        assert_eq!(transforms.get(inside), Some(&at(320_000, 240_000)));
        assert_eq!(velocities.get(inside), Some(&Velocity(Vector2::new(1, 2))));
        assert_eq!(transforms.get(edge), Some(&at(720_000, 240_000)));
        assert_eq!(transforms.get(no_params), Some(&at(5_000_000, 5_000_000)));
        assert_eq!(velocities.get(no_params), Some(&Velocity(Vector2::new(1, 2))));

        let s = velocities.get(slow).unwrap().0.norm_squared();
        assert!(s <= 500 * 500 && s >= 500 * 500 - 6 * 500);
        assert!(transforms.get(slow).unwrap().pos.distance_squared(center()) <= 1000 * 1000);
    }
}

#[test]
fn polar_vectors_point_along_the_angle() {
    assert_eq!(polar_vector(20_000, 0), Vector2::new(20_000, 0));
    assert_eq!(polar_vector(20_000, 1_570_796), Vector2::new(0, 20_000));
    assert_eq!(polar_vector(-20_000, 0), Vector2::new(-20_000, 0));
    let v = polar_vector(1_000_000, 1_000_000);
    assert!((v.x as f64 - 1e6 * 1f64.cos()).abs() < 20.0);
    assert!((v.y as f64 - 1e6 * 1f64.sin()).abs() < 20.0);
}

#[test]
fn orbit_decay_scenario() {
    let mut o = OrbitComponent {
        radius: 1_000_000,
        target_radius: 150_000,
        angular_velocity: 20_000,
        angle: 0,
    };
    for step in 1..=1000 {
        let next = advance(o);
        assert!(next.radius < o.radius);
        assert!(next.radius > 150_000);
        assert_eq!(next.angle, 20_000 * step);
        assert_eq!(next.target_radius, 150_000);
        assert_eq!(next.angular_velocity, 20_000);
        o = next;
    }
    let expected = 150.0 + 850.0 * 0.997f64.powi(1000);
    assert!((o.radius as f64 / 1000.0 - expected).abs() < 1.0);
}

#[test]
fn orbit_steps_are_exact() {
    let o = OrbitComponent { radius: 1_000_000, target_radius: 150_000, angular_velocity: 20_000, angle: 5 };
    let next = advance(o);
    assert_eq!(next.radius, 1_000_000 - 2550);
    assert_eq!(next.angle, 20_005);
    let below = OrbitComponent { radius: 0, target_radius: 250_000, angular_velocity: -1, angle: i64::MIN };
    let next = advance(below);
    assert_eq!(next.radius, 750);
    assert_eq!(next.angle, i64::MIN);
    let close = OrbitComponent { radius: 150_333, target_radius: 150_000, angular_velocity: 0, angle: 0 };
    assert_eq!(advance(close).radius, 150_333);
    let rest = OrbitComponent { radius: 150_000, target_radius: 150_000, angular_velocity: 0, angle: 0 };
    assert_eq!(advance(rest).radius, 150_000);
}

#[test]
fn orbit_pass_places_round_the_player() {
    let mut world = World::new();
    let player = world.create_entity();
    world.transforms.insert(player, at(320_000, 240_000));
    let nuke = world.create_entity();
    world.transforms.insert(nuke, Transform { pos: Vector2::new(1, 1), scale: Vector2::new(250, 250), angle: 9 });
    world.orbits.insert(
        nuke,
        OrbitComponent { radius: 250_000, target_radius: 0, angular_velocity: 1_570_796, angle: 0 },
    );
    let lonely = world.create_entity();
    world.orbits.insert(
        lonely,
        OrbitComponent { radius: 5, target_radius: 0, angular_velocity: 1, angle: 0 },
    );
    let mut system = OrbitSystem { player, nuke_angle: -1 };
    system.run(&mut world.transforms, &mut world.orbits);
    assert_eq!(system.nuke_angle, 1_570_796);
    assert_eq!(
        world.transforms.get(nuke),
        Some(&Transform { pos: Vector2::new(320_000, 490_000), scale: Vector2::new(250, 250), angle: 0 })
    );
    assert_eq!(
        world.orbits.get(nuke),
        Some(&OrbitComponent { radius: 249_250, target_radius: 0, angular_velocity: 1_570_796, angle: 1_570_796 })
    );
    assert_eq!(world.orbits.get(lonely).unwrap().angle, 0);
    assert_eq!(world.transforms.get(player), Some(&at(320_000, 240_000)));

    let mut idle = OrbitSystem { player, nuke_angle: 42 };
    let mut none: Storage<OrbitComponent> = Storage::new();
    idle.run(&mut world.transforms, &mut none);
    assert_eq!(idle.nuke_angle, 42);
}

#[test]
fn respawn_lands_on_circles_of_any_size() {
    for radius in [0i32, 1, 7, 400_000, 1_000_000, 1_000_001, 250_000_000, 2_000_000_000, i32::MAX - 320_000] {
        let r = RespawnComponent { max_radius: radius, max_speed: i32::MAX, min_speed: i32::MAX };
        let mut angle: i64 = 0;
        while angle < 6_283_184 {
            let (t, v) = respawn(at(0, 0), r, angle, angle + 1, i32::MAX);
            let full = (radius as u128) * (radius as u128);
            let d = t.pos.distance_squared(center());
            assert!(d <= full);
            assert!(d * 1_000_000 + 4_000_000 * (radius as u128) >= full * 999_998);
            assert!(!left_circle(&t, &r));
            let top = (i32::MAX as u128) * (i32::MAX as u128);
            let s = v.0.norm_squared() as u128;
            assert!(s <= top);
            assert!(s * 1_000_000 + 4_000_000 * (i32::MAX as u128) >= top * 999_998);
            angle += 99_991;
        }
    }
}
