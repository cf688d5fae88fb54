use std::cell::Cell;
use std::rc::Rc;

use arcade::components::{
    BallType, BoundingCircle, HitBad, HitGood, HitNeutral, MaxVelocity, ObamaComponent,
    OrbitComponent, ScreenShake, Transform, Velocity,
};
use arcade::player::Keys;
use arcade::rendering::{
    desaturate, desaturate_row, draw_rect, grey, is_in_cone, DrawRect, Shaker,
};
use arcade::scene::{
    countdown, create_player, create_text_entity, spawn_nuke, spawn_sausage, Finale, Tally,
};
use arcade::sprite::{Key, ResourceLoader, ResourceManager, Sprite, TextureId};
use arcade::vector::Vector2;
use arcade::world::World;

struct Lengths {
    calls: Cell<u32>,
}

impl ResourceLoader<usize> for Lengths {
    type Args = str;

    fn load(&self, data: &str) -> Result<usize, String> {
        self.calls.set(self.calls.get() + 1);
        if data.is_empty() {
            Err(String::from("nothing to load"))
        } else {
            Ok(data.len())
        }
    }
}

#[test]
fn texture_ids_count_up_from_zero() {
    assert_eq!(TextureId::new(), TextureId(0));
    assert_eq!(TextureId::new().next(), TextureId(1));
    assert_eq!(TextureId(41).next(), TextureId(42));
    assert_eq!(TextureId(-1).next(), TextureId(0));
}

#[test]
fn sprites_start_at_depth_zero() {
    let s = Sprite::new(TextureId(7));
    assert_eq!(s.texture_id, TextureId(7));
    assert_eq!(s.depth, 0);
}

#[test]
fn resources_are_loaded_once_and_found_again() {
    let loader = Lengths { calls: Cell::new(0) };
    let mut manager = ResourceManager::new(&loader);
    assert_eq!(manager.get(TextureId(0)), None);
    assert_eq!(manager.find(&String::from("data/good.png")), None);

    assert_eq!(manager.load("data/good.png"), Ok(TextureId(0)));
    assert_eq!(manager.load("data/bad.png"), Ok(TextureId(1)));
    assert_eq!(loader.calls.get(), 2);
    assert_eq!(manager.load("data/good.png"), Ok(TextureId(0)));
    assert_eq!(loader.calls.get(), 2);
    assert_eq!(manager.find(&String::from("data/bad.png")), Some(TextureId(1)));

    assert_eq!(manager.get(TextureId(0)), Some(Rc::new(13)));
    assert_eq!(manager.get(TextureId(1)), Some(Rc::new(12)));
    assert_eq!(manager.get(TextureId(2)), None);
    assert_eq!(manager.get(TextureId(-1)), None);
    let a = manager.get(TextureId(0)).unwrap();
    let b = manager.get(TextureId(0)).unwrap();
    assert!(Rc::ptr_eq(&a, &b));
}

#[test]
fn a_failed_load_changes_nothing() {
    let loader = Lengths { calls: Cell::new(0) };
    let mut manager = ResourceManager::new(&loader);
    assert_eq!(manager.load(""), Err(String::from("nothing to load")));
    assert_eq!(manager.get(TextureId(0)), None);
    assert_eq!(manager.find(&String::new()), None);
    assert_eq!(manager.load("x"), Ok(TextureId(0)));
    assert_eq!(manager.load(""), Err(String::from("nothing to load")));
    assert_eq!(loader.calls.get(), 3);
}

#[test]
fn keep_takes_what_the_loader_returned() {
    let loader = Lengths { calls: Cell::new(0) };
    let mut manager = ResourceManager::new(&loader);
    assert_eq!(manager.keep("a", Ok(5)), Ok(TextureId(0)));
    assert_eq!(manager.keep("b", Err(String::from("gone"))), Err(String::from("gone")));
    assert_eq!(manager.keep("b", Ok(6)), Ok(TextureId(1)));
    assert_eq!(manager.get(TextureId(1)), Some(Rc::new(6)));
    assert_eq!(manager.find(&String::from("a")), Some(TextureId(0)));
    assert_eq!(loader.calls.get(), 0);
}

#[test]
fn draw_rects_are_centred_and_scaled() {
    let t = Transform { pos: Vector2::new(320_000, 240_000), scale: Vector2::new(250, 250), angle: 0 };
    assert_eq!(draw_rect(&t, 56, 56), DrawRect { x: 313, y: 233, width: 14, height: 14 });
    let t = Transform { pos: Vector2::new(0, 0), scale: Vector2::new(1000, 1500), angle: 0 };
    assert_eq!(draw_rect(&t, 3, 3), DrawRect { x: -1, y: -2, width: 3, height: 4 });
    let t = Transform { pos: Vector2::new(10_000, 10_000), scale: Vector2::new(-1000, 0), angle: 0 };
    assert_eq!(draw_rect(&t, 8, 8), DrawRect { x: 14, y: 10, width: 0, height: 0 });
    let t = Transform { pos: Vector2::new(i32::MIN, i32::MAX), scale: Vector2::new(i32::MAX, i32::MIN), angle: 0 };
    let r = draw_rect(&t, u32::MAX, u32::MAX);
    assert_eq!(r.x, i32::MIN);
    assert_eq!(r.y, i32::MAX);
    assert_eq!(r.width, u32::MAX);
    assert_eq!(r.height, 0);
}

#[test]
fn grey_is_the_mean() {
    assert_eq!(grey(0, 0, 0), 0);
    assert_eq!(grey(255, 255, 255), 255);
    assert_eq!(grey(1, 1, 0), 0);
    assert_eq!(grey(200, 80, 50), 110);
    assert_eq!(grey(255, 0, 0), 85);
}

#[test]
fn the_cone_opens_along_the_facing() {
    let center = Vector2::new(320_500, 240_999);
    assert!(is_in_cone(center, 400, 240, 0));
    assert!(is_in_cone(center, 420, 280, 0));
    assert!(!is_in_cone(center, 420, 300, 0));
    assert!(!is_in_cone(center, 200, 240, 0));
    assert!(is_in_cone(center, 200, 240, 3_141_592));
    assert!(is_in_cone(center, 320, 400, 1_570_796));
    assert!(!is_in_cone(center, 320, 100, 1_570_796));
    assert!(is_in_cone(center, 320, 100, -1_570_796));
    assert!(is_in_cone(center, 320, 240, 0));
    assert!(is_in_cone(center, 200, 239, 3_141_592));
    assert!(!is_in_cone(center, 400, 240, 700_000));
}

#[test]
fn the_shake_decays_and_is_set_off() {
    let mut shaker = Shaker { shake_amount: 5000 };
    let quiet = HitBad(false);
    let none = ScreenShake(None);
    assert_eq!(shaker.step_with(&quiet, &none, 0, 9999), (-5, 4));
    assert_eq!(shaker.shake_amount, 4800);
    assert_eq!(shaker.step_with(&quiet, &none, 4800, 5800), (0, 1));
    assert_eq!(shaker.shake_amount, 4600);
    assert_eq!(shaker.step_with(&HitBad(true), &none, 0, 0), (-10, -10));
    assert_eq!(shaker.shake_amount, 9800);
    assert_eq!(shaker.step_with(&quiet, &ScreenShake(Some(333)), 0, 0), (-9, -9));
    assert_eq!(shaker.shake_amount, 333);

    let mut still = Shaker { shake_amount: 0 };
    assert_eq!(still.step_with(&quiet, &none, 77, 77), (0, 0));
    assert_eq!(still.shake_amount, 0);
    let mut below = Shaker { shake_amount: -40 };
    assert_eq!(below.step_with(&quiet, &none, 77, 77), (0, 0));
    assert_eq!(below.shake_amount, 0);
    let mut last = Shaker { shake_amount: 100 };
    assert_eq!(last.step_with(&quiet, &none, 0, 0), (0, 0));
    assert_eq!(last.shake_amount, -100);
}

#[test]
fn random_shakes_stay_below_the_shake() {
    for _ in 0..200 {
        let mut shaker = Shaker { shake_amount: 3000 };
        let (x, y) = shaker.step(&HitBad(false), &ScreenShake(None));
        assert!(-3 <= x && x <= 2);
        assert!(-3 <= y && y <= 2);
        assert_eq!(shaker.shake_amount, 2800);
    }
    let mut still = Shaker { shake_amount: 0 };
    assert_eq!(still.step(&HitBad(false), &ScreenShake(Some(10_000))), (0, 0));
    assert_eq!(still.shake_amount, 10_000);
}

#[test]
fn the_tally_books_points_and_lives() {
    let mut tally = Tally::new();
    assert_eq!(tally, Tally { points: 0, life: 3 });
    let mut hit = HitBad(false);
    assert!(!tally.settle(2, &mut hit));
    assert_eq!(tally, Tally { points: 2, life: 3 });
    for left in [2, 1, 0] {
        hit = HitBad(true);
        assert!(!tally.settle(0, &mut hit));
        assert_eq!(hit, HitBad(false));
        assert_eq!(tally.life, left);
    }
    hit = HitBad(true);
    assert!(tally.settle(1, &mut hit));
    assert_eq!(tally, Tally { points: 3, life: -1 });
    let mut full = Tally { points: i32::MAX, life: i32::MIN };
    hit = HitBad(true);
    assert!(full.settle(1, &mut hit));
    assert_eq!(full, Tally { points: i32::MAX, life: i32::MIN });
}

#[test]
fn the_countdown_runs_in_whole_seconds() {
    assert_eq!(countdown(0, 0), -180);
    assert_eq!(countdown(5_000_000, 6_999_999), -179);
    assert_eq!(countdown(0, 180_000_000), 0);
    assert_eq!(countdown(0, 200_500_000), 20);
    assert_eq!(countdown(1_999_999, 0), -181);
    assert_eq!(countdown(0, u64::MAX), i32::MAX);
}

#[test]
fn the_text_entity_has_a_transform_and_a_sprite() {
    let mut world = World::new();
    let e = create_text_entity(TextureId(3), &mut world);
    assert_eq!(
        world.transforms.get(e),
        Some(&Transform { pos: Vector2::new(140_000, 10_000), scale: Vector2::new(100, 100), angle: 0 })
    );
    assert_eq!(world.sprites.get(e), Some(&Sprite { texture_id: TextureId(3), depth: 0 }));
    assert!(!world.velocities.contains(e));
}

#[test]
fn the_player_has_its_bundle() {
    let mut world = World::new();
    let sprite = Sprite::new(TextureId(0));
    let e = create_player(&mut world, sprite);
    assert_eq!(world.velocities.get(e), Some(&Velocity(Vector2::zero())));
    assert_eq!(world.max_velocities.get(e), Some(&MaxVelocity(100_000)));
    assert_eq!(
        world.transforms.get(e),
        Some(&Transform { pos: Vector2::new(320_000, 240_000), scale: Vector2::new(250, 250), angle: 0 })
    );
    assert_eq!(world.bounding_circles.get(e), Some(&BoundingCircle { radius: 14_000 }));
    assert_eq!(world.sprites.get(e), Some(&sprite));
    assert!(!world.players.get(e).unwrap().get_key(Keys::Up));
    assert!(!world.ball_types.contains(e));
    assert_eq!(world.obamas.get(e), None::<&ObamaComponent>);
}

#[test]
fn the_finale_comes_in_two_steps() {
    let mut world = World::new();
    let mut finale = Finale {
        start_time: 1_000_000,
        sausage_is_spawned: false,
        nuke_is_spawned: false,
        sausage_sprite: Sprite::new(TextureId(5)),
        nuke_sprite: Sprite::new(TextureId(6)),
    };
    let spawn = finale.step(&mut world, 181_000_000, 77);
    assert_eq!((spawn.sausage, spawn.nukes), (None, None));
    assert_eq!(world.screen_shake, ScreenShake(None));
    let spawn = finale.step(&mut world, 0, 77);
    assert_eq!((spawn.sausage, spawn.nukes), (None, None));

    let spawn = finale.step(&mut world, 181_000_001, 77);
    let sausage = spawn.sausage.unwrap();
    assert_eq!(spawn.nukes, None);
    assert!(finale.sausage_is_spawned && !finale.nuke_is_spawned);
    assert_eq!(
        world.orbits.get(sausage),
        Some(&OrbitComponent { radius: 1_000_000, target_radius: 150_000, angular_velocity: 20_000, angle: 0 })
    );
    assert_eq!(world.sprites.get(sausage), Some(&Sprite::new(TextureId(5))));
    assert_eq!(world.transforms.get(sausage).unwrap().scale, Vector2::new(1500, 1500));
    assert!(!world.bounding_circles.contains(sausage));
    assert_eq!(world.screen_shake, ScreenShake(None));

    let spawn = finale.step(&mut world, 191_000_000, 77);
    assert_eq!((spawn.sausage, spawn.nukes), (None, None));

    let spawn = finale.step(&mut world, 191_000_001, 77);
    assert_eq!(spawn.sausage, None);
    let (a, b, c) = spawn.nukes.unwrap();
    assert!(a != b && b != c && a != c);
    assert_eq!(world.screen_shake, ScreenShake(Some(10_000)));
    for e in [a, b, c] {
        assert_eq!(
            world.orbits.get(e),
            Some(&OrbitComponent { radius: 250_000, target_radius: 0, angular_velocity: 20_000, angle: 77 })
        );
        assert_eq!(world.ball_types.get(e), Some(&BallType::Bad));
        assert_eq!(world.bounding_circles.get(e), Some(&BoundingCircle { radius: 14_000 }));
        assert_eq!(world.sprites.get(e), Some(&Sprite::new(TextureId(6))));
        assert_eq!(world.transforms.get(e).unwrap().pos, Vector2::new(100_000_000, 240_000));
    }
    world.screen_shake = ScreenShake(None);
    let spawn = finale.step(&mut world, 500_000_000, 78);
    assert_eq!((spawn.sausage, spawn.nukes), (None, None));
    assert_eq!(world.screen_shake, ScreenShake(Some(10_000)));
}

#[test]
fn a_late_start_brings_everything_at_once() {
    let mut world = World::new();
    world.hit_good = HitGood(true);
    world.hit_neutral = HitNeutral(true);
    let mut finale = Finale {
        start_time: 0,
        sausage_is_spawned: false,
        nuke_is_spawned: false,
        sausage_sprite: Sprite::new(TextureId(5)),
        nuke_sprite: Sprite::new(TextureId(6)),
    };
    let spawn = finale.step(&mut world, u64::MAX, -1);
    assert!(spawn.sausage.is_some() && spawn.nukes.is_some());
    assert_eq!(world.hit_good, HitGood(true));
    assert_eq!(world.hit_neutral, HitNeutral(true));
    let extra = spawn_sausage(&mut world, Sprite::new(TextureId(1)));
    let nuke = spawn_nuke(&mut world, Sprite::new(TextureId(2)), 9);
    assert!(world.orbits.contains(extra));
    assert_eq!(world.orbits.get(nuke).unwrap().angle, 9);
}

fn colour(i: usize) -> u8 {
    (i * 7 % 251) as u8
}

#[test]
fn the_cone_pass_greys_what_is_out_of_sight() {
    let pitch = 640 * 4 + 8;
    let surface_pitch = 640 * 4;
    let surface: Vec<u8> = (0..480 * surface_pitch).map(colour).collect();
    let mut buffer = vec![9u8; 480 * pitch];
    let center = Vector2::new(320_000, 240_000);
    desaturate(&mut buffer, pitch, &surface, surface_pitch, center, 0);
    for y in 0..480usize {
        for x in 0..640usize {
            let from = y * surface_pitch + x * 4;
            let to = y * pitch + x * 4;
            let (r, g, b) = (surface[from], surface[from + 1], surface[from + 2]);
            if is_in_cone(center, x as u32, y as u32, 0) {
                assert_eq!((buffer[to], buffer[to + 1], buffer[to + 2]), (r, g, b));
            } else {
                let v = grey(r, g, b);
                assert_eq!((buffer[to], buffer[to + 1], buffer[to + 2]), (v, v, v));
            }
            assert_eq!(buffer[to + 3], 9);
        }
        for pad in 640 * 4..pitch {
            assert_eq!(buffer[y * pitch + pad], 9);
        }
    }
    assert_eq!(&buffer[240 * pitch + 400 * 4..240 * pitch + 400 * 4 + 3], &surface[240 * surface_pitch + 400 * 4..240 * surface_pitch + 400 * 4 + 3]);
    let left = 240 * pitch + 100 * 4;
    assert_eq!(buffer[left], buffer[left + 1]);
    assert_eq!(buffer[left + 1], buffer[left + 2]);
}

#[test]
fn the_cone_pass_on_one_row() {
    let surface: Vec<u8> = (0..640 * 4 + 5).map(colour).collect();
    let mut buffer = vec![1u8; 640 * 4 + 10];
    let center = Vector2::new(0, 0);
    desaturate_row(&mut buffer, 10, &surface, 5, 0, center, 0);
    for i in 0..10 {
        assert_eq!(buffer[i], 1);
    }
    for x in 0..640usize {
        let from = 5 + 4 * x;
        assert_eq!(
            (buffer[10 + 4 * x], buffer[11 + 4 * x], buffer[12 + 4 * x]),
            (surface[from], surface[from + 1], surface[from + 2])
        );
        assert_eq!(buffer[13 + 4 * x], 1);
    }
}

#[test]
fn replace_swaps_one_resource_and_keeps_the_names() {
    let loader = Lengths { calls: Cell::new(0) };
    let mut manager = ResourceManager::new(&loader);
    assert_eq!(manager.replace(TextureId(0), 1), None);
    assert_eq!(manager.load("one"), Ok(TextureId(0)));
    assert_eq!(manager.load("three"), Ok(TextureId(1)));
    assert_eq!(manager.replace(TextureId(1), 99), Some(Rc::new(5)));
    assert_eq!(manager.get(TextureId(1)), Some(Rc::new(99)));
    assert_eq!(manager.get(TextureId(0)), Some(Rc::new(3)));
    assert_eq!(manager.find(&String::from("three")), Some(TextureId(1)));
    assert_eq!(manager.load("three"), Ok(TextureId(1)));
    assert_eq!(manager.replace(TextureId(2), 7), None);
    assert_eq!(manager.replace(TextureId(-1), 7), None);
    assert_eq!(manager.get(TextureId(2)), None);
    assert_eq!(manager.load("four"), Ok(TextureId(2)));
    assert_eq!(loader.calls.get(), 3);
}
