//! What the game puts on stage besides balls and decorations, and the score it keeps.

use vstd::prelude::*;
use crate::components::{
    BallType, BoundingCircle, HitBad, MaxVelocity, OrbitComponent, ScreenShake, Transform,
    Velocity,
};
use crate::fixed::{clamp_i32, saturate, toward_zero};
use crate::game::{arena_center, center};
use crate::player::{Keys, PlayerComponent};
use crate::sprite::{Sprite, TextureId};
use crate::storage::Entity;
use crate::vector::Vector2;
use crate::world::{World, WorldView};

verus! {

/// The transform of the score line: near the top left corner, at a tenth of its size.
pub open spec fn text_transform() -> Transform {
    Transform { pos: Vector2 { x: 140_000, y: 10_000 }, angle: 0, scale: Vector2 { x: 100, y: 100 } }
}

/// The world once the new entity `e` has become the score line that shows `texture`.
pub open spec fn with_text(w: WorldView, e: Entity, texture: TextureId) -> WorldView {
    WorldView {
        alive: w.alive.insert(e),
        transforms: w.transforms.insert(e, text_transform()),
        sprites: w.sprites.insert(e, Sprite { texture_id: texture, depth: 0 }),
        ..w
    }
}

/// Creates the entity that shows the score line.
pub fn create_text_entity(texture: TextureId, world: &mut World) -> (e: Entity)
    ensures
        old(world)@.fresh(e),
        final(world)@ == with_text(old(world)@, e, texture),
{
    // Create text entity
    let e = world.create_entity();
    world.transforms.insert(
        e,
        Transform {
            pos: Vector2 { x: 140_000, y: 10_000 },
            angle: 0,
            scale: Vector2 { x: 100, y: 100 },
        },
    );
    world.sprites.insert(e, Sprite::new(texture));
    e
}

/// The transform the player starts with: in the middle of the arena, at a quarter of its
/// size.
pub open spec fn player_transform() -> Transform {
    Transform { pos: arena_center(), angle: 0, scale: Vector2 { x: 250, y: 250 } }
}

/// Creates the player: at rest in the middle of the arena, limited to a hundred units a
/// second, with a circle of fourteen units and no key held.
pub fn create_player(world: &mut World, sprite: Sprite) -> (e: Entity)
    ensures
        old(world)@.fresh(e),
        final(world)@.alive == old(world)@.alive.insert(e),
        final(world)@.doomed == old(world)@.doomed,
        final(world)@.velocities == old(world)@.velocities.insert(
            e,
            Velocity(Vector2 { x: 0, y: 0 }),
        ),
        final(world)@.max_velocities == old(world)@.max_velocities.insert(e, MaxVelocity(100_000)),
        final(world)@.transforms == old(world)@.transforms.insert(e, player_transform()),
        final(world)@.sprites == old(world)@.sprites.insert(e, sprite),
        final(world)@.bounding_circles == old(world)@.bounding_circles.insert(
            e,
            BoundingCircle { radius: 14_000 },
        ),
        final(world)@.players.dom() == old(world)@.players.dom().insert(e),
        forall|key: Keys| !final(world)@.players[e].pressed(key),
        forall|other: Entity|
            other != e && old(world)@.players.contains_key(other) ==> final(world)@.players[other]
                == old(world)@.players[other],
        final(world)@.obamas == old(world)@.obamas,
        final(world)@.respawns == old(world)@.respawns,
        final(world)@.ball_types == old(world)@.ball_types,
        final(world)@.orbits == old(world)@.orbits,
        final(world)@.hit_bad == old(world)@.hit_bad,
        final(world)@.hit_neutral == old(world)@.hit_neutral,
        final(world)@.hit_good == old(world)@.hit_good,
        final(world)@.screen_shake == old(world)@.screen_shake,
{
    let e = world.create_entity();
    world.velocities.insert(e, Velocity(Vector2 { x: 0, y: 0 }));
    world.max_velocities.insert(e, MaxVelocity(100_000));
    world.transforms.insert(
        e,
        Transform { pos: center(), angle: 0, scale: Vector2 { x: 250, y: 250 } },
    );
    world.sprites.insert(e, sprite);
    world.players.insert(e, PlayerComponent::new());
    world.bounding_circles.insert(e, BoundingCircle { radius: 14_000 });
    assert(world@.players.dom() =~= old(world)@.players.dom().insert(e));
    e
}

/// The points won and the lives left.
#[derive(Clone, Copy, Debug, PartialEq, Eq, Structural)]
pub struct Tally {
    pub points: i32,
    pub life: i32,
}

impl Tally {
    /// No points yet, three lives.
    pub fn new() -> (t: Tally)
        ensures
            t == (Tally { points: 0, life: 3 }),
    {
        Tally { points: 0, life: 3 }
    }

    /// Books a frame: the points it brought are added, a bad hit costs a life and the
    /// flag of the hit is taken down. Returns whether the game is lost: fewer than no lives
    /// are left.
    pub fn settle(&mut self, new_points: i32, hit_bad: &mut HitBad) -> (lost: bool)
        ensures
            final(self).points == clamp_i32(old(self).points + new_points),
            final(self).life == if old(hit_bad).0 {
                clamp_i32(old(self).life - 1)
            } else {
                old(self).life
            },
            !final(hit_bad).0,
            lost == (final(self).life < 0),
    {
        self.points = saturate(self.points as i128 + new_points as i128);
        if hit_bad.0 {
            self.life = saturate(self.life as i128 - 1);
            hit_bad.0 = false;
        }
        self.life < 0
    }
}

/// The whole seconds from `start_time` to `curr_time`, both in microseconds, less the
/// hundred and eighty seconds after which the finale begins.
pub open spec fn countdown_at(start_time: u64, curr_time: u64) -> i32 {
    clamp_i32(toward_zero(curr_time - start_time, 1_000_000) - 180)
}

/// The number that the score line shows as the countdown to the finale.
pub fn countdown(start_time: u64, curr_time: u64) -> (c: i32)
    ensures
        c == countdown_at(start_time, curr_time),
{
    saturate((curr_time as i128 - start_time as i128) / 1_000_000 - 180)
}

/// The orbit that the sausage starts on: a thousand units out, closing in on a hundred and
/// fifty.
pub open spec fn sausage_orbit() -> OrbitComponent {
    OrbitComponent { radius: 1_000_000, target_radius: 150_000, angle: 0, angular_velocity: 20_000 }
}

/// The transform that the sausage starts with: as far out as the plane goes, at one and a
/// half times its size. Its first orbit step puts it in its place.
pub open spec fn sausage_transform() -> Transform {
    Transform {
        pos: Vector2 { x: i32::MAX, y: arena_center().y },
        angle: 0,
        scale: Vector2 { x: 1500, y: 1500 },
    }
}

/// The world once the new entity `e` has become the sausage.
pub open spec fn with_sausage(w: WorldView, e: Entity, sprite: Sprite) -> WorldView {
    WorldView {
        alive: w.alive.insert(e),
        transforms: w.transforms.insert(e, sausage_transform()),
        orbits: w.orbits.insert(e, sausage_orbit()),
        sprites: w.sprites.insert(e, sprite),
        ..w
    }
}

/// The orbit that a nuke starts on: two hundred and fifty units out at `angle`, closing in
/// on the player.
pub open spec fn nuke_orbit(angle: i64) -> OrbitComponent {
    OrbitComponent { radius: 250_000, target_radius: 0, angle, angular_velocity: 20_000 }
}

/// The transform that a nuke starts with: far out, at a quarter of its size.
pub open spec fn nuke_transform() -> Transform {
    Transform {
        pos: Vector2 { x: 100_000_000, y: arena_center().y },
        angle: 0,
        scale: Vector2 { x: 250, y: 250 },
    }
}

/// The world once the new entity `e` has become a nuke: a bad ball on an orbit.
pub open spec fn with_nuke(w: WorldView, e: Entity, sprite: Sprite, angle: i64) -> WorldView {
    WorldView {
        alive: w.alive.insert(e),
        transforms: w.transforms.insert(e, nuke_transform()),
        orbits: w.orbits.insert(e, nuke_orbit(angle)),
        sprites: w.sprites.insert(e, sprite),
        bounding_circles: w.bounding_circles.insert(e, BoundingCircle { radius: 14_000 }),
        ball_types: w.ball_types.insert(e, BallType::Bad),
        ..w
    }
}

/// The world once a shake of `amount` has been requested.
pub open spec fn with_shake(w: WorldView, amount: i32) -> WorldView {
    WorldView { screen_shake: ScreenShake(Some(amount)), ..w }
}

/// Creates the sausage.
pub fn spawn_sausage(world: &mut World, sprite: Sprite) -> (e: Entity)
    ensures
        old(world)@.fresh(e),
        final(world)@ == with_sausage(old(world)@, e, sprite),
{
    let e = world.create_entity();
    world.transforms.insert(
        e,
        Transform {
            pos: Vector2 { x: i32::MAX, y: center().y },
            angle: 0,
            scale: Vector2 { x: 1500, y: 1500 },
        },
    );
    world.orbits.insert(
        e,
        OrbitComponent {
            radius: 1_000_000,
            target_radius: 150_000,
            angle: 0,
            angular_velocity: 20_000,
        },
    );
    world.sprites.insert(e, sprite);
    e
}

/// Creates a nuke on an orbit that starts at `angle`.
pub fn spawn_nuke(world: &mut World, sprite: Sprite, angle: i64) -> (e: Entity)
    ensures
        old(world)@.fresh(e),
        final(world)@ == with_nuke(old(world)@, e, sprite, angle),
{
    let e = world.create_entity();
    world.transforms.insert(
        e,
        Transform {
            pos: Vector2 { x: 100_000_000, y: center().y },
            angle: 0,
            scale: Vector2 { x: 250, y: 250 },
        },
    );
    world.orbits.insert(
        e,
        OrbitComponent { radius: 250_000, target_radius: 0, angle, angular_velocity: 20_000 },
    );
    world.sprites.insert(e, sprite);
    world.bounding_circles.insert(e, BoundingCircle { radius: 14_000 });
    world.ball_types.insert(e, BallType::Bad);
    e
}

/// What a step of the finale created.
#[derive(Clone, Copy, Debug, PartialEq, Eq)]
pub struct FinaleSpawn {
    pub sausage: Option<Entity>,
    pub nukes: Option<(Entity, Entity, Entity)>,
}

/// The finale: after three minutes the sausage comes, ten seconds later the screen starts
/// to shake and three nukes come.
pub struct Finale {
    /// When the game began, in microseconds.
    pub start_time: u64,
    pub sausage_is_spawned: bool,
    pub nuke_is_spawned: bool,
    pub sausage_sprite: Sprite,
    pub nuke_sprite: Sprite,
}

impl Finale {
    /// Whether the sausage is due at `curr_time`: more than three minutes into the game,
    /// and not there yet.
    pub open spec fn sausage_due(&self, curr_time: u64) -> bool {
        curr_time - self.start_time > 180_000_000 && !self.sausage_is_spawned
    }

    /// Whether the screen shakes at `curr_time`: more than three minutes and ten seconds
    /// into the game.
    pub open spec fn shaking(&self, curr_time: u64) -> bool {
        curr_time - self.start_time > 190_000_000
    }

    /// Whether the nukes are due at `curr_time`: the screen shakes, and they are not there
    /// yet.
    pub open spec fn nukes_due(&self, curr_time: u64) -> bool {
        self.shaking(curr_time) && !self.nuke_is_spawned
    }

    /// The world after the first part of a step at `curr_time`: with the sausage, if this
    /// step has created it, and with a shake of ten pixels requested, if the screen shakes.
    pub open spec fn after_sausage(&self, w: WorldView, curr_time: u64, spawn: FinaleSpawn) -> WorldView {
        let staged = match spawn.sausage {
            Some(e) => with_sausage(w, e, self.sausage_sprite),
            None => w,
        };
        if self.shaking(curr_time) {
            with_shake(staged, 10_000)
        } else {
            staged
        }
    }

    /// One step of the finale at `curr_time`. The nukes start at `nuke_angle`.
    pub fn step(&mut self, world: &mut World, curr_time: u64, nuke_angle: i64) -> (spawn:
        FinaleSpawn)
        ensures
            final(self).start_time == old(self).start_time,
            final(self).sausage_sprite == old(self).sausage_sprite,
            final(self).nuke_sprite == old(self).nuke_sprite,
            final(self).sausage_is_spawned == (old(self).sausage_is_spawned || old(
                self,
            ).sausage_due(curr_time)),
            final(self).nuke_is_spawned == (old(self).nuke_is_spawned || old(self).nukes_due(
                curr_time,
            )),
            spawn.sausage is Some <==> old(self).sausage_due(curr_time),
            spawn.nukes is Some <==> old(self).nukes_due(curr_time),
            spawn.sausage matches Some(e) ==> old(world)@.fresh(e),
            match spawn.nukes {
                Some((a, b, c)) => {
                    let w0 = old(self).after_sausage(old(world)@, curr_time, spawn);
                    let w1 = with_nuke(w0, a, old(self).nuke_sprite, nuke_angle);
                    let w2 = with_nuke(w1, b, old(self).nuke_sprite, nuke_angle);
                    &&& w0.fresh(a)
                    &&& w1.fresh(b)
                    &&& w2.fresh(c)
                    &&& final(world)@ == with_nuke(w2, c, old(self).nuke_sprite, nuke_angle)
                },
                None => final(world)@ == old(self).after_sausage(old(world)@, curr_time, spawn),
            },
    {
        let elapsed: i128 = curr_time as i128 - self.start_time as i128;
        let mut spawn = FinaleSpawn { sausage: None, nukes: None };
        if elapsed > 180_000_000 && !self.sausage_is_spawned {
            self.sausage_is_spawned = true;
            spawn.sausage = Some(spawn_sausage(world, self.sausage_sprite));
        }
        if elapsed > 190_000_000 {
            world.screen_shake = ScreenShake(Some(10_000));
            if !self.nuke_is_spawned {
                self.nuke_is_spawned = true;
                let a = spawn_nuke(world, self.nuke_sprite, nuke_angle);
                let b = spawn_nuke(world, self.nuke_sprite, nuke_angle);
                let c = spawn_nuke(world, self.nuke_sprite, nuke_angle);
                spawn.nukes = Some((a, b, c));
            }
        }
        spawn
    }
}

} // verus!
