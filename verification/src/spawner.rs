//! The spawner of balls, which lets one ball in whenever enough time has gone by.

use vstd::prelude::*;
use crate::components::{BallType, BoundingCircle, RespawnComponent, Transform, Velocity};
use crate::random::random_below;
use crate::sprite::Sprite;
use crate::storage::Entity;
use crate::vector::Vector2;
use crate::world::{World, WorldView};

verus! {

/// `time::precise_time_ns`: the reading of a clock in nanoseconds, counted from a moment
/// that is not specified.
///
/// Nothing is believed of the number that comes back.
#[verifier::external_body]
pub(crate) fn clock_ns() -> (ns: u64) {
    time::precise_time_ns()
}

/// The transform a ball starts with: off the arena's lower right corner, at a quarter of
/// its size.
pub open spec fn ball_transform() -> Transform {
    Transform {
        pos: Vector2 { x: 600_000, y: 600_000 },
        angle: 0,
        scale: Vector2 { x: 250, y: 250 },
    }
}

/// How a ball comes back: on a circle of four hundred units, at seventy to a hundred and
/// twenty units a second.
pub open spec fn ball_respawn() -> RespawnComponent {
    RespawnComponent { max_radius: 400_000, max_speed: 120_000, min_speed: 70_000 }
}

/// The world once the new entity `e` has become a ball of the kind `kind` that shows
/// `sprite`.
pub open spec fn with_ball(w: WorldView, e: Entity, kind: BallType, sprite: Sprite) -> WorldView {
    WorldView {
        alive: w.alive.insert(e),
        transforms: w.transforms.insert(e, ball_transform()),
        velocities: w.velocities.insert(e, Velocity(Vector2 { x: 0, y: 0 })),
        sprites: w.sprites.insert(e, sprite),
        respawns: w.respawns.insert(e, ball_respawn()),
        bounding_circles: w.bounding_circles.insert(e, BoundingCircle { radius: 14_000 }),
        ball_types: w.ball_types.insert(e, kind),
        ..w
    }
}

/// Creates a ball of the kind `kind` that shows `sprite`. It rests outside its play
/// circle, so the next respawn pass brings it in.
pub fn spawn_ball_of(world: &mut World, kind: BallType, sprite: Sprite) -> (e: Entity)
    ensures
        old(world)@.fresh(e),
        final(world)@ == with_ball(old(world)@, e, kind, sprite),
{
    let respawn_comp = RespawnComponent {
        max_radius: 400_000,
        max_speed: 120_000,
        min_speed: 70_000,
    };
    let transform = Transform {
        pos: Vector2 { x: 600_000, y: 600_000 },
        angle: 0,
        scale: Vector2 { x: 250, y: 250 },
    };
    let bound = BoundingCircle { radius: 14_000 };
    let e = world.create_entity();
    world.transforms.insert(e, transform);
    world.velocities.insert(e, Velocity(Vector2 { x: 0, y: 0 }));
    world.sprites.insert(e, sprite);
    world.respawns.insert(e, respawn_comp);
    world.bounding_circles.insert(e, bound);
    world.ball_types.insert(e, kind);
    e
}

/// Whether `after` is `before` with the new entity `e` as a ball of one of the kinds in
/// `types`, with the sprite listed for that kind.
pub open spec fn ball_from_list(
    types: Seq<(BallType, Sprite)>,
    before: WorldView,
    after: WorldView,
    e: Entity,
) -> bool {
    exists|index: int|
        0 <= index < types.len() && after == #[trigger] with_ball(
            before,
            e,
            types[index].0,
            types[index].1,
        )
}

/// Lets a ball in once every `spawn_time` microseconds.
pub struct BallSpawner {
    /// The time between two balls, in microseconds.
    pub spawn_time: u64,
    /// When the last ball came in, in microseconds.
    pub last_spawn: u64,
    /// The kinds of ball to pick from, each with its sprite.
    pub types: Vec<(BallType, Sprite)>,
}

impl BallSpawner {
    /// Whether a ball is due at `curr_time`: more than `spawn_time` has gone by since the
    /// last one.
    pub open spec fn due(&self, curr_time: u64) -> bool {
        curr_time > self.last_spawn + self.spawn_time
    }

    /// Whether `after` is what `spawn_ball` may make of `before`, and `r` what it may
    /// return: one new ball of a kind from the list, or nothing new where the list is
    /// empty.
    pub open spec fn spawned(&self, before: WorldView, after: WorldView, r: Option<Entity>) -> bool {
        match r {
            Some(e) => before.fresh(e) && ball_from_list(self.types@, before, after, e),
            None => self.types@.len() == 0 && after == before,
        }
    }

    /// A spawner that lets a ball in every three seconds and has let none in yet.
    pub fn new(types: Vec<(BallType, Sprite)>) -> (s: BallSpawner)
        ensures
            s.spawn_time == 3_000_000,
            s.last_spawn == 0,
            s.types == types,
    {
        BallSpawner { spawn_time: 3_000_000, last_spawn: 0, types }
    }

    /// Lets a ball in if one is due by the clock.
    ///
    /// Whatever the clock says, the spawner and the world end as `do_spawn_at` leaves
    /// them for some time.
    pub fn do_spawn(&mut self, world: &mut World) -> (r: Option<Entity>)
        ensures
            final(self).spawn_time == old(self).spawn_time,
            final(self).types == old(self).types,
                exists|curr_time: u64| #[trigger]
                old(self).due(curr_time) && final(self).last_spawn == curr_time && old(
                    self,
                ).spawned(old(world)@, final(world)@, r) || !old(self).due(curr_time) && r is None
                    && final(self).last_spawn == old(self).last_spawn && final(world)@ == old(
                    world,
                )@,
    {
        let curr_time = clock_ns() / 1000;
        let r = self.do_spawn_at(world, curr_time);
        assert(old(self).due(curr_time) && self.last_spawn == curr_time && old(self).spawned(
            old(world)@,
            world@,
            r,
        ) || !old(self).due(curr_time) && r is None && self.last_spawn == old(self).last_spawn
            && world@ == old(world)@);
        r
    }

    /// Lets a ball in if one is due at `curr_time`, and then takes `curr_time` as the time
    /// of the last ball. With an empty list no ball comes, but the time is taken all the
    /// same.
    pub fn do_spawn_at(&mut self, world: &mut World, curr_time: u64) -> (r: Option<Entity>)
        ensures
            final(self).spawn_time == old(self).spawn_time,
            final(self).types == old(self).types,
                old(self).due(curr_time) ==> final(self).last_spawn == curr_time && old(self).spawned(
                old(world)@,
                final(world)@,
                r,
            ),
            !old(self).due(curr_time) ==> r is None && final(self).last_spawn == old(
                self,
            ).last_spawn && final(world)@ == old(world)@,
    {
        if curr_time as u128 > self.last_spawn as u128 + self.spawn_time as u128 {
            let r = self.spawn_ball(world);
            self.last_spawn = curr_time;
            r
        } else {
            None
        }
    }

    /// Creates a ball of a kind picked at random from the list; none where the list is
    /// empty.
    pub fn spawn_ball(&self, world: &mut World) -> (r: Option<Entity>)
        ensures
            self.spawned(old(world)@, final(world)@, r),
        {
        if self.types.len() == 0 {
            return None;
        }
        let index = random_below(self.types.len() as u64) as usize;
        let (ball_type, ball_sprite) = self.types[index];
        let e = spawn_ball_of(world, ball_type, ball_sprite);
        assert(world@ == with_ball(
            old(world)@,
            e,
            self.types@[index as int].0,
            self.types@[index as int].1,
        ));
        Some(e)
    }
}

} // verus!
