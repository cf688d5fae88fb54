//! One frame of the simulation: the systems in their fixed order, and then the deferred
//! deletions.
//!
//! The order is: census, motion, census again, input, collision, orbits, speed limit,
//! respawn, maintain. Collision so sees where motion and input have left the entities, and
//! respawn sees where collision has sent them.

use vstd::prelude::*;
use crate::collision::{collision_step, good_hits, points_for, strikes, CollisionSystem};
use crate::components::{BallType, Transform, Velocity};
use crate::constants::POPULATION_FLOOR;
use crate::game::{
    limit_step, motion_step, respawn_pass, MaxVelSystem, MotionSystem, RespawnSystem,
};
use crate::input::{
    input_transforms, input_velocities, pressed_after, scan, InputEvent, InputSystem, Scan,
};
use crate::orbit::{
    is_last_orbiter, no_orbiter, orbit_advanced, orbit_step, placement_step, OrbitSystem,
};
use crate::player::Keys;
use crate::population::{population, strays, ObamaSystem};
use crate::storage::Entity;
use crate::world::{World, WorldView};

verus! {

/// The systems that a frame runs.
pub struct Systems {
    pub motion: MotionSystem,
    pub obama: ObamaSystem,
    pub input: InputSystem,
    pub collision: CollisionSystem,
    pub orbit: OrbitSystem,
    pub max_vel: MaxVelSystem,
    pub respawn: RespawnSystem,
}

/// The transforms of a frame after motion.
pub open spec fn after_motion(w: WorldView, frametime: int) -> Map<Entity, Transform> {
    motion_step(w.transforms, w.velocities, frametime)
}

/// The entities that a frame deletes: those queued before it, and the decorations that
/// were far outside the arena before or after motion.
pub open spec fn frame_doomed(w: WorldView, frametime: int) -> Set<Entity> {
    w.doomed.union(strays(w.alive, w.obamas, w.transforms)).union(
        strays(w.alive, w.obamas, after_motion(w, frametime)),
    )
}

/// The transforms of a frame after input.
pub open spec fn after_input(w: WorldView, frametime: int, s: Scan) -> Map<Entity, Transform> {
    input_transforms(w.players, w.velocities, after_motion(w, frametime), s)
}

/// The velocities of a frame after input.
pub open spec fn velocities_after_input(w: WorldView, frametime: int, s: Scan) -> Map<
    Entity,
    Velocity,
> {
    input_velocities(w.players, w.velocities, after_motion(w, frametime), s)
}

/// The transforms of a frame after collision with the player `player`.
pub open spec fn after_collision(w: WorldView, frametime: int, s: Scan, player: Entity) -> Map<
    Entity,
    Transform,
> {
    collision_step(after_input(w, frametime, s), w.bounding_circles, w.ball_types, player)
}

/// The transforms of a frame after the orbits have turned round the player `center`.
pub open spec fn after_orbit(
    w: WorldView,
    frametime: int,
    s: Scan,
    player: Entity,
    center: Entity,
) -> Map<Entity, Transform> {
    placement_step(
        after_collision(w, frametime, s, player),
        w.orbits,
        after_collision(w, frametime, s, player)[center].pos,
    )
}

/// The velocities of a frame after the speed limit.
pub open spec fn after_limit(w: WorldView, frametime: int, s: Scan) -> Map<Entity, Velocity> {
    limit_step(velocities_after_input(w, frametime, s), w.max_velocities)
}

/// Runs the systems in their order on `world`, with the events of the frame, and then
/// carries out the deletions. Both players, the one of the collision system and the one of
/// the orbit system, need a transform, and the first a circle.
///
/// What each system does is what its own pass does, on what the systems before it have
/// left. The two census passes count the same decorations, so `too_few_obamas` is as the
/// first pass would leave it.
pub fn run_systems(systems: &mut Systems, world: &mut World, events: &Vec<InputEvent>)
    requires
        old(world)@.transforms.contains_key(old(systems).collision.player),
        old(world)@.bounding_circles.contains_key(old(systems).collision.player),
        old(world)@.transforms.contains_key(old(systems).orbit.player),
    ensures
        final(systems).motion.frametime == old(systems).motion.frametime,
        final(systems).collision.player == old(systems).collision.player,
        final(systems).orbit.player == old(systems).orbit.player,
        population(old(world)@.alive, old(world)@.obamas, old(world)@.transforms).finite(),
        final(systems).obama.too_few_obamas == (population(
            old(world)@.alive,
            old(world)@.obamas,
            old(world)@.transforms,
        ).len() < POPULATION_FLOOR),
        final(systems).input.mouse_pos == scan(events@, old(systems).input.mouse_pos).mouse,
        final(systems).input.should_exit == (old(systems).input.should_exit || scan(
            events@,
            old(systems).input.mouse_pos,
        ).exit),
        ({
            let w = old(world)@;
            let out = final(world)@;
            let ft = old(systems).motion.frametime as int;
            let s = scan(events@, old(systems).input.mouse_pos);
            let player = old(systems).collision.player;
            let center = old(systems).orbit.player;
            let seen = after_input(w, ft, s);
            let struck = after_collision(w, ft, s, player);
            let doomed = frame_doomed(w, ft);
            let nuke_angle = final(systems).orbit.nuke_angle;
            &&& out.hit_bad.0 <==> exists|e: Entity|
                strikes(seen, w.bounding_circles, w.ball_types, player, e, BallType::Bad)
            &&& out.hit_neutral.0 <==> exists|e: Entity|
                strikes(seen, w.bounding_circles, w.ball_types, player, e, BallType::Neutral)
            &&& out.hit_good.0 <==> exists|e: Entity|
                strikes(seen, w.bounding_circles, w.ball_types, player, e, BallType::Good)
            &&& good_hits(seen, w.bounding_circles, w.ball_types, player).finite()
            &&& final(systems).collision.new_points == points_for(
                good_hits(seen, w.bounding_circles, w.ball_types, player).len(),
            )
            &&& no_orbiter(struck, w.orbits) ==> nuke_angle == old(systems).orbit.nuke_angle
            &&& forall|e: Entity|
                is_last_orbiter(struck, w.orbits, e) ==> nuke_angle == orbit_advanced(
                    #[trigger] w.orbits[e],
                ).angle
            &&& out.screen_shake == w.screen_shake
            &&& out.alive == w.alive.difference(doomed)
            &&& out.doomed == Set::<Entity>::empty()
            &&& exists|t: Map<Entity, Transform>, v: Map<Entity, Velocity>| #[trigger]
                respawn_pass(
                    after_orbit(w, ft, s, player, center),
                    after_limit(w, ft, s),
                    w.respawns,
                    t,
                    v,
                ) && out.transforms == t.remove_keys(doomed) && out.velocities == v.remove_keys(
                    doomed,
                )
            &&& out.orbits == orbit_step(w.orbits, struck).remove_keys(doomed)
            &&& out.max_velocities == w.max_velocities.remove_keys(doomed)
            &&& out.sprites == w.sprites.remove_keys(doomed)
            &&& out.bounding_circles == w.bounding_circles.remove_keys(doomed)
            &&& out.obamas == w.obamas.remove_keys(doomed)
            &&& out.respawns == w.respawns.remove_keys(doomed)
            &&& out.ball_types == w.ball_types.remove_keys(doomed)
            &&& out.players.dom() == w.players.dom().difference(doomed)
            &&& forall|e: Entity, key: Keys|
                out.players.contains_key(e) ==> #[trigger] out.players[e].pressed(key)
                    == pressed_after(w.players, w.velocities, after_motion(w, ft), s, e, key)
        }),
{
    let ghost w = world@;
    let ghost ft = systems.motion.frametime as int;
    let ghost s = scan(events@, systems.input.mouse_pos);
    let ghost player = systems.collision.player;
    let ghost center = systems.orbit.player;

    systems.obama.run(&mut world.entities, &world.obamas, &world.transforms);
    systems.motion.run(&mut world.transforms, &world.velocities);
    assert(world.transforms@ == after_motion(w, ft));
    systems.obama.run(&mut world.entities, &world.obamas, &world.transforms);
    proof {
        assert(population(w.alive, w.obamas, after_motion(w, ft)) =~= population(
            w.alive,
            w.obamas,
            w.transforms,
        ));
        assert(world.entities.doomed() =~= frame_doomed(w, ft));
    }
    systems.input.run(events, &mut world.players, &mut world.velocities, &mut world.transforms);
    assert(world.transforms@ == after_input(w, ft, s));
    assert(world.velocities@ == velocities_after_input(w, ft, s));
    let ghost players_after_input = world.players@;
    systems.collision.run(
        &mut world.transforms,
        &world.bounding_circles,
        &world.ball_types,
        &mut world.hit_bad,
        &mut world.hit_neutral,
        &mut world.hit_good,
    );
    assert(world.transforms@ == after_collision(w, ft, s, player));
    systems.orbit.run(&mut world.transforms, &mut world.orbits);
    assert(world.transforms@ == after_orbit(w, ft, s, player, center));
    systems.max_vel.run(&mut world.velocities, &world.max_velocities);
    assert(world.velocities@ == after_limit(w, ft, s));
    systems.respawn.run(&mut world.transforms, &mut world.velocities, &world.respawns);
    let ghost t = world.transforms@;
    let ghost v = world.velocities@;
    world.maintain();
    proof {
        let doomed = frame_doomed(w, ft);
        assert(respawn_pass(
            after_orbit(w, ft, s, player, center),
            after_limit(w, ft, s),
            w.respawns,
            t,
            v,
        ) && world@.transforms == t.remove_keys(doomed) && world@.velocities == v.remove_keys(
            doomed,
        ));
        assert(world@.players.dom() =~= w.players.dom().difference(doomed));
        assert forall|e: Entity, key: Keys| world@.players.contains_key(e) implies #[trigger] world@.players[e].pressed(
            key,
        ) == pressed_after(w.players, w.velocities, after_motion(w, ft), s, e, key) by {
            assert(world@.players[e] == players_after_input[e]);
        }
    }
}

} // verus!
