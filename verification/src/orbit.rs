//! Entities that circle the player on a shrinking orbit.

use vstd::prelude::*;
use crate::components::{OrbitComponent, Transform};
use crate::fixed::{clamp_i32, clamp_i64, saturate, saturate_i64, toward_zero};
use crate::game::{polar, polar_vector};
use crate::storage::{copied, Entity, Storage};
use crate::vector::{vec_sum, Vector2};

verus! {

/// What an orbit loses of its radius in one step: three thousandths of its distance from
/// the target radius, rounded toward zero.
pub open spec fn orbit_decay(o: OrbitComponent) -> int {
    toward_zero((o.radius - o.target_radius) * 3, 1000)
}

/// The orbit after one step: the angle has gone on by the angular velocity and the radius
/// has come closer to its target.
pub open spec fn orbit_advanced(o: OrbitComponent) -> OrbitComponent {
    OrbitComponent {
        angle: clamp_i64(o.angle + o.angular_velocity),
        radius: clamp_i32(o.radius - orbit_decay(o)),
        ..o
    }
}

/// Where an entity on the orbit `o` is after one step round a centre at `center`: at the
/// new angle, at the radius the orbit had before the step, facing a quarter turn behind.
pub open spec fn orbit_placed(t: Transform, o: OrbitComponent, center: Vector2) -> Transform {
    Transform {
        pos: vec_sum(center, polar(o.radius as int, orbit_advanced(o).angle as int)),
        angle: clamp_i64(orbit_advanced(o).angle - 1_570_796),
        ..t
    }
}

/// An orbit above its target radius comes closer to it in every step and never reaches
/// it; once it is less than a third of a unit away it stays where it is.
pub proof fn lemma_orbit_decays(o: OrbitComponent)
    requires
        o.radius > o.target_radius,
    ensures
        o.target_radius < orbit_advanced(o).radius <= o.radius,
        o.radius - o.target_radius >= 334 ==> orbit_advanced(o).radius < o.radius,
        orbit_advanced(o).target_radius == o.target_radius,
{
    let diff = o.radius - o.target_radius;
    assert(0 <= (diff * 3) / 1000 <= diff);
    assert(diff >= 334 ==> (diff * 3) / 1000 >= 1);
    assert(diff - (diff * 3) / 1000 > 0);
}

/// An orbit below its target radius comes closer to it from below and never passes it.
pub proof fn lemma_orbit_grows(o: OrbitComponent)
    requires
        o.radius < o.target_radius,
    ensures
        o.radius <= orbit_advanced(o).radius < o.target_radius,
{
    let diff = o.target_radius - o.radius;
    assert(0 <= (diff * 3) / 1000 <= diff);
    assert(diff - (diff * 3) / 1000 > 0);
}

/// An orbit at its target radius keeps it.
pub proof fn lemma_orbit_rests(o: OrbitComponent)
    requires
        o.radius == o.target_radius,
    ensures
        orbit_advanced(o).radius == o.radius,
{
}

/// One step of an orbit.
pub fn advance(o: OrbitComponent) -> (r: OrbitComponent)
    ensures
        r == orbit_advanced(o),
{
    let diff: i64 = o.radius as i64 - o.target_radius as i64;
    let decay: i64 = diff * 3 / 1000;
    OrbitComponent {
        angle: saturate_i64(o.angle as i128 + o.angular_velocity as i128),
        radius: saturate(o.radius as i128 - decay as i128),
        ..o
    }
}

/// The orbits after one pass: every orbit whose entity has a transform has gone on by a
/// step, every other is as it was.
pub open spec fn orbit_step(
    orbits: Map<Entity, OrbitComponent>,
    transforms: Map<Entity, Transform>,
) -> Map<Entity, OrbitComponent> {
    Map::new(
        |e: Entity| orbits.contains_key(e),
        |e: Entity|
            if transforms.contains_key(e) {
                orbit_advanced(orbits[e])
            } else {
                orbits[e]
            },
    )
}

/// The transforms after one pass: every entity with an orbit has been placed on it, every
/// other is where it was.
pub open spec fn placement_step(
    transforms: Map<Entity, Transform>,
    orbits: Map<Entity, OrbitComponent>,
    center: Vector2,
) -> Map<Entity, Transform> {
    Map::new(
        |e: Entity| transforms.contains_key(e),
        |e: Entity|
            if orbits.contains_key(e) {
                orbit_placed(transforms[e], orbits[e], center)
            } else {
                transforms[e]
            },
    )
}

/// Whether `e` is the orbiting entity with the greatest id.
pub open spec fn is_last_orbiter(
    transforms: Map<Entity, Transform>,
    orbits: Map<Entity, OrbitComponent>,
    e: Entity,
) -> bool {
    &&& transforms.contains_key(e)
    &&& orbits.contains_key(e)
    &&& forall|other: Entity|
        transforms.contains_key(other) && #[trigger] orbits.contains_key(other) ==> other.id
            <= e.id
}

/// Whether no entity has both a transform and an orbit.
pub open spec fn no_orbiter(
    transforms: Map<Entity, Transform>,
    orbits: Map<Entity, OrbitComponent>,
) -> bool {
    forall|e: Entity| !(transforms.contains_key(e) && #[trigger] orbits.contains_key(e))
}

/// Moves the orbiting entities round the player.
pub struct OrbitSystem {
    /// The player.
    pub player: Entity,
    /// The angle of the orbiting entity that the last pass moved last.
    pub nuke_angle: i64,
}

impl OrbitSystem {
    /// One pass. The player needs a transform.
    ///
    /// The orbits turn round where the player was when the pass began. `nuke_angle`
    /// becomes the new angle of the orbiting entity with the greatest id, and stays as it
    /// is where nothing orbits.
    pub fn run(
        &mut self,
        transforms: &mut Storage<Transform>,
        orbiters: &mut Storage<OrbitComponent>,
    )
        requires
            old(transforms)@.contains_key(old(self).player),
        ensures
            final(self).player == old(self).player,
            final(orbiters)@ == orbit_step(old(orbiters)@, old(transforms)@),
            final(transforms)@ == placement_step(
                old(transforms)@,
                old(orbiters)@,
                old(transforms)@[old(self).player].pos,
            ),
            no_orbiter(old(transforms)@, old(orbiters)@) ==> final(self).nuke_angle == old(
                self,
            ).nuke_angle,
            forall|e: Entity|
                is_last_orbiter(old(transforms)@, old(orbiters)@, e) ==> final(self).nuke_angle
                    == orbit_advanced(#[trigger] old(orbiters)@[e]).angle,
    {
        let player = self.player;
        let player_pos = copied(transforms.get(player)).unwrap().pos;
        let ghost t0 = old(transforms)@;
        let ghost o0 = old(orbiters)@;
        let n = orbiters.limit();
        let mut i: usize = 0;
        while i < n
            invariant
                i <= n,
                n == orbiters.bound(),
                t0 == old(transforms)@,
                o0 == old(orbiters)@,
                self.player == old(self).player,
                forall|e: Entity| #[trigger] transforms@.contains_key(e) <==> t0.contains_key(e),
                forall|e: Entity| #[trigger] orbiters@.contains_key(e) <==> o0.contains_key(e),
                forall|e: Entity|
                    #[trigger] orbiters@.contains_key(e) ==> orbiters@[e] == if e.id < i
                        && t0.contains_key(e) {
                        orbit_advanced(o0[e])
                    } else {
                        o0[e]
                    },
                forall|e: Entity|
                    #[trigger] transforms@.contains_key(e) ==> transforms@[e] == if e.id < i
                        && o0.contains_key(e) {
                        orbit_placed(t0[e], o0[e], player_pos)
                    } else {
                        t0[e]
                    },
                (forall|e: Entity|
                    !(e.id < i && t0.contains_key(e) && #[trigger] o0.contains_key(e)))
                    ==> self.nuke_angle == old(self).nuke_angle,
                forall|e: Entity|
                    e.id < i && t0.contains_key(e) && #[trigger] o0.contains_key(e) && (forall|
                        other: Entity,
                    |
                        other.id < i && t0.contains_key(other) && #[trigger] o0.contains_key(
                            other,
                        ) ==> other.id <= e.id) ==> self.nuke_angle == orbit_advanced(
                        o0[e],
                    ).angle,
            decreases n - i,
        {
            let entity = Entity { id: i };
            let ghost t_before = transforms@;
            let ghost o_before = orbiters@;
            let ghost angle_before = self.nuke_angle;
            let orbit = copied(orbiters.get(entity));
            let transform = copied(transforms.get(entity));
            match (orbit, transform) {
                (Some(o), Some(t)) => {
                    let next = advance(o);
                    let pos = player_pos.plus(polar_vector(o.radius, next.angle));
                    orbiters.insert(entity, next);
                    transforms.insert(
                        entity,
                        Transform {
                            pos,
                            angle: saturate_i64(next.angle as i128 - 1_570_796),
                            ..t
                        },
                    );
                    self.nuke_angle = next.angle;
                },
                _ => {},
            }
            assert forall|e: Entity| #[trigger] orbiters@.contains_key(e) implies orbiters@[e]
                == if e.id < i + 1 && t0.contains_key(e) {
                orbit_advanced(o0[e])
            } else {
                o0[e]
            } by {
                if e.id == i {
                    assert(e == entity);
                } else {
                    assert(o_before.contains_key(e));
                }
            }
            assert forall|e: Entity| #[trigger] transforms@.contains_key(e) implies transforms@[e]
                == if e.id < i + 1 && o0.contains_key(e) {
                orbit_placed(t0[e], o0[e], player_pos)
            } else {
                t0[e]
            } by {
                if e.id == i {
                    assert(e == entity);
                } else {
                    assert(t_before.contains_key(e));
                }
            }
            assert forall|e: Entity|
                e.id < i + 1 && t0.contains_key(e) && #[trigger] o0.contains_key(e) && (forall|
                    other: Entity,
                |
                    other.id < i + 1 && t0.contains_key(other) && #[trigger] o0.contains_key(
                        other,
                    ) ==> other.id <= e.id) implies self.nuke_angle == orbit_advanced(
                o0[e],
            ).angle by {
                if t0.contains_key(entity) && o0.contains_key(entity) {
                    assert(entity.id <= e.id);
                    assert(e == entity);
                } else {
                    if e.id == i {
                        assert(e == entity);
                    }
                    assert(e.id < i);
                }
            }
            proof {
                if (forall|e: Entity|
                    !(e.id < i + 1 && t0.contains_key(e) && #[trigger] o0.contains_key(e))) {
                    assert(!(t0.contains_key(entity) && o0.contains_key(entity)));
                    assert forall|e: Entity|
                        !(e.id < i && t0.contains_key(e) && #[trigger] o0.contains_key(e)) by {
                        assert(e.id < i ==> e.id < i + 1);
                    }
                }
            }
            i = i + 1;
        }
        proof {
            old(orbiters).lemma_bounded();
            assert(orbiters@ =~= orbit_step(o0, t0));
            assert(transforms@ =~= placement_step(t0, o0, player_pos));
            assert forall|e: Entity| is_last_orbiter(t0, o0, e) implies self.nuke_angle
                == orbit_advanced(#[trigger] o0[e]).angle by {
                assert(o0.contains_key(e));
                assert(e.id < n);
            }
        }
    }
}

} // verus!
