//! The systems that move the world on by one frame.

use vstd::prelude::*;
use crate::components::{MaxVelocity, RespawnComponent, Transform, Velocity};
use crate::constants::{ARENA_HEIGHT, ARENA_WIDTH};
use crate::fixed::{
    clamp_i32, lemma_toward_zero_bound, lemma_toward_zero_square, scale, scaled, toward_zero,
};
use crate::random::random_below;
use crate::storage::{copied, Entity, Storage};
use crate::trig::{direction, direction_of, lemma_direction_unit};
use crate::vector::{
    distance_squared, lemma_limited_idempotent, limited, norm_squared, vec_scaled, vec_sum,
    Vector2,
};

verus! {

/// How far something of velocity `v` gets in `frametime` microseconds.
pub open spec fn displacement(v: Vector2, frametime: int) -> Vector2 {
    vec_scaled(v, frametime, 1_000_000)
}

/// `t` after `frametime` microseconds at velocity `v`.
pub open spec fn moved(t: Transform, v: Velocity, frametime: int) -> Transform {
    Transform { pos: vec_sum(t.pos, displacement(v.0, frametime)), ..t }
}

/// The transforms after one pass of the motion system: every entity with a velocity has
/// moved, every other is where it was.
pub open spec fn motion_step(
    transforms: Map<Entity, Transform>,
    velocities: Map<Entity, Velocity>,
    frametime: int,
) -> Map<Entity, Transform> {
    Map::new(
        |e: Entity| transforms.contains_key(e),
        |e: Entity|
            if velocities.contains_key(e) {
                moved(transforms[e], velocities[e], frametime)
            } else {
                transforms[e]
            },
    )
}

/// The quotients of `v * t1` and `v * t2`, rounded toward zero, add up to the quotient of
/// `v * (t1 + t2)` or miss it by one, and neither lies further from zero than that
/// quotient or on the other side of zero.
proof fn lemma_split_quotient(v: int, t1: int, t2: int, d: int)
    requires
        0 <= t1,
        0 <= t2,
        d > 0,
    ensures
        -1 <= toward_zero(v * t1, d) + toward_zero(v * t2, d) - toward_zero(v * (t1 + t2), d)
            <= 1,
        toward_zero(v * (t1 + t2), d) >= 0 ==> 0 <= toward_zero(v * t1, d) <= toward_zero(
            v * (t1 + t2),
            d,
        ) && 0 <= toward_zero(v * t2, d) <= toward_zero(v * (t1 + t2), d),
        toward_zero(v * (t1 + t2), d) <= 0 ==> toward_zero(v * (t1 + t2), d) <= toward_zero(
            v * t1,
            d,
        ) <= 0 && toward_zero(v * (t1 + t2), d) <= toward_zero(v * t2, d) <= 0,
{
    let a1 = v * t1;
    let a2 = v * t2;
    let a = v * (t1 + t2);
    assert(a == a1 + a2) by (nonlinear_arith)
        requires
            a1 == v * t1,
            a2 == v * t2,
            a == v * (t1 + t2),
    ;
    assert(v >= 0 ==> a1 >= 0 && a2 >= 0) by (nonlinear_arith)
        requires
            a1 == v * t1,
            a2 == v * t2,
            0 <= t1,
            0 <= t2,
    ;
    assert(v <= 0 ==> a1 <= 0 && a2 <= 0) by (nonlinear_arith)
        requires
            a1 == v * t1,
            a2 == v * t2,
            0 <= t1,
            0 <= t2,
    ;
    lemma_toward_zero_bound(a1, d);
    lemma_toward_zero_bound(a2, d);
    lemma_toward_zero_bound(a, d);
    let q1 = toward_zero(a1, d);
    let q2 = toward_zero(a2, d);
    let q = toward_zero(a, d);
    assert(-1 <= q1 + q2 - q <= 1 && (q >= 0 ==> 0 <= q1 <= q && 0 <= q2 <= q) && (q <= 0 ==> q
        <= q1 <= 0 && q <= q2 <= 0)) by (nonlinear_arith)
        requires
            d > 0,
            a == a1 + a2,
            (a1 >= 0 && a2 >= 0 && a >= 0 && q1 * d <= a1 < q1 * d + d && q2 * d <= a2 < q2 * d
                + d && q * d <= a < q * d + d) || (a1 <= 0 && a2 <= 0 && a <= 0 && q1 * d - d
                < a1 <= q1 * d && q2 * d - d < a2 <= q2 * d && q * d - d < a <= q * d),
    ;
}

/// Moving for one time and then for another ends where moving once for both times
/// ends, up to rounding: each coordinate differs by at most one thousandth of a unit.
///
/// This holds where nothing saturates: for coordinates of at most a million units and
/// a velocity that covers at most a million units in the two times together.
pub proof fn lemma_motion_adds_up(t: Transform, v: Velocity, t1: int, t2: int)
    requires
        0 <= t1,
        0 <= t2,
        -1_000_000_000 <= t.pos.x <= 1_000_000_000,
        -1_000_000_000 <= t.pos.y <= 1_000_000_000,
        -1_000_000_000_000_000 <= v.0.x * (t1 + t2) <= 1_000_000_000_000_000,
        -1_000_000_000_000_000 <= v.0.y * (t1 + t2) <= 1_000_000_000_000_000,
    ensures
        -1 <= moved(moved(t, v, t1), v, t2).pos.x - moved(t, v, t1 + t2).pos.x <= 1,
        -1 <= moved(moved(t, v, t1), v, t2).pos.y - moved(t, v, t1 + t2).pos.y <= 1,
        moved(moved(t, v, t1), v, t2).scale == moved(t, v, t1 + t2).scale,
        moved(moved(t, v, t1), v, t2).angle == moved(t, v, t1 + t2).angle,
{
    lemma_motion_axis(t.pos.x as int, v.0.x as int, t1, t2);
    lemma_motion_axis(t.pos.y as int, v.0.y as int, t1, t2);
}

/// Two passes of the motion system leave every entity where one pass over both times
/// leaves it, up to rounding: an entity without a velocity exactly there, an entity with
/// a velocity within one thousandth of a unit on each axis, where nothing saturates.
pub proof fn lemma_motion_steps_add_up(
    transforms: Map<Entity, Transform>,
    velocities: Map<Entity, Velocity>,
    t1: int,
    t2: int,
    e: Entity,
)
    requires
        0 <= t1,
        0 <= t2,
        transforms.contains_key(e),
        velocities.contains_key(e) ==> {
            &&& -1_000_000_000 <= transforms[e].pos.x <= 1_000_000_000
            &&& -1_000_000_000 <= transforms[e].pos.y <= 1_000_000_000
            &&& -1_000_000_000_000_000 <= velocities[e].0.x * (t1 + t2) <= 1_000_000_000_000_000
            &&& -1_000_000_000_000_000 <= velocities[e].0.y * (t1 + t2) <= 1_000_000_000_000_000
        },
    ensures
        motion_step(motion_step(transforms, velocities, t1), velocities, t2).dom()
            == motion_step(transforms, velocities, t1 + t2).dom(),
        -1 <= motion_step(motion_step(transforms, velocities, t1), velocities, t2)[e].pos.x
            - motion_step(transforms, velocities, t1 + t2)[e].pos.x <= 1,
        -1 <= motion_step(motion_step(transforms, velocities, t1), velocities, t2)[e].pos.y
            - motion_step(transforms, velocities, t1 + t2)[e].pos.y <= 1,
        motion_step(motion_step(transforms, velocities, t1), velocities, t2)[e].scale
            == motion_step(transforms, velocities, t1 + t2)[e].scale,
        motion_step(motion_step(transforms, velocities, t1), velocities, t2)[e].angle
            == motion_step(transforms, velocities, t1 + t2)[e].angle,
        !velocities.contains_key(e) ==> motion_step(
            motion_step(transforms, velocities, t1),
            velocities,
            t2,
        )[e] == transforms[e],
{
    let once = motion_step(transforms, velocities, t1 + t2);
    let first = motion_step(transforms, velocities, t1);
    let twice = motion_step(first, velocities, t2);
    assert(twice.dom() =~= once.dom());
    if velocities.contains_key(e) {
        lemma_motion_adds_up(transforms[e], velocities[e], t1, t2);
    }
}

/// One coordinate of `lemma_motion_adds_up`.
proof fn lemma_motion_axis(p: int, v: int, t1: int, t2: int)
    requires
        0 <= t1,
        0 <= t2,
        -1_000_000_000 <= p <= 1_000_000_000,
        -1_000_000_000_000_000 <= v * (t1 + t2) <= 1_000_000_000_000_000,
    ensures
        -1 <= clamp_i32(clamp_i32(p + scaled(v, t1, 1_000_000)) + scaled(v, t2, 1_000_000))
            - clamp_i32(p + scaled(v, t1 + t2, 1_000_000)) <= 1,
{
    lemma_toward_zero_bound(v * (t1 + t2), 1_000_000);
    lemma_split_quotient(v, t1, t2, 1_000_000);
}

/// Moves every entity by its velocity times the time the last frame took.
pub struct MotionSystem {
    /// The time the last frame took, in microseconds.
    pub frametime: u32,
}

impl MotionSystem {
    pub fn run(&mut self, transforms: &mut Storage<Transform>, velocities: &Storage<Velocity>)
        ensures
            final(transforms)@ == motion_step(
                old(transforms)@,
                velocities@,
                old(self).frametime as int,
            ),
            *final(self) == *old(self),
    {
        let n = transforms.limit();
        let mut i: usize = 0;
        while i < n
            invariant
                i <= n,
                n == transforms.bound(),
                *self == *old(self),
                forall|e: Entity|
                    #[trigger] transforms@.contains_key(e) <==> old(transforms)@.contains_key(e),
                forall|e: Entity|
                    #[trigger] transforms@.contains_key(e) ==> transforms@[e] == if e.id < i
                        && velocities@.contains_key(e) {
                        moved(old(transforms)@[e], velocities@[e], self.frametime as int)
                    } else {
                        old(transforms)@[e]
                    },
            decreases n - i,
        {
            let entity = Entity { id: i };
            let ghost before = transforms@;
            let transform = copied(transforms.get(entity));
            let velocity = copied(velocities.get(entity));
            match (transform, velocity) {
                (Some(t), Some(v)) => {
                    let step = v.0.scaled(self.frametime as i64, 1_000_000);
                    transforms.insert(entity, Transform { pos: t.pos.plus(step), ..t });
                },
                _ => {},
            }
            assert forall|e: Entity| #[trigger]
                transforms@.contains_key(e) implies transforms@[e] == if e.id < i + 1
                && velocities@.contains_key(e) {
                moved(old(transforms)@[e], velocities@[e], self.frametime as int)
            } else {
                old(transforms)@[e]
            } by {
                if e.id == i {
                    assert(e == entity);
                } else {
                    assert(before.contains_key(e));
                }
            }
            i = i + 1;
        }
        proof {
            transforms.lemma_bounded();
            assert(transforms@ =~= motion_step(
                old(transforms)@,
                velocities@,
                self.frametime as int,
            ));
        }
    }
}

/// The velocities after one pass of the speed limit: every entity with a maximum is cut
/// down to it, every other keeps its velocity.
pub open spec fn limit_step(
    velocities: Map<Entity, Velocity>,
    max_velocities: Map<Entity, MaxVelocity>,
) -> Map<Entity, Velocity> {
    Map::new(
        |e: Entity| velocities.contains_key(e),
        |e: Entity|
            if max_velocities.contains_key(e) {
                Velocity(limited(velocities[e].0, max_velocities[e].0 as int))
            } else {
                velocities[e]
            },
    )
}

/// A second pass of the speed limit changes nothing.
pub proof fn lemma_limit_step_idempotent(
    velocities: Map<Entity, Velocity>,
    max_velocities: Map<Entity, MaxVelocity>,
)
    ensures
        limit_step(limit_step(velocities, max_velocities), max_velocities) == limit_step(
            velocities,
            max_velocities,
        ),
{
    let once = limit_step(velocities, max_velocities);
    let twice = limit_step(once, max_velocities);
    assert forall|e: Entity| once.contains_key(e) implies #[trigger] twice[e] == once[e] by {
        if max_velocities.contains_key(e) {
            lemma_limited_idempotent(velocities[e].0, max_velocities[e].0 as int);
        }
    }
    assert(twice =~= once);
}

/// Keeps every entity within its greatest speed.
pub struct MaxVelSystem;

impl MaxVelSystem {
    pub fn run(
        &mut self,
        velocities: &mut Storage<Velocity>,
        max_velocities: &Storage<MaxVelocity>,
    )
        ensures
            final(velocities)@ == limit_step(old(velocities)@, max_velocities@),
    {
        let n = velocities.limit();
        let mut i: usize = 0;
        while i < n
            invariant
                i <= n,
                n == velocities.bound(),
                forall|e: Entity|
                    #[trigger] velocities@.contains_key(e) <==> old(velocities)@.contains_key(e),
                forall|e: Entity|
                    #[trigger] velocities@.contains_key(e) ==> velocities@[e] == if e.id < i
                        && max_velocities@.contains_key(e) {
                        Velocity(limited(old(velocities)@[e].0, max_velocities@[e].0 as int))
                    } else {
                        old(velocities)@[e]
                    },
            decreases n - i,
        {
            let entity = Entity { id: i };
            let ghost before = velocities@;
            let velocity = copied(velocities.get(entity));
            let max_velocity = copied(max_velocities.get(entity));
            match (velocity, max_velocity) {
                (Some(v), Some(m)) => {
                    velocities.insert(entity, Velocity(v.0.limited(m.0)));
                },
                _ => {},
            }
            assert forall|e: Entity| #[trigger]
                velocities@.contains_key(e) implies velocities@[e] == if e.id < i + 1
                && max_velocities@.contains_key(e) {
                Velocity(limited(old(velocities)@[e].0, max_velocities@[e].0 as int))
            } else {
                old(velocities)@[e]
            } by {
                if e.id == i {
                    assert(e == entity);
                } else {
                    assert(before.contains_key(e));
                }
            }
            i = i + 1;
        }
        proof {
            velocities.lemma_bounded();
            assert(velocities@ =~= limit_step(old(velocities)@, max_velocities@));
        }
    }
}

/// The centre of the arena, in thousandths of a unit.
pub open spec fn arena_center() -> Vector2 {
    Vector2 { x: (ARENA_WIDTH / 2 * 1000) as i32, y: (ARENA_HEIGHT / 2 * 1000) as i32 }
}

/// The centre of the arena.
pub fn center() -> (c: Vector2)
    ensures
        c == arena_center(),
{
    Vector2 { x: (ARENA_WIDTH / 2 * 1000) as i32, y: (ARENA_HEIGHT / 2 * 1000) as i32 }
}

/// The vector of length `radius` that points along `angle`.
pub open spec fn polar(radius: int, angle: int) -> Vector2 {
    Vector2 {
        x: scaled(radius, direction(angle).cos as int, 1_000_000),
        y: scaled(radius, direction(angle).sin as int, 1_000_000),
    }
}

/// The vector of length `radius` that points along `angle`.
pub fn polar_vector(radius: i32, angle: i64) -> (v: Vector2)
    ensures
        v == polar(radius as int, angle as int),
{
    let d = direction_of(angle);
    Vector2 { x: scale(radius, d.cos as i64, 1_000_000), y: scale(radius, d.sin as i64, 1_000_000) }
}

/// A vector made by `polar` is as long as its radius, up to rounding. For every radius
/// that is not negative, no component is longer than the radius, the squared length is at
/// most the squared radius, and it misses the squared radius by at most two millionths of
/// it and four times the radius. Up to a radius of a thousand units that is at most six
/// times the radius.
pub proof fn lemma_polar_length(radius: int, angle: int)
    requires
        0 <= radius <= i32::MAX,
    ensures
        -radius <= polar(radius, angle).x <= radius,
        -radius <= polar(radius, angle).y <= radius,
        norm_squared(polar(radius, angle)) <= radius * radius,
        norm_squared(polar(radius, angle)) * 1_000_000 >= radius * radius * 999_998 - 4_000_000
            * radius,
        radius <= 1_000_000 ==> norm_squared(polar(radius, angle)) >= radius * radius - 6
            * radius,
{
    let big = 1_000_000int;
    let c = direction(angle).cos as int;
    let s = direction(angle).sin as int;
    lemma_direction_unit(angle);
    let a = radius * c;
    let b = radius * s;
    let x = toward_zero(a, big);
    let y = toward_zero(b, big);
    assert(-radius * big <= a <= radius * big) by (nonlinear_arith)
        requires
            a == radius * c,
            0 <= radius,
            -big <= c <= big,
    ;
    assert(-radius * big <= b <= radius * big) by (nonlinear_arith)
        requires
            b == radius * s,
            0 <= radius,
            -big <= s <= big,
    ;
    lemma_toward_zero_bound(a, big);
    lemma_toward_zero_bound(b, big);
    assert(-radius <= x <= radius);
    assert(-radius <= y <= radius);
    assert(polar(radius, angle).x == x);
    assert(polar(radius, angle).y == y);
    lemma_toward_zero_square(a, big);
    lemma_toward_zero_square(b, big);
    let r2 = radius * radius;
    let n = c * c + s * s;
    assert(a * a + b * b == r2 * n) by (nonlinear_arith)
        requires
            a == radius * c,
            b == radius * s,
            r2 == radius * radius,
            n == c * c + s * s,
    ;
    let total = x * x + y * y;
    let bb = big * big;
    assert(total * bb == x * x * bb + y * y * bb) by (nonlinear_arith)
        requires
            total == x * x + y * y,
    ;
    assert(r2 >= 0) by (nonlinear_arith)
        requires
            r2 == radius * radius,
    ;
    assert(r2 * n <= r2 * bb) by (nonlinear_arith)
        requires
            r2 >= 0,
            n <= bb,
    ;
    assert(total <= r2) by (nonlinear_arith)
        requires
            total * bb <= r2 * bb,
            bb > 0,
    ;
    // the lower bound
    let abs_a = if a >= 0 {
        a
    } else {
        -a
    };
    let abs_b = if b >= 0 {
        b
    } else {
        -b
    };
    assert(x * x * bb >= a * a - 2 * abs_a * big);
    assert(y * y * bb >= b * b - 2 * abs_b * big);
    assert(r2 * n >= r2 * (bb - 2 * big)) by (nonlinear_arith)
        requires
            r2 >= 0,
            n >= bb - 2 * big,
    ;
    assert(r2 * (bb - 2 * big) == (r2 * (big - 2)) * big) by (nonlinear_arith)
        requires
            bb == big * big,
    ;
    let short = total * big - (r2 * (big - 2) - 4 * big * radius);
    assert(short * big == total * bb - (r2 * (big - 2)) * big + 4 * big * radius * big)
        by (nonlinear_arith)
        requires
            short == total * big - (r2 * (big - 2) - 4 * big * radius),
            bb == big * big,
    ;
    assert(short >= 0) by (nonlinear_arith)
        requires
            short * big >= 0,
            big > 0,
    ;
    if radius <= big {
        assert(2 * r2 <= 2 * big * radius) by (nonlinear_arith)
            requires
                r2 == radius * radius,
                0 <= radius <= big,
        ;
        assert(total >= r2 - 6 * radius) by (nonlinear_arith)
            requires
                total * big >= r2 * big - 2 * r2 - 4 * big * radius,
                2 * r2 <= 2 * big * radius,
                big > 0,
        ;
    }
}

/// An entity that comes back lies on its play circle and is as fast as the speed drawn,
/// up to rounding. Where the play circle fits the plane, the entity's squared distance from
/// the centre of the arena is at most the squared radius, so it has not left the circle,
/// and misses the squared radius by at most two millionths of it and four times the
/// radius. The same holds of its squared speed and the speed drawn, and the speed drawn
/// lies between the least and the greatest speed.
pub proof fn lemma_respawn_containment(
    t: Transform,
    r: RespawnComponent,
    place: int,
    heading: int,
    speed: int,
)
    requires
        0 <= r.max_radius,
        arena_center().x + r.max_radius <= i32::MAX,
        arena_center().y + r.max_radius <= i32::MAX,
        0 <= speed <= i32::MAX,
    ensures
        distance_squared(respawn_transform(t, r, place).pos, arena_center()) <= r.max_radius
            * r.max_radius,
        distance_squared(respawn_transform(t, r, place).pos, arena_center()) * 1_000_000
            >= r.max_radius * r.max_radius * 999_998 - 4_000_000 * r.max_radius,
        !has_left(respawn_transform(t, r, place), r),
        norm_squared(respawn_velocity(heading, speed).0) <= speed * speed,
        norm_squared(respawn_velocity(heading, speed).0) * 1_000_000 >= speed * speed * 999_998
            - 4_000_000 * speed,
        allowed_speed(r, speed) && r.min_speed <= r.max_speed ==> r.min_speed <= speed
            <= r.max_speed,
{
    lemma_polar_length(r.max_radius as int, place);
    lemma_polar_length(speed, heading);
}

/// Whether an entity at `t` has left the play circle of `r`.
pub open spec fn has_left(t: Transform, r: RespawnComponent) -> bool {
    distance_squared(t.pos, arena_center()) > r.max_radius * r.max_radius
}

/// Whether `speed` is one that `r` allows: from `min_speed` to `max_speed`, and
/// `min_speed` alone where `max_speed` is not above it.
pub open spec fn allowed_speed(r: RespawnComponent, speed: int) -> bool {
    r.min_speed <= speed && (speed <= r.max_speed || speed == r.min_speed)
}

/// Where an entity comes back: on the play circle, at the angle `place`.
pub open spec fn respawn_transform(t: Transform, r: RespawnComponent, place: int) -> Transform {
    Transform { pos: vec_sum(polar(r.max_radius as int, place), arena_center()), ..t }
}

/// The velocity an entity comes back with: `speed` along `heading`.
pub open spec fn respawn_velocity(heading: int, speed: int) -> Velocity {
    Velocity(polar(speed, heading))
}

/// Puts an entity back on the play circle at the angle `place`, and sends it off along
/// `heading` at `speed`.
pub fn respawn(t: Transform, r: RespawnComponent, place: i64, heading: i64, speed: i32) -> (out: (
    Transform,
    Velocity,
))
    ensures
        out.0 == respawn_transform(t, r, place as int),
        out.1 == respawn_velocity(heading as int, speed as int),
{
    let pos = polar_vector(r.max_radius, place).plus(center());
    (Transform { pos, ..t }, Velocity(polar_vector(speed, heading)))
}

/// Whether `(new_t, new_v)` is what an entity at `t` may come back as: on the play circle
/// at some angle, with an allowed speed along some heading.
pub open spec fn is_respawn(
    t: Transform,
    r: RespawnComponent,
    place: int,
    heading: int,
    speed: int,
    new_t: Transform,
    new_v: Velocity,
) -> bool {
    &&& 0 <= place < 6_283_184
    &&& 0 <= heading < 6_283_184
    &&& allowed_speed(r, speed)
    &&& new_t == respawn_transform(t, r, place)
    &&& new_v == respawn_velocity(heading, speed)
}

/// Whether the respawn pass may turn `(t, v)` into `(new_t, new_v)`: an entity that has left
/// its play circle comes back on it, any other stays as it is.
pub open spec fn respawn_outcome(
    t: Transform,
    v: Velocity,
    r: RespawnComponent,
    new_t: Transform,
    new_v: Velocity,
) -> bool {
    if has_left(t, r) {
        exists|place: int, heading: int, speed: int|
            is_respawn(t, r, place, heading, speed, new_t, new_v)
    } else {
        new_t == t && new_v == v
    }
}

/// Whether `e` has all three of a transform, a velocity and respawn parameters.
pub open spec fn can_respawn(
    transforms: Map<Entity, Transform>,
    velocities: Map<Entity, Velocity>,
    respawns: Map<Entity, RespawnComponent>,
    e: Entity,
) -> bool {
    transforms.contains_key(e) && velocities.contains_key(e) && respawns.contains_key(e)
}

/// Whether an entity has left the play circle of `r`.
pub fn left_circle(t: &Transform, r: &RespawnComponent) -> (b: bool)
    ensures
        b == has_left(*t, *r),
{
    let m: i64 = r.max_radius as i64;
    assert(0 <= m * m <= 0x4000_0000_0000_0000) by (nonlinear_arith)
        requires
            -0x8000_0000 <= m <= 0x8000_0000,
    ;
    t.pos.distance_squared(center()) > (m * m) as u128
}

/// Draws a speed that `r` allows.
fn draw_speed(r: &RespawnComponent) -> (speed: i32)
    ensures
        allowed_speed(*r, speed as int),
{
    if r.max_speed > r.min_speed {
        let span: u64 = (r.max_speed as i64 - r.min_speed as i64 + 1) as u64;
        let extra = random_below(span);
        (r.min_speed as i64 + extra as i64) as i32
    } else {
        r.min_speed
    }
}

/// Whether a respawn pass may turn the transforms `t` and the velocities `v` into `new_t`
/// and `new_v`: no entity comes or goes, every entity with a transform, a velocity and
/// respawn parameters ends as `respawn_outcome` allows, and every other is as it was.
pub open spec fn respawn_pass(
    t: Map<Entity, Transform>,
    v: Map<Entity, Velocity>,
    r: Map<Entity, RespawnComponent>,
    new_t: Map<Entity, Transform>,
    new_v: Map<Entity, Velocity>,
) -> bool {
    &&& new_t.dom() == t.dom()
    &&& new_v.dom() == v.dom()
    &&& forall|e: Entity|
        #![trigger new_t[e]]
        #![trigger new_v[e]]
        can_respawn(t, v, r, e) ==> respawn_outcome(t[e], v[e], r[e], new_t[e], new_v[e])
    &&& forall|e: Entity|
        #![trigger new_t[e]]
        !can_respawn(t, v, r, e) && t.contains_key(e) ==> new_t[e] == t[e]
    &&& forall|e: Entity|
        #![trigger new_v[e]]
        !can_respawn(t, v, r, e) && v.contains_key(e) ==> new_v[e] == v[e]
}

/// After a respawn pass, every entity that had left its play circle lies on the circle and
/// is as fast as its parameters allow, up to rounding. Where the play circle fits the plane
/// and the least speed is not negative: the entity's squared distance from the centre of
/// the arena is at most the squared radius, so it has not left the circle again, and
/// misses the squared radius by at most two millionths of it and four times the radius;
/// and its velocity is that of a speed drawn between the least and the greatest speed, or
/// of the least speed where the greatest is below it.
pub proof fn lemma_respawn_pass_lands_on_circle(
    t: Map<Entity, Transform>,
    v: Map<Entity, Velocity>,
    r: Map<Entity, RespawnComponent>,
    new_t: Map<Entity, Transform>,
    new_v: Map<Entity, Velocity>,
    e: Entity,
)
    requires
        respawn_pass(t, v, r, new_t, new_v),
        can_respawn(t, v, r, e),
        has_left(t[e], r[e]),
        0 <= r[e].max_radius,
        arena_center().x + r[e].max_radius <= i32::MAX,
        arena_center().y + r[e].max_radius <= i32::MAX,
        0 <= r[e].min_speed,
    ensures
        distance_squared(new_t[e].pos, arena_center()) <= r[e].max_radius * r[e].max_radius,
        distance_squared(new_t[e].pos, arena_center()) * 1_000_000 >= r[e].max_radius
            * r[e].max_radius * 999_998 - 4_000_000 * r[e].max_radius,
        !has_left(new_t[e], r[e]),
        new_t[e].scale == t[e].scale,
        new_t[e].angle == t[e].angle,
        exists|speed: int|
            #![trigger allowed_speed(r[e], speed)]
            allowed_speed(r[e], speed) && norm_squared(new_v[e].0) <= speed * speed
                && norm_squared(new_v[e].0) * 1_000_000 >= speed * speed * 999_998 - 4_000_000
                * speed,
{
    assert(respawn_outcome(t[e], v[e], r[e], new_t[e], new_v[e]));
    let (place, heading, speed) = choose|place: int, heading: int, speed: int|
        is_respawn(t[e], r[e], place, heading, speed, new_t[e], new_v[e]);
    lemma_respawn_containment(t[e], r[e], place, heading, speed);
    assert(allowed_speed(r[e], speed));
}

/// Brings back the entities that have left their play circle.
pub struct RespawnSystem;

impl RespawnSystem {
    /// One pass over the entities that have a transform, a velocity and respawn
    /// parameters. Each one that has left its play circle is put on the circle at a random
    /// angle and gets a random heading and a random allowed speed.
    pub fn run(
        &mut self,
        transforms: &mut Storage<Transform>,
        velocities: &mut Storage<Velocity>,
        respawns: &Storage<RespawnComponent>,
    )
        ensures
            respawn_pass(
                old(transforms)@,
                old(velocities)@,
                respawns@,
                final(transforms)@,
                final(velocities)@,
            ),
    {
        let ghost t0 = old(transforms)@;
        let ghost v0 = old(velocities)@;
        let ghost r0 = respawns@;
        let n = transforms.limit();
        let mut i: usize = 0;
        while i < n
            invariant
                i <= n,
                n == transforms.bound(),
                t0 == old(transforms)@,
                v0 == old(velocities)@,
                r0 == respawns@,
                forall|e: Entity| #[trigger] transforms@.contains_key(e) <==> t0.contains_key(e),
                forall|e: Entity| #[trigger] velocities@.contains_key(e) <==> v0.contains_key(e),
                forall|e: Entity|
                    #![trigger transforms@[e]]
                    #![trigger velocities@[e]]
                    can_respawn(t0, v0, r0, e) ==> if e.id < i {
                        respawn_outcome(t0[e], v0[e], r0[e], transforms@[e], velocities@[e])
                    } else {
                        transforms@[e] == t0[e] && velocities@[e] == v0[e]
                    },
                forall|e: Entity|
                    #![trigger transforms@[e]]
                    !can_respawn(t0, v0, r0, e) && t0.contains_key(e) ==> transforms@[e]
                        == t0[e],
                forall|e: Entity|
                    #![trigger velocities@[e]]
                    !can_respawn(t0, v0, r0, e) && v0.contains_key(e) ==> velocities@[e]
                        == v0[e],
            decreases n - i,
        {
            let entity = Entity { id: i };
            let ghost t_before = transforms@;
            let ghost v_before = velocities@;
            let transform = copied(transforms.get(entity));
            let velocity = copied(velocities.get(entity));
            let respawn_params = copied(respawns.get(entity));
            match (transform, velocity, respawn_params) {
                (Some(t), Some(v), Some(r)) => {
                    if left_circle(&t, &r) {
                        let place = random_below(6_283_184) as i64;
                        let heading = random_below(6_283_184) as i64;
                        let speed = draw_speed(&r);
                        let (new_t, new_v) = respawn(t, r, place, heading, speed);
                        transforms.insert(entity, new_t);
                        velocities.insert(entity, new_v);
                        assert(is_respawn(
                            t,
                            r,
                            place as int,
                            heading as int,
                            speed as int,
                            new_t,
                            new_v,
                        ));
                    }
                    assert(respawn_outcome(
                        t0[entity],
                        v0[entity],
                        r0[entity],
                        transforms@[entity],
                        velocities@[entity],
                    ));
                },
                _ => {},
            }
            assert forall|e: Entity|
                #![trigger transforms@[e]]
                #![trigger velocities@[e]]
                can_respawn(t0, v0, r0, e) implies if e.id < i + 1 {
                respawn_outcome(t0[e], v0[e], r0[e], transforms@[e], velocities@[e])
            } else {
                transforms@[e] == t0[e] && velocities@[e] == v0[e]
            } by {
                if e.id == i {
                    assert(e == entity);
                } else {
                    assert(transforms@[e] == t_before[e]);
                    assert(velocities@[e] == v_before[e]);
                }
            }
            assert forall|e: Entity|
                #![trigger transforms@[e]]
                !can_respawn(t0, v0, r0, e) && t0.contains_key(e) implies transforms@[e]
                == t0[e] by {
                if e.id == i {
                    assert(e == entity);
                } else {
                    assert(transforms@[e] == t_before[e]);
                }
            }
            assert forall|e: Entity|
                #![trigger velocities@[e]]
                !can_respawn(t0, v0, r0, e) && v0.contains_key(e) implies velocities@[e]
                == v0[e] by {
                if e.id == i {
                    assert(e == entity);
                } else {
                    assert(velocities@[e] == v_before[e]);
                }
            }
            i = i + 1;
        }
        proof {
            old(transforms).lemma_bounded();
            assert(transforms@.dom() =~= t0.dom());
            assert(velocities@.dom() =~= v0.dom());
        }
    }
}

} // verus!
