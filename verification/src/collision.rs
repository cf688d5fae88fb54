//! Collisions between the player and the balls.

use vstd::prelude::*;
use crate::components::{BallType, BoundingCircle, HitBad, HitGood, HitNeutral, Transform};
use crate::constants::OFF_STAGE;
use crate::storage::{copied, Entity, Storage};
use crate::vector::{distance_squared, Vector2};

verus! {

/// Two circles collide where their centres are closer than the sum of their radii. Circles
/// that just touch do not collide.
pub open spec fn collides(
    tr1: Transform,
    bb1: BoundingCircle,
    tr2: Transform,
    bb2: BoundingCircle,
) -> bool {
    distance_squared(tr1.pos, tr2.pos) < (bb1.radius + bb2.radius) * (bb1.radius + bb2.radius)
}

/// Which of two circles is named first makes no difference to whether they collide.
pub proof fn lemma_collision_symmetric(
    tr1: Transform,
    bb1: BoundingCircle,
    tr2: Transform,
    bb2: BoundingCircle,
)
    ensures
        collides(tr1, bb1, tr2, bb2) == collides(tr2, bb2, tr1, bb1),
{
    let dx = tr1.pos.x - tr2.pos.x;
    let dy = tr1.pos.y - tr2.pos.y;
    assert(dx * dx == (-dx) * (-dx)) by (nonlinear_arith);
    assert(dy * dy == (-dy) * (-dy)) by (nonlinear_arith);
}

/// Circles of positive radius with the same centre collide.
pub proof fn lemma_same_centre_collides(
    tr1: Transform,
    bb1: BoundingCircle,
    tr2: Transform,
    bb2: BoundingCircle,
)
    requires
        tr1.pos == tr2.pos,
        bb1.radius + bb2.radius != 0,
    ensures
        collides(tr1, bb1, tr2, bb2),
{
    let r = bb1.radius + bb2.radius;
    assert(r * r > 0) by (nonlinear_arith)
        requires
            r != 0,
    ;
}

/// Whether the two circles collide.
pub fn are_colliding(
    tr1: &Transform,
    bb1: &BoundingCircle,
    tr2: &Transform,
    bb2: &BoundingCircle,
) -> (b: bool)
    ensures
        b == collides(*tr1, *bb1, *tr2, *bb2),
{
    let r: i64 = bb1.radius as i64 + bb2.radius as i64;
    assert(0 <= r * r <= 0x1_0000_0000_0000_0000) by (nonlinear_arith)
        requires
            -0x1_0000_0000 <= r <= 0x1_0000_0000,
    ;
    let reach: i128 = (r as i128) * (r as i128);
    tr1.pos.distance_squared(tr2.pos) < reach as u128
}

/// Whether the pass strikes `e`: it has a transform, a circle and a kind, that kind is
/// `kind`, and its circle collides with the player's.
pub open spec fn strikes(
    transforms: Map<Entity, Transform>,
    circles: Map<Entity, BoundingCircle>,
    kinds: Map<Entity, BallType>,
    player: Entity,
    e: Entity,
    kind: BallType,
) -> bool {
    &&& transforms.contains_key(e)
    &&& circles.contains_key(e)
    &&& kinds.contains_key(e)
    &&& kinds[e] == kind
    &&& collides(transforms[player], circles[player], transforms[e], circles[e])
}

/// Whether the pass strikes `e`, whatever its kind.
pub open spec fn struck(
    transforms: Map<Entity, Transform>,
    circles: Map<Entity, BoundingCircle>,
    kinds: Map<Entity, BallType>,
    player: Entity,
    e: Entity,
) -> bool {
    kinds.contains_key(e) && strikes(transforms, circles, kinds, player, e, kinds[e])
}

/// The good balls that the pass strikes.
pub open spec fn good_hits(
    transforms: Map<Entity, Transform>,
    circles: Map<Entity, BoundingCircle>,
    kinds: Map<Entity, BallType>,
    player: Entity,
) -> Set<Entity> {
    Set::new(|e: Entity| strikes(transforms, circles, kinds, player, e, BallType::Good))
}

/// `t` moved off stage.
pub open spec fn sent_off(t: Transform) -> Transform {
    Transform { pos: Vector2 { x: OFF_STAGE, y: OFF_STAGE }, ..t }
}

/// The transforms after a collision pass: every ball that was struck is off stage, every
/// other entity is where it was.
pub open spec fn collision_step(
    transforms: Map<Entity, Transform>,
    circles: Map<Entity, BoundingCircle>,
    kinds: Map<Entity, BallType>,
    player: Entity,
) -> Map<Entity, Transform> {
    Map::new(
        |e: Entity| transforms.contains_key(e),
        |e: Entity|
            if struck(transforms, circles, kinds, player, e) {
                sent_off(transforms[e])
            } else {
                transforms[e]
            },
    )
}

/// The number of points for `count` good balls: `count`, as far as `i32` goes.
pub open spec fn points_for(count: nat) -> i32 {
    if count > i32::MAX {
        i32::MAX
    } else {
        count as i32
    }
}

/// Finds the balls that touch the player, sends them off stage and records what was hit.
pub struct CollisionSystem {
    /// The player.
    pub player: Entity,
    /// The points that the last pass brought in.
    pub new_points: i32,
}

impl CollisionSystem {
    /// One pass. The player needs a transform and a circle.
    ///
    /// The three hit flags say whether a ball of their kind was struck in this pass, and
    /// `new_points` counts the good balls struck in it. Whether a ball is struck is judged
    /// by where the player was when the pass began.
    pub fn run(
        &mut self,
        transforms: &mut Storage<Transform>,
        bounding_circles: &Storage<BoundingCircle>,
        ball_types: &Storage<BallType>,
        hit_bad: &mut HitBad,
        hit_neutral: &mut HitNeutral,
        hit_good: &mut HitGood,
    )
        requires
            old(transforms)@.contains_key(old(self).player),
            bounding_circles@.contains_key(old(self).player),
        ensures
            final(self).player == old(self).player,
            final(transforms)@ == collision_step(
                old(transforms)@,
                bounding_circles@,
                ball_types@,
                old(self).player,
            ),
            final(hit_bad).0 <==> exists|e: Entity|
                strikes(
                    old(transforms)@,
                    bounding_circles@,
                    ball_types@,
                    old(self).player,
                    e,
                    BallType::Bad,
                ),
            final(hit_neutral).0 <==> exists|e: Entity|
                strikes(
                    old(transforms)@,
                    bounding_circles@,
                    ball_types@,
                    old(self).player,
                    e,
                    BallType::Neutral,
                ),
            final(hit_good).0 <==> exists|e: Entity|
                strikes(
                    old(transforms)@,
                    bounding_circles@,
                    ball_types@,
                    old(self).player,
                    e,
                    BallType::Good,
                ),
            good_hits(old(transforms)@, bounding_circles@, ball_types@, old(self).player).finite(),
            final(self).new_points == points_for(
                good_hits(
                    old(transforms)@,
                    bounding_circles@,
                    ball_types@,
                    old(self).player,
                ).len(),
            ),
    {
        hit_bad.0 = false;
        hit_neutral.0 = false;
        hit_good.0 = false;
        self.new_points = 0;

        let player = self.player;
        let player_transform = copied(transforms.get(player)).unwrap();
        let player_circle = copied(bounding_circles.get(player)).unwrap();

        let ghost t0 = old(transforms)@;
        let ghost c0 = bounding_circles@;
        let ghost k0 = ball_types@;
        let ghost mut seen: Set<Entity> = Set::empty();

        let n = transforms.limit();
        let mut i: usize = 0;
        while i < n
            invariant
                i <= n,
                n == transforms.bound(),
                t0 == old(transforms)@,
                c0 == bounding_circles@,
                k0 == ball_types@,
                player == old(self).player,
                self.player == player,
                t0.contains_key(player),
                c0.contains_key(player),
                player_transform == t0[player],
                player_circle == c0[player],
                forall|e: Entity| #[trigger] transforms@.contains_key(e) <==> t0.contains_key(e),
                forall|e: Entity|
                    #[trigger] transforms@.contains_key(e) ==> transforms@[e] == if e.id < i
                        && struck(t0, c0, k0, player, e) {
                        sent_off(t0[e])
                    } else {
                        t0[e]
                    },
                hit_bad.0 <==> exists|e: Entity|
                    e.id < i && #[trigger] strikes(t0, c0, k0, player, e, BallType::Bad),
                hit_neutral.0 <==> exists|e: Entity|
                    e.id < i && #[trigger] strikes(t0, c0, k0, player, e, BallType::Neutral),
                hit_good.0 <==> exists|e: Entity|
                    e.id < i && #[trigger] strikes(t0, c0, k0, player, e, BallType::Good),
                seen.finite(),
                forall|e: Entity|
                    #![trigger seen.contains(e)]
                    #![trigger strikes(t0, c0, k0, player, e, BallType::Good)]
                    seen.contains(e) <==> e.id < i && strikes(
                        t0,
                        c0,
                        k0,
                        player,
                        e,
                        BallType::Good,
                    ),
                self.new_points == points_for(seen.len()),
            decreases n - i,
        {
            let entity = Entity { id: i };
            let ghost before = transforms@;
            let ghost seen_before = seen;
            let transform = copied(transforms.get(entity));
            let circle = copied(bounding_circles.get(entity));
            let kind = copied(ball_types.get(entity));
            match (transform, circle, kind) {
                (Some(t), Some(c), Some(k)) => {
                    if are_colliding(&player_transform, &player_circle, &t, &c) {
                        transforms.insert(
                            entity,
                            Transform { pos: Vector2 { x: OFF_STAGE, y: OFF_STAGE }, ..t },
                        );
                        assert(strikes(t0, c0, k0, player, entity, k));
                        match k {
                            BallType::Good => {
                                if self.new_points < i32::MAX {
                                    self.new_points = self.new_points + 1;
                                }
                                hit_good.0 = true;
                            },
                            BallType::Neutral => {
                                hit_neutral.0 = true;
                            },
                            BallType::Bad => {
                                hit_bad.0 = true;
                            },
                        }
                    }
                },
                _ => {},
            }
            proof {
                if strikes(t0, c0, k0, player, entity, BallType::Good) {
                    seen = seen_before.insert(entity);
                }
            }
            assert forall|e: Entity| #[trigger]
                transforms@.contains_key(e) implies transforms@[e] == if e.id < i + 1 && struck(
                t0,
                c0,
                k0,
                player,
                e,
            ) {
                sent_off(t0[e])
            } else {
                t0[e]
            } by {
                if e.id == i {
                    assert(e == entity);
                } else {
                    assert(before.contains_key(e));
                }
            }
            assert forall|e: Entity|
                #![trigger seen.contains(e)]
                #![trigger strikes(t0, c0, k0, player, e, BallType::Good)]
                seen.contains(e) <==> e.id < i + 1 && strikes(
                    t0,
                    c0,
                    k0,
                    player,
                    e,
                    BallType::Good,
                ) by {
                if e.id == i {
                    assert(e == entity);
                }
                assert(seen_before.contains(e) <==> e.id < i && strikes(
                    t0,
                    c0,
                    k0,
                    player,
                    e,
                    BallType::Good,
                ));
            }
            i = i + 1;
        }
        proof {
            old(transforms).lemma_bounded();
            assert(transforms@ =~= collision_step(t0, c0, k0, player));
            assert(seen =~= good_hits(t0, c0, k0, player));
        }
    }
}

} // verus!
