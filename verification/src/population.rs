//! The decorations that drift across the arena: their census, their culling and their
//! spawning at the edge.

use vstd::prelude::*;
use crate::components::{ObamaComponent, Transform, Velocity};
use crate::constants::{
    ARENA_HEIGHT, ARENA_WIDTH, OFF_SCREEN_MARGIN, POPULATION_FLOOR,
};
use crate::fixed::{clamp_i32, lemma_toward_zero_bound, saturate, toward_zero};
use crate::trig::{direction, lemma_direction_quadrant};
use crate::game::{polar, polar_vector};
use crate::random::{choose_sprite, sample_below};
use crate::sprite::Sprite;
use crate::storage::{copied, Entity, Storage};
use crate::vector::Vector2;
use crate::world::{Entities, World, WorldView};

verus! {

/// Whether `pos` lies more than `OFF_SCREEN_MARGIN` whole units outside the arena, on any
/// side. A coordinate counts by its whole units, the fraction dropped.
pub open spec fn is_way_off_screen(pos: Vector2) -> bool {
    ||| toward_zero(pos.x as int, 1000) < -OFF_SCREEN_MARGIN
    ||| toward_zero(pos.x as int, 1000) > ARENA_WIDTH + OFF_SCREEN_MARGIN
    ||| toward_zero(pos.y as int, 1000) < -OFF_SCREEN_MARGIN
    ||| toward_zero(pos.y as int, 1000) > ARENA_HEIGHT + OFF_SCREEN_MARGIN
}

/// Whether `pos` lies more than `OFF_SCREEN_MARGIN` whole units outside the arena.
pub fn way_off_screen(pos: Vector2) -> (b: bool)
    ensures
        b == is_way_off_screen(pos),
{
    let margin: i32 = OFF_SCREEN_MARGIN;
    let right: i32 = ARENA_WIDTH as i32 + margin;
    let bottom: i32 = ARENA_HEIGHT as i32 + margin;
    pos.x / 1000 < -margin || pos.x / 1000 > right || pos.y / 1000 < -margin || pos.y / 1000
        > bottom
}

/// The decorations: the entities that exist and have both the mark and a transform.
pub open spec fn population(
    alive: Set<Entity>,
    obamas: Map<Entity, ObamaComponent>,
    transforms: Map<Entity, Transform>,
) -> Set<Entity> {
    Set::new(
        |e: Entity| alive.contains(e) && obamas.contains_key(e) && transforms.contains_key(e),
    )
}

/// The decorations that have drifted far out of the arena.
pub open spec fn strays(
    alive: Set<Entity>,
    obamas: Map<Entity, ObamaComponent>,
    transforms: Map<Entity, Transform>,
) -> Set<Entity> {
    Set::new(
        |e: Entity|
            population(alive, obamas, transforms).contains(e) && is_way_off_screen(
                transforms[e].pos,
            ),
    )
}

/// Counts the decorations and queues for deletion those that have drifted far out.
pub struct ObamaSystem {
    /// Whether the last pass counted fewer than `POPULATION_FLOOR` decorations.
    pub too_few_obamas: bool,
}

impl ObamaSystem {
    /// One pass. Every decoration is counted, those about to be deleted too.
    pub fn run(
        &mut self,
        entities: &mut Entities,
        obamas: &Storage<ObamaComponent>,
        transforms: &Storage<Transform>,
    )
        ensures
            final(entities).alive() == old(entities).alive(),
            final(entities).doomed() == old(entities).doomed().union(
                strays(old(entities).alive(), obamas@, transforms@),
            ),
            population(old(entities).alive(), obamas@, transforms@).finite(),
            final(self).too_few_obamas == (population(
                old(entities).alive(),
                obamas@,
                transforms@,
            ).len() < POPULATION_FLOOR),
    {
        let ghost a0 = old(entities).alive();
        let ghost d0 = old(entities).doomed();
        let ghost mut seen: Set<Entity> = Set::empty();
        let mut obama_amount: usize = 0;
        let n = obamas.limit();
        let mut i: usize = 0;
        while i < n
            invariant
                i <= n,
                n == obamas.bound(),
                a0 == old(entities).alive(),
                d0 == old(entities).doomed(),
                entities.alive() == a0,
                forall|e: Entity|
                    #![trigger entities.doomed().contains(e)]
                    entities.doomed().contains(e) <==> d0.contains(e) || (e.id < i && strays(
                        a0,
                        obamas@,
                        transforms@,
                    ).contains(e)),
                seen.finite(),
                forall|e: Entity|
                    #![trigger seen.contains(e)]
                    seen.contains(e) <==> e.id < i && population(a0, obamas@, transforms@).contains(
                        e,
                    ),
                obama_amount == seen.len(),
                obama_amount <= i,
            decreases n - i,
        {
            let entity = Entity { id: i };
            let ghost doomed_before = entities.doomed();
            let ghost seen_before = seen;
            if entities.is_alive(entity) && obamas.contains(entity) {
                match copied(transforms.get(entity)) {
                    Some(transform) => {
                        obama_amount = obama_amount + 1;
                        proof {
                            seen = seen_before.insert(entity);
                        }
                        // Remove obamas that are too far out
                        if way_off_screen(transform.pos) {
                            let _ = entities.delete(entity);
                        }
                    },
                    None => {},
                }
            }
            assert forall|e: Entity|
                #![trigger entities.doomed().contains(e)]
                entities.doomed().contains(e) <==> d0.contains(e) || (e.id < i + 1 && strays(
                    a0,
                    obamas@,
                    transforms@,
                ).contains(e)) by {
                if e.id == i {
                    assert(e == entity);
                }
                assert(doomed_before.contains(e) <==> d0.contains(e) || (e.id < i && strays(
                    a0,
                    obamas@,
                    transforms@,
                ).contains(e)));
            }
            assert forall|e: Entity|
                #![trigger seen.contains(e)]
                seen.contains(e) <==> e.id < i + 1 && population(
                    a0,
                    obamas@,
                    transforms@,
                ).contains(e) by {
                if e.id == i {
                    assert(e == entity);
                }
                assert(seen_before.contains(e) <==> e.id < i && population(
                    a0,
                    obamas@,
                    transforms@,
                ).contains(e));
            }
            i = i + 1;
        }
        self.too_few_obamas = obama_amount < POPULATION_FLOOR;
        proof {
            obamas.lemma_bounded();
            assert(seen =~= population(a0, obamas@, transforms@));
            assert(entities.doomed() =~= d0.union(strays(a0, obamas@, transforms@)));
        }
    }
}

/// The length of the arena's perimeter, in whole units.
pub open spec fn perimeter() -> int {
    2 * ARENA_WIDTH + 2 * ARENA_HEIGHT
}

/// The point `dist` whole units along the arena's perimeter: first along the top from the
/// left, then down the right side, then along the bottom from the left, then down the left
/// side.
pub open spec fn edge_position(dist: int) -> Vector2 {
    if dist < ARENA_WIDTH {
        Vector2 { x: clamp_i32(dist * 1000), y: 0 }
    } else if dist < ARENA_WIDTH + ARENA_HEIGHT {
        Vector2 { x: (ARENA_WIDTH * 1000) as i32, y: clamp_i32((dist - ARENA_WIDTH) * 1000) }
    } else if dist < 2 * ARENA_WIDTH + ARENA_HEIGHT {
        Vector2 {
            x: clamp_i32((dist - (ARENA_WIDTH + ARENA_HEIGHT)) * 1000),
            y: (ARENA_HEIGHT * 1000) as i32,
        }
    } else {
        Vector2 { x: 0, y: clamp_i32((dist - (2 * ARENA_WIDTH + ARENA_HEIGHT)) * 1000) }
    }
}

/// Whether `p` lies on the arena's perimeter: on the top or the bottom side between the
/// corners, or on the left or the right side between the corners.
pub open spec fn on_edge(p: Vector2) -> bool {
    ||| (p.y == 0 || p.y == ARENA_HEIGHT * 1000) && 0 <= p.x <= ARENA_WIDTH * 1000
    ||| (p.x == 0 || p.x == ARENA_WIDTH * 1000) && 0 <= p.y <= ARENA_HEIGHT * 1000
}

/// Every distance short of the perimeter's length gives a point on the perimeter, and
/// no such point is way off screen.
pub proof fn lemma_edge_position_on_edge(dist: int)
    requires
        0 <= dist < perimeter(),
    ensures
        on_edge(edge_position(dist)),
        !is_way_off_screen(edge_position(dist)),
{
}

/// The point `dist` whole units along the arena's perimeter.
pub fn edge_position_at(dist: u32) -> (p: Vector2)
    ensures
        p == edge_position(dist as int),
{
    // Distance to corners going clockwise
    let c1: u32 = ARENA_WIDTH;  // top right
    let c2: u32 = c1 + ARENA_HEIGHT;  // bottom right
    let c3: u32 = c2 + ARENA_WIDTH;  // bottom left
    let right: i32 = ARENA_WIDTH as i32 * 1000;
    let bottom: i32 = ARENA_HEIGHT as i32 * 1000;
    if dist < c1 {
        Vector2 { x: saturate(dist as i128 * 1000), y: 0 }
    } else if dist < c2 {
        Vector2 { x: right, y: saturate((dist - c1) as i128 * 1000) }
    } else if dist < c3 {
        Vector2 { x: saturate((dist - c2) as i128 * 1000), y: bottom }
    } else {
        Vector2 { x: 0, y: saturate((dist - c3) as i128 * 1000) }
    }
}

/// A random point on the arena's perimeter, every whole unit of the perimeter as likely
/// as any other.
pub fn random_edge_position() -> (p: Vector2)
    ensures
        on_edge(p),
        exists|dist: int| 0 <= dist < perimeter() && p == #[trigger] edge_position(dist),
{
    let dist = sample_below(2 * ARENA_WIDTH + 2 * ARENA_HEIGHT);
    proof {
        lemma_edge_position_on_edge(dist as int);
    }
    edge_position_at(dist)
}

/// The first of the headings that lead into the arena from `edge_position(dist)`: along
/// the side on which the point lies. The headings up to half a turn further all lead
/// inward.
pub open spec fn inward_from(dist: int) -> int {
    if dist < ARENA_WIDTH {
        0
    } else if dist < ARENA_WIDTH + ARENA_HEIGHT {
        1_570_796
    } else if dist < 2 * ARENA_WIDTH + ARENA_HEIGHT {
        3_141_592
    } else {
        4_712_388
    }
}

/// The first of the headings that lead into the arena from `edge_position(dist)`.
pub fn inward_heading(dist: u32) -> (a: i64)
    ensures
        a == inward_from(dist as int),
{
    if dist < ARENA_WIDTH {
        0
    } else if dist < ARENA_WIDTH + ARENA_HEIGHT {
        1_570_796
    } else if dist < 2 * ARENA_WIDTH + ARENA_HEIGHT {
        3_141_592
    } else {
        4_712_388
    }
}

/// The transform a decoration starts with: at `pos`, at half size, facing along the first
/// axis.
pub open spec fn obama_transform(pos: Vector2) -> Transform {
    Transform { pos, angle: 0, scale: Vector2 { x: 500, y: 500 } }
}

/// The velocity a decoration starts with: twenty units a second along `angle`.
pub open spec fn obama_velocity(angle: int) -> Velocity {
    Velocity(polar(20_000, angle))
}

/// The world once the new entity `e` has become a decoration at `pos`, moving along
/// `angle`, and showing `sprite` if there is one.
pub open spec fn with_obama(
    w: WorldView,
    e: Entity,
    pos: Vector2,
    angle: int,
    sprite: Option<Sprite>,
) -> WorldView {
    WorldView {
        alive: w.alive.insert(e),
        sprites: match sprite {
            Some(s) => w.sprites.insert(e, s),
            None => w.sprites,
        },
        transforms: w.transforms.insert(e, obama_transform(pos)),
        velocities: w.velocities.insert(e, obama_velocity(angle)),
        obamas: w.obamas.insert(e, ObamaComponent),
        ..w
    }
}

/// Creates a decoration at `pos` that moves along `angle` and shows `sprite`, if there is
/// one.
pub fn spawn_obama(world: &mut World, pos: Vector2, angle: i64, sprite: Option<Sprite>) -> (e:
    Entity)
    ensures
        old(world)@.fresh(e),
        final(world)@ == with_obama(old(world)@, e, pos, angle as int, sprite),
{
    let obama_speed: i32 = 20_000;
    let velocity = polar_vector(obama_speed, angle);
    let obama_transform = Transform { pos, angle: 0, scale: Vector2 { x: 500, y: 500 } };
    let e = world.create_entity();
    match sprite {
        Some(s) => {
            world.sprites.insert(e, s);
        },
        None => {},
    }
    world.transforms.insert(e, obama_transform);
    world.velocities.insert(e, Velocity(velocity));
    world.obamas.insert(e, ObamaComponent);
    e
}

/// A new decoration never heads away from the arena: from the top it does not move up,
/// from the right not to the right, from the bottom not down, from the left not to the
/// left.
pub proof fn lemma_obama_heads_inward(dist: int, spread: int)
    requires
        0 <= dist < perimeter(),
        0 <= spread < 3_141_592,
    ensures
        dist < ARENA_WIDTH ==> obama_velocity(inward_from(dist) + spread).0.y >= 0,
        ARENA_WIDTH <= dist < ARENA_WIDTH + ARENA_HEIGHT ==> obama_velocity(
            inward_from(dist) + spread,
        ).0.x <= 0,
        ARENA_WIDTH + ARENA_HEIGHT <= dist < 2 * ARENA_WIDTH + ARENA_HEIGHT ==> obama_velocity(
            inward_from(dist) + spread,
        ).0.y <= 0,
        2 * ARENA_WIDTH + ARENA_HEIGHT <= dist ==> obama_velocity(inward_from(dist) + spread).0.x
            >= 0,
{
    let angle = inward_from(dist) + spread;
    lemma_direction_quadrant(angle);
    let c = direction(angle).cos as int;
    let s = direction(angle).sin as int;
    assert(c >= 0 ==> 20_000 * c >= 0) by (nonlinear_arith);
    assert(c <= 0 ==> 20_000 * c <= 0) by (nonlinear_arith);
    assert(s >= 0 ==> 20_000 * s >= 0) by (nonlinear_arith);
    assert(s <= 0 ==> 20_000 * s <= 0) by (nonlinear_arith);
    lemma_toward_zero_bound(20_000 * c, 1_000_000);
    lemma_toward_zero_bound(20_000 * s, 1_000_000);
}

/// Whether `after` is `before` with one more decoration `e`, as `create_obama` makes it
/// from the draws `dist` and `spread` and the choice `sprite` out of `sprites`: at the
/// point `dist` of the perimeter, heading `spread` past the first heading that leads
/// inward.
pub open spec fn is_obama_spawn(
    before: WorldView,
    after: WorldView,
    e: Entity,
    sprites: Seq<Sprite>,
    dist: int,
    spread: int,
    sprite: Option<Sprite>,
) -> bool {
    &&& 0 <= dist < perimeter()
    &&& 0 <= spread < 3_141_592
    &&& match sprite {
        Some(s) => sprites.contains(s),
        None => sprites.len() == 0,
    }
    &&& after == with_obama(before, e, edge_position(dist), inward_from(dist) + spread, sprite)
}

/// Creates a decoration at a random point of the arena's perimeter. It moves at
/// twenty units a second along a random heading that leads inward, and shows a sprite
/// picked at random from `obama_sprites`; where that list is empty it has no sprite.
pub fn create_obama(world: &mut World, obama_sprites: &Vec<Sprite>) -> (e: Entity)
    ensures
        old(world)@.fresh(e),
        exists|dist: int, spread: int, sprite: Option<Sprite>|
            is_obama_spawn(old(world)@, final(world)@, e, obama_sprites@, dist, spread, sprite),
        final(world)@.obamas.contains_key(e),
        final(world)@.transforms.contains_key(e),
        on_edge(final(world)@.transforms[e].pos),
{
    let dist = sample_below(2 * ARENA_WIDTH + 2 * ARENA_HEIGHT);
    proof {
        lemma_edge_position_on_edge(dist as int);
    }
    let obama_pos = edge_position_at(dist);
    let spread = sample_below(3_141_592) as i64;
    let obama_sprite = choose_sprite(obama_sprites);
    let e = spawn_obama(world, obama_pos, inward_heading(dist) + spread, obama_sprite);
    assert(is_obama_spawn(
        old(world)@,
        world@,
        e,
        obama_sprites@,
        dist as int,
        spread as int,
        obama_sprite,
    ));
    e
}

/// Whether `after` is `before` with one more decoration `e` made by `create_obama`.
pub open spec fn has_new_obama(
    before: WorldView,
    after: WorldView,
    e: Entity,
    sprites: Seq<Sprite>,
) -> bool {
    before.fresh(e) && exists|dist: int, spread: int, sprite: Option<Sprite>|
        is_obama_spawn(before, after, e, sprites, dist, spread, sprite)
}

/// Creates one decoration where the census has found too few, and nothing otherwise.
pub fn replenish(world: &mut World, too_few: bool, obama_sprites: &Vec<Sprite>) -> (r: Option<
    Entity,
>)
    ensures
        r is Some <==> too_few,
        match r {
            Some(e) => has_new_obama(old(world)@, final(world)@, e, obama_sprites@),
            None => final(world)@ == old(world)@,
        },
{
    if too_few {
        Some(create_obama(world, obama_sprites))
    } else {
        None
    }
}

} // verus!
