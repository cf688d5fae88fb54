//! The input system: what the events of one frame do to the player.
//!
//! The events themselves come from outside; this module takes them as plain values.

use vstd::prelude::*;
use crate::components::{Transform, Velocity};
use crate::constants::{KEY_ACCELERATION, UPSCALING};
use crate::fixed::{clamp_i32, saturate, toward_zero};
use crate::player::{Keys, PlayerComponent};
use crate::storage::{copied, Entity, Storage};
use crate::trig::{angle_of, arctangent2};
use crate::vector::{vec_sum, Vector2};

verus! {

/// The keys the game tells apart.
#[derive(Clone, Copy, Debug, PartialEq, Eq, Structural)]
pub enum KeyCode {
    W,
    A,
    S,
    D,
    Escape,
    Other,
}

/// One event of the window.
#[derive(Clone, Copy, Debug, PartialEq, Eq, Structural)]
pub enum InputEvent {
    /// The window was asked to close.
    Quit,
    /// A key went down.
    KeyDown(KeyCode),
    /// A key came up.
    KeyUp(KeyCode),
    /// The pointer moved to the screen pixel `(x, y)`.
    MouseMotion { x: i32, y: i32 },
    /// Anything else.
    Other,
}

/// What a run of events comes to.
pub struct Scan {
    /// Whether the run asked to leave the game.
    pub exit: bool,
    /// Where the pointer is, in thousandths of a screen pixel.
    pub mouse: Vector2,
    /// The keys that went down (`true`) or came up (`false`), in order.
    pub keys: Seq<(KeyCode, bool)>,
}

/// Whether `event` asks to leave the game: the window closing, or Escape going down.
pub open spec fn is_exit(event: InputEvent) -> bool {
    event == InputEvent::Quit || event == InputEvent::KeyDown(KeyCode::Escape)
}

/// What `scan` has after one more event.
pub open spec fn scan_event(prev: Scan, event: InputEvent) -> Scan {
    if prev.exit {
        prev
    } else if is_exit(event) {
        Scan { exit: true, ..prev }
    } else {
        match event {
            InputEvent::KeyDown(code) => Scan { keys: prev.keys.push((code, true)), ..prev },
            InputEvent::KeyUp(code) => Scan { keys: prev.keys.push((code, false)), ..prev },
            InputEvent::MouseMotion { x, y } => Scan {
                mouse: Vector2 { x: clamp_i32(x * 1000), y: clamp_i32(y * 1000) },
                ..prev
            },
            _ => prev,
        }
    }
}

/// What the events come to, read in order from a pointer at `mouse`. Reading stops at the
/// first event that asks to leave; whatever follows it is ignored.
pub open spec fn scan(events: Seq<InputEvent>, mouse: Vector2) -> Scan
    decreases events.len(),
{
    if events.len() == 0 {
        Scan { exit: false, mouse, keys: Seq::empty() }
    } else {
        scan_event(scan(events.drop_last(), mouse), events.last())
    }
}

/// The direction that a key stands for.
pub open spec fn direction_key(code: KeyCode) -> Option<Keys> {
    match code {
        KeyCode::W => Some(Keys::Up),
        KeyCode::S => Some(Keys::Down),
        KeyCode::D => Some(Keys::Right),
        KeyCode::A => Some(Keys::Left),
        _ => None,
    }
}

/// Whether the direction `key` is held after the key events `keys`, if it was held or not
/// as `initial` says before them: as the last event for that direction says, and as before
/// where there is none.
pub open spec fn held_after(initial: bool, keys: Seq<(KeyCode, bool)>, key: Keys) -> bool
    decreases keys.len(),
{
    if keys.len() == 0 {
        initial
    } else if direction_key(keys.last().0) == Some(key) {
        keys.last().1
    } else {
        held_after(initial, keys.drop_last(), key)
    }
}

/// The velocity `v` with `KEY_ACCELERATION` added for each direction held: up, down, right
/// and left, in that order.
pub open spec fn accelerated(v: Vector2, up: bool, down: bool, right: bool, left: bool) -> Vector2 {
    let v1 = if up {
        vec_sum(v, Vector2 { x: 0, y: (-KEY_ACCELERATION) as i32 })
    } else {
        v
    };
    let v2 = if down {
        vec_sum(v1, Vector2 { x: 0, y: KEY_ACCELERATION })
    } else {
        v1
    };
    let v3 = if right {
        vec_sum(v2, Vector2 { x: KEY_ACCELERATION, y: 0 })
    } else {
        v2
    };
    if left {
        vec_sum(v3, Vector2 { x: (-KEY_ACCELERATION) as i32, y: 0 })
    } else {
        v3
    }
}

/// The angle under which an entity at `pos` sees the pointer. `mouse` is in thousandths of
/// a screen pixel, and `UPSCALING` screen pixels make one game unit.
pub open spec fn facing(mouse: Vector2, pos: Vector2) -> int {
    arctangent2(
        toward_zero(mouse.y as int, UPSCALING as int) - pos.y,
        toward_zero(mouse.x as int, UPSCALING as int) - pos.x,
    )
}

/// What the input pass makes of a player with the transform `t`.
pub open spec fn turned(t: Transform, mouse: Vector2) -> Transform {
    Transform { angle: facing(mouse, t.pos) as i64, ..t }
}

/// Whether `e` is a player: it has the keys, a velocity and a transform.
pub open spec fn is_player(
    players: Map<Entity, PlayerComponent>,
    velocities: Map<Entity, Velocity>,
    transforms: Map<Entity, Transform>,
    e: Entity,
) -> bool {
    players.contains_key(e) && velocities.contains_key(e) && transforms.contains_key(e)
}

/// Whether the entity `e` holds the direction `key` after a pass with the events `s`: a
/// player has the key events recorded, unless the events ask to leave; everything else
/// holds what it held.
pub open spec fn pressed_after(
    players: Map<Entity, PlayerComponent>,
    velocities: Map<Entity, Velocity>,
    transforms: Map<Entity, Transform>,
    s: Scan,
    e: Entity,
    key: Keys,
) -> bool {
    if !s.exit && is_player(players, velocities, transforms, e) {
        held_after(players[e].pressed(key), s.keys, key)
    } else {
        players[e].pressed(key)
    }
}

/// The velocities after a pass with the events `s`: every player has gained speed in each
/// direction it then holds, unless the events ask to leave.
pub open spec fn input_velocities(
    players: Map<Entity, PlayerComponent>,
    velocities: Map<Entity, Velocity>,
    transforms: Map<Entity, Transform>,
    s: Scan,
) -> Map<Entity, Velocity> {
    Map::new(
        |e: Entity| velocities.contains_key(e),
        |e: Entity|
            if !s.exit && is_player(players, velocities, transforms, e) {
                Velocity(
                    accelerated(
                        velocities[e].0,
                        pressed_after(players, velocities, transforms, s, e, Keys::Up),
                        pressed_after(players, velocities, transforms, s, e, Keys::Down),
                        pressed_after(players, velocities, transforms, s, e, Keys::Right),
                        pressed_after(players, velocities, transforms, s, e, Keys::Left),
                    ),
                )
            } else {
                velocities[e]
            },
    )
}

/// The transforms after a pass with the events `s`: every player faces the pointer, unless
/// the events ask to leave.
pub open spec fn input_transforms(
    players: Map<Entity, PlayerComponent>,
    velocities: Map<Entity, Velocity>,
    transforms: Map<Entity, Transform>,
    s: Scan,
) -> Map<Entity, Transform> {
    Map::new(
        |e: Entity| transforms.contains_key(e),
        |e: Entity|
            if !s.exit && is_player(players, velocities, transforms, e) {
                turned(transforms[e], s.mouse)
            } else {
                transforms[e]
            },
    )
}

/// The direction that a key stands for.
pub fn key_direction(code: KeyCode) -> (r: Option<Keys>)
    ensures
        r == direction_key(code),
{
    match code {
        KeyCode::W => Some(Keys::Up),
        KeyCode::S => Some(Keys::Down),
        KeyCode::D => Some(Keys::Right),
        KeyCode::A => Some(Keys::Left),
        _ => None,
    }
}

/// Records the key events `keys` in `player`, in order.
pub fn apply_keys(player: &mut PlayerComponent, keys: &Vec<(KeyCode, bool)>)
    ensures
        forall|key: Keys|
            #[trigger] final(player).pressed(key) == held_after(
                old(player).pressed(key),
                keys@,
                key,
            ),
{
    let mut j: usize = 0;
    while j < keys.len()
        invariant
            j <= keys.len(),
            forall|key: Keys|
                #[trigger] player.pressed(key) == held_after(
                    old(player).pressed(key),
                    keys@.take(j as int),
                    key,
                ),
        decreases keys.len() - j,
    {
        let (code, down) = keys[j];
        let ghost before = *player;
        match key_direction(code) {
            Some(direction) => {
                player.set_key(direction, down);
            },
            None => {},
        }
        proof {
            assert(keys@.take(j + 1).drop_last() =~= keys@.take(j as int));
            assert(keys@.take(j + 1).last() == keys@[j as int]);
            assert forall|key: Keys|
                #[trigger] player.pressed(key) == held_after(
                    old(player).pressed(key),
                    keys@.take(j + 1),
                    key,
                ) by {
                assert(before.pressed(key) == held_after(
                    old(player).pressed(key),
                    keys@.take(j as int),
                    key,
                ));
            }
        }
        j = j + 1;
    }
    assert(keys@.take(keys@.len() as int) =~= keys@);
}

/// Adds to `v` the `KEY_ACCELERATION` for each direction that `player` holds.
pub fn accelerate(v: Vector2, player: &PlayerComponent) -> (r: Vector2)
    ensures
        r == accelerated(
            v,
            player.pressed(Keys::Up),
            player.pressed(Keys::Down),
            player.pressed(Keys::Right),
            player.pressed(Keys::Left),
        ),
{
    let add_vel: i32 = KEY_ACCELERATION;
    let mut r = v;
    if player.get_key(Keys::Up) {
        r = r.plus(Vector2 { x: 0, y: -add_vel });
    }
    if player.get_key(Keys::Down) {
        r = r.plus(Vector2 { x: 0, y: add_vel });
    }
    if player.get_key(Keys::Right) {
        r = r.plus(Vector2 { x: add_vel, y: 0 });
    }
    if player.get_key(Keys::Left) {
        r = r.plus(Vector2 { x: -add_vel, y: 0 });
    }
    r
}

/// Folds the events of a frame into the player's keys, velocity and facing.
pub struct InputSystem {
    /// Where the pointer is, in thousandths of a screen pixel.
    pub mouse_pos: Vector2,
    /// Whether the game was asked to end.
    pub should_exit: bool,
}

impl InputSystem {
    /// Reads `events` as `scan` does: the pointer follows the motions, the key events are
    /// collected, and reading stops at the first event that asks to leave.
    fn gather(&mut self, events: &Vec<InputEvent>) -> (r: (bool, Vec<(KeyCode, bool)>))
        ensures
            r.0 == scan(events@, old(self).mouse_pos).exit,
            r.1@ == scan(events@, old(self).mouse_pos).keys,
            final(self).mouse_pos == scan(events@, old(self).mouse_pos).mouse,
            final(self).should_exit == old(self).should_exit,
    {
        let mut keys: Vec<(KeyCode, bool)> = Vec::new();
        let mut exit = false;
        let mut j: usize = 0;
        while j < events.len()
            invariant
                j <= events.len(),
                exit == scan(events@.take(j as int), old(self).mouse_pos).exit,
                keys@ == scan(events@.take(j as int), old(self).mouse_pos).keys,
                self.mouse_pos == scan(events@.take(j as int), old(self).mouse_pos).mouse,
                self.should_exit == old(self).should_exit,
            decreases events.len() - j,
        {
            proof {
                assert(events@.take(j + 1).drop_last() =~= events@.take(j as int));
                assert(events@.take(j + 1).last() == events@[j as int]);
            }
            if !exit {
                match events[j] {
                    InputEvent::Quit => {
                        exit = true;
                    },
                    InputEvent::KeyDown(KeyCode::Escape) => {
                        exit = true;
                    },
                    InputEvent::KeyDown(code) => {
                        keys.push((code, true));
                    },
                    InputEvent::KeyUp(code) => {
                        keys.push((code, false));
                    },
                    InputEvent::MouseMotion { x, y } => {
                        self.mouse_pos = Vector2 {
                            x: saturate(x as i128 * 1000),
                            y: saturate(y as i128 * 1000),
                        };
                    },
                    _ => {},
                }
            }
            j = j + 1;
        }
        assert(events@.take(events@.len() as int) =~= events@);
        (exit, keys)
    }

    /// One pass over the events of a frame.
    ///
    /// Where the events ask to leave, `should_exit` is set and no entity is touched.
    /// Otherwise every player gets the key events recorded, gains speed in each direction
    /// that is then held, and turns to face the pointer.
    pub fn run(
        &mut self,
        events: &Vec<InputEvent>,
        players: &mut Storage<PlayerComponent>,
        velocities: &mut Storage<Velocity>,
        transforms: &mut Storage<Transform>,
    )
        ensures
            final(self).mouse_pos == scan(events@, old(self).mouse_pos).mouse,
            final(self).should_exit == (old(self).should_exit || scan(
                events@,
                old(self).mouse_pos,
            ).exit),
            final(players)@.dom() == old(players)@.dom(),
            forall|e: Entity, key: Keys|
                old(players)@.contains_key(e) ==> #[trigger] final(players)@[e].pressed(key)
                    == pressed_after(
                    old(players)@,
                    old(velocities)@,
                    old(transforms)@,
                    scan(events@, old(self).mouse_pos),
                    e,
                    key,
                ),
            forall|e: Entity|
                old(players)@.contains_key(e) && (scan(events@, old(self).mouse_pos).exit
                    || !is_player(old(players)@, old(velocities)@, old(transforms)@, e))
                    ==> #[trigger] final(players)@[e] == old(players)@[e],
            final(velocities)@ == input_velocities(
                old(players)@,
                old(velocities)@,
                old(transforms)@,
                scan(events@, old(self).mouse_pos),
            ),
            final(transforms)@ == input_transforms(
                old(players)@,
                old(velocities)@,
                old(transforms)@,
                scan(events@, old(self).mouse_pos),
            ),
    {
        //Run the event loop and store all the keycodes that were pressed
        let (exit, keys) = self.gather(events);
        if exit {
            self.should_exit = true;
            proof {
                let s = scan(events@, old(self).mouse_pos);
                assert(velocities@ =~= input_velocities(players@, velocities@, transforms@, s));
                assert(transforms@ =~= input_transforms(players@, velocities@, transforms@, s));
            }
            return ;
        }
        let ghost keys0 = old(players)@;
        let ghost v0 = old(velocities)@;
        let ghost t0 = old(transforms)@;
        let mouse = self.mouse_pos;
        let n = players.limit();
        let mut i: usize = 0;
        while i < n
            invariant
                i <= n,
                n == players.bound(),
                keys0 == old(players)@,
                v0 == old(velocities)@,
                t0 == old(transforms)@,
                mouse == self.mouse_pos,
                self.should_exit == old(self).should_exit,
                forall|e: Entity| #[trigger] players@.contains_key(e) <==> keys0.contains_key(e),
                forall|e: Entity| #[trigger] velocities@.contains_key(e) <==> v0.contains_key(e),
                forall|e: Entity| #[trigger] transforms@.contains_key(e) <==> t0.contains_key(e),
                forall|e: Entity, key: Keys|
                    is_player(keys0, v0, t0, e) && e.id < i ==> #[trigger] players@[e].pressed(key)
                        == held_after(keys0[e].pressed(key), keys@, key),
                forall|e: Entity|
                    is_player(keys0, v0, t0, e) && e.id < i ==> #[trigger] velocities@[e] == Velocity(
                        accelerated(
                            v0[e].0,
                            players@[e].pressed(Keys::Up),
                            players@[e].pressed(Keys::Down),
                            players@[e].pressed(Keys::Right),
                            players@[e].pressed(Keys::Left),
                        ),
                    ),
                forall|e: Entity|
                    is_player(keys0, v0, t0, e) && e.id < i ==> #[trigger] transforms@[e] == turned(
                        t0[e],
                        mouse,
                    ),
                forall|e: Entity|
                    keys0.contains_key(e) && !(is_player(keys0, v0, t0, e) && e.id < i)
                        ==> #[trigger] players@[e] == keys0[e],
                forall|e: Entity|
                    v0.contains_key(e) && !(is_player(keys0, v0, t0, e) && e.id < i)
                        ==> #[trigger] velocities@[e] == v0[e],
                forall|e: Entity|
                    t0.contains_key(e) && !(is_player(keys0, v0, t0, e) && e.id < i)
                        ==> #[trigger] transforms@[e] == t0[e],
            decreases n - i,
        {
            let entity = Entity { id: i };
            let ghost p_before = players@;
            let ghost v_before = velocities@;
            let ghost t_before = transforms@;
            let velocity = copied(velocities.get(entity));
            let transform = copied(transforms.get(entity));
            match (velocity, transform) {
                (Some(v), Some(t)) => {
                    match players.remove(entity) {
                        Some(taken) => {
                            let mut player_component = taken;
                            apply_keys(&mut player_component, &keys);
                            //All keys have been handled, let's use them
                            let new_v = accelerate(v.0, &player_component);
                            let px: i64 = (mouse.x / (UPSCALING as i32)) as i64 - t.pos.x as i64;
                            let py: i64 = (mouse.y / (UPSCALING as i32)) as i64 - t.pos.y as i64;
                            let angle = angle_of(py, px);
                            players.insert(entity, player_component);
                            velocities.insert(entity, Velocity(new_v));
                            transforms.insert(entity, Transform { angle, ..t });
                        },
                        None => {},
                    }
                },
                _ => {},
            }
            proof {
                assert forall|e: Entity| e.id != i implies players@[e] == p_before[e]
                    && velocities@[e] == v_before[e] && transforms@[e] == t_before[e] by {
                    assert(e != entity);
                }
                assert forall|e: Entity| e.id == i implies e == entity by {}
            }
            i = i + 1;
        }
        proof {
            old(players).lemma_bounded();
            let s = scan(events@, old(self).mouse_pos);
            assert(players@.dom() =~= keys0.dom());
            assert forall|e: Entity| v0.contains_key(e) implies #[trigger] velocities@[e]
                == input_velocities(keys0, v0, t0, s)[e] by {
                if is_player(keys0, v0, t0, e) {
                    assert(e.id < n);
                    assert(players@[e].pressed(Keys::Up) == held_after(
                        keys0[e].pressed(Keys::Up),
                        keys@,
                        Keys::Up,
                    ));
                    assert(players@[e].pressed(Keys::Down) == held_after(
                        keys0[e].pressed(Keys::Down),
                        keys@,
                        Keys::Down,
                    ));
                    assert(players@[e].pressed(Keys::Right) == held_after(
                        keys0[e].pressed(Keys::Right),
                        keys@,
                        Keys::Right,
                    ));
                    assert(players@[e].pressed(Keys::Left) == held_after(
                        keys0[e].pressed(Keys::Left),
                        keys@,
                        Keys::Left,
                    ));
                }
            }
            assert(velocities@ =~= input_velocities(keys0, v0, t0, s));
            assert forall|e: Entity| t0.contains_key(e) implies #[trigger] transforms@[e]
                == input_transforms(keys0, v0, t0, s)[e] by {
                if is_player(keys0, v0, t0, e) {
                    assert(e.id < n);
                }
            }
            assert(transforms@ =~= input_transforms(keys0, v0, t0, s));
            assert forall|e: Entity, key: Keys| keys0.contains_key(e) implies #[trigger] players@[e].pressed(
                key,
            ) == pressed_after(keys0, v0, t0, s, e, key) by {
                if is_player(keys0, v0, t0, e) {
                    assert(e.id < n);
                }
            }
        }
    }
}

} // verus!
