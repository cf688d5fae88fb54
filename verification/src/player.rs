//! The player's direction keys.

use vstd::prelude::*;
use std::collections::HashMap;

verus! {

broadcast use vstd::std_specs::hash::group_hash_axioms;

/// The four direction keys.
#[derive(Clone, Copy, Debug, PartialEq, Eq, Hash, Structural)]
pub enum Keys {
    Up,
    Down,
    Left,
    Right,
}

/// The number under which a key is recorded.
pub open spec fn key_code(key: Keys) -> u8 {
    match key {
        Keys::Up => 0,
        Keys::Down => 1,
        Keys::Left => 2,
        Keys::Right => 3,
    }
}

fn code_of(key: Keys) -> (c: u8)
    ensures
        c == key_code(key),
{
    match key {
        Keys::Up => 0,
        Keys::Down => 1,
        Keys::Left => 2,
        Keys::Right => 3,
    }
}

/// Which direction keys are held down.
pub struct PlayerComponent {
    pressed_keys: HashMap<u8, bool>,
}

impl PlayerComponent {
    /// Whether `key` is held down: what was last recorded for it, and `false` where
    /// nothing was.
    pub closed spec fn pressed(&self, key: Keys) -> bool {
        self.pressed_keys@.contains_key(key_code(key)) && self.pressed_keys@[key_code(key)]
    }

    /// No key held down.
    pub fn new() -> (p: PlayerComponent)
        ensures
            forall|key: Keys| !p.pressed(key),
    {
        PlayerComponent { pressed_keys: HashMap::new() }
    }

    /// Records that `key` is now held down, or no longer.
    pub fn set_key(&mut self, key: Keys, pressed: bool)
        ensures
            final(self).pressed(key) == pressed,
            forall|other: Keys| other != key ==> final(self).pressed(other) == old(self).pressed(other),
    {
        self.pressed_keys.insert(code_of(key), pressed);
    }

    /// Whether `key` is held down.
    pub fn get_key(&self, key: Keys) -> (down: bool)
        ensures
            down == self.pressed(key),
    {
        match self.pressed_keys.get(&code_of(key)) {
            Some(down) => *down,
            None => false,
        }
    }
}

} // verus!
