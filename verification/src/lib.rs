//! The simulation core of an arcade game: a player dodges and collects balls in a bounded
//! arena while decorations drift across it.
//!
//! Entities are plain identities (`storage`), their components live in one sparse storage
//! per kind (`world`), and a frame runs a fixed sequence of systems over the storages
//! (`frame`): the census of decorations (`population`), motion, the speed limit and respawn
//! (`game`), input (`input`), collision (`collision`) and orbits (`orbit`). Balls, the
//! player and the finale are put on stage by `spawner` and `scene`; `rendering` works out
//! what the picture needs; `sprite` caches loaded textures.
//!
//! All numbers are integers in fixed point (`fixed`, `vector`, `trig`): lengths in
//! thousandths of a game unit, angles in millionths of a radian, times in microseconds.
//! Every function is verified against its contract; the random draws and the clock are
//! the only things taken on trust (`random`, `spawner::clock_ns`, `sprite::share`).

pub mod fixed;
pub mod vector;
pub mod trig;
pub mod storage;
pub mod constants;
pub mod components;
pub mod player;
pub mod sprite;
pub mod world;
pub mod game;
pub mod collision;
pub mod random;
pub mod orbit;
pub mod population;
pub mod spawner;
pub mod input;
pub mod rendering;
pub mod scene;
pub mod frame;
