//! The core of a small space game for a fantasy console with a screen of
//! 160 by 160 pixels in four colours: a ship among planets that pull at it,
//! stars behind them, particles, and a bit of music.
//!
//! All of it is integer code. Single-precision data are held by their bits
//! (`single::F32`), and their arithmetic is proved to round as IEEE 754
//! asks (`ieee`, `rounding`, `arith`, `convert`, `ops`, `bounds`). On that stand the
//! math kernel and the geometry (`common`), the dithering rasterizer
//! (`gfx`), the bodies (`particle`, `player`) and the world that steps and
//! draws them (`world`). `arrangement` is the music, and `game` plays one
//! frame of it all. `storage` and `random` hold what the library takes on
//! trust from the crates `heapless` and `oorandom`.

pub mod ieee;
pub mod rounding;
pub mod single;
pub mod arith;
pub mod convert;
pub mod ops;
pub mod bounds;
pub mod console;
pub mod storage;
pub mod random;
pub mod arrangement;
pub mod common;
pub mod gfx;
pub mod particle;
pub mod player;
pub mod world;
pub mod game;
