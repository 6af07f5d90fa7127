//! Constants of the fantasy console that the engine runs on: the button
//! bits of a gamepad byte and of the pointer, and the channel and duty-cycle
//! bits of a tone request.

use vstd::prelude::*;

verus! {

pub const BUTTON_1: u8 = 1;

pub const BUTTON_2: u8 = 2;

pub const BUTTON_LEFT: u8 = 16;

pub const BUTTON_RIGHT: u8 = 32;

pub const BUTTON_UP: u8 = 64;

pub const BUTTON_DOWN: u8 = 128;

/// The bit of the left button in the byte of the pointer's buttons.
pub const MOUSE_LEFT: u8 = 1;

pub const TONE_PULSE1: u32 = 0;

pub const TONE_PULSE2: u32 = 1;

pub const TONE_TRIANGLE: u32 = 2;

pub const TONE_NOISE: u32 = 3;

pub const TONE_MODE2: u32 = 4;

/// The frames that pass between two ticks of the music.
pub const FRAMES_PER_TICK: u16 = 7;

} // verus!
