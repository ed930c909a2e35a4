//! Physics and state-transition core of a falling-fruit merge game.
//!
//! Round fruits drop under gravity into a walled pit, collide with the pit
//! walls and with each other, settle, and trigger the spawn of the next
//! fruit.  All motion uses a 24.8 fixed-point scalar so every run of the
//! simulation is bit-for-bit reproducible.  Rendering, input polling and the
//! hardware frame loop are outside this crate: each tick consumes a plain
//! [`world::Input`] intent and produces updated positions, velocities,
//! rotations and states that a presentation layer may read.

use vstd::prelude::*;

pub mod fixed;
pub mod fruit;
pub mod math_helpers;
pub mod physics;
pub mod world;

verus! {

/// Horizontal position of the left pit wall, in world units.
pub const WALL_L: i32 = 62;

/// Horizontal position of the right pit wall, in world units.
pub const WALL_R: i32 = 179;

/// Vertical position of the pit floor, in world units.
pub const FLOOR: i32 = 148;

/// Height of the visible play field, in world units.
pub const SCREEN_HEIGHT: i32 = 160;

/// Vertical position at which a newly spawned fruit is held.
pub const SPAWN_HEIGHT: i32 = 16;

/// Ticks of surface contact a falling fruit needs before it settles.
pub const SETTLE_TICKS: u32 = 300;

/// One tick of player intent: horizontal movement and the drop signal.
/// The drop signal is edge-triggered by the input layer: it is true only on
/// the tick the button first goes down.
#[derive(Clone, Copy, PartialEq, Eq, Structural, Debug)]
pub struct Input {
    pub move_left: bool,
    pub move_right: bool,
    pub drop: bool,
}

/// Net horizontal movement the input asks for; the two directions cancel.
pub open spec fn input_dx(input: Input) -> int {
    if input.move_left && input.move_right {
        0
    } else if input.move_left {
        -1
    } else if input.move_right {
        1
    } else {
        0
    }
}

} // verus!
