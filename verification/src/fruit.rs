//! One falling fruit: its entity data and its three-state lifecycle
//! (held, falling, rolling).

use vstd::prelude::*;

use crate::fixed::clamp_raw;
use crate::fixed::Fixed;
use crate::fixed::Vec2;
use crate::fixed::Vec2i;
use crate::input_dx;
use crate::math_helpers::fvec;
use crate::math_helpers::fsplat;
use crate::physics::clamp;
use crate::physics::Circle;
use crate::physics::Velocity;
use crate::Input;
use crate::SCREEN_HEIGHT;
use crate::WALL_L;
use crate::WALL_R;

verus! {

/// Raw terminal speed (6 units/tick): gravity integration clamps each
/// velocity component to this magnitude.
pub const TERMINAL_VELOCITY_RAW: i64 = 1536;

/// Raw per-tick gravity, about 0.098 units/tick^2.
pub const GRAVITY_RAW: i64 = 25;

/// Presentation-only spin of one fruit.  `angle` is kept in `[0, 360)`
/// degrees; neither field affects the physics.
#[derive(Clone, Copy, PartialEq, Eq, Structural, Debug)]
pub struct Rotation {
    pub angle: Fixed,
    pub speed: Fixed,
}

/// Lifecycle state of one fruit.  A held fruit follows the player; a
/// falling fruit follows gravity and collisions; a rolling fruit has
/// settled and never falls or becomes held again.
#[derive(Clone, Copy, PartialEq, Eq, Structural, Debug)]
pub enum FruitState {
    Held,
    Falling,
    Rolling,
}

/// States only ever move forward, held before falling before rolling: a
/// rolling fruit never falls or becomes held again, and a falling fruit
/// never becomes held again.
pub open spec fn state_step_ok(pre: FruitState, post: FruitState) -> bool {
    match pre {
        FruitState::Held => true,
        FruitState::Falling => post is Falling || post is Rolling,
        FruitState::Rolling => post is Rolling,
    }
}

/// One round object in the pit.
pub struct Fruit {
    pub real_position: Vec2,
    pub radius: u8,
    pub rotation: Rotation,
    pub state: FruitState,
    pub velocity: Velocity,
    /// Indices of the partners whose pair was already resolved this tick.
    pub collided_with_fruits: Vec<usize>,
}

impl Fruit {
    /// The radius fits the pit and the collision solver.
    pub open spec fn radius_ok(self) -> bool {
        &&& 1 <= self.radius <= 32
        &&& WALL_L + self.radius <= WALL_R - self.radius
        &&& self.radius <= SCREEN_HEIGHT - self.radius
    }

    /// The centre lies inside the play area, adjusted by the radius.
    pub open spec fn in_bounds(self) -> bool {
        &&& 256 * (WALL_L + self.radius) <= self.real_position.x.raw <= 256 * (WALL_R
            - self.radius)
        &&& 256 * self.radius <= self.real_position.y.raw <= 256 * (SCREEN_HEIGHT - self.radius)
    }

    /// No velocity component exceeds the terminal speed.
    pub open spec fn vel_ok(self) -> bool {
        self.velocity.0.abs_le(TERMINAL_VELOCITY_RAW as int)
    }

    /// Every invariant of a live fruit: it fits the pit, sits inside it,
    /// respects the terminal speed, rests while held, and its spin angle
    /// stays inside one turn.
    pub open spec fn wf(self) -> bool {
        &&& self.radius_ok()
        &&& self.in_bounds()
        &&& self.vel_ok()
        &&& (self.state is Held ==> self.velocity.0.x.raw == 0 && self.velocity.0.y.raw == 0)
        &&& 0 <= self.rotation.angle.raw < 92160
    }

    /// The centre of the fruit.
    pub fn get_position(&self) -> (r: Vec2)
        ensures
            r == self.real_position,
    {
        self.real_position
    }

    /// Moves the fruit to `position`, forced back inside the play area
    /// adjusted by the radius; no other field changes.
    pub fn set_position(&mut self, position: Vec2)
        requires
            old(self).radius_ok(),
            position.abs_le(0x1000_0000_0000),
        ensures
            final (self).real_position.x.raw == clamp_raw(
                position.x.raw as int,
                256 * (WALL_L + old(self).radius),
                256 * (WALL_R - old(self).radius),
            ),
            final (self).real_position.y.raw == clamp_raw(
                position.y.raw as int,
                256 * old(self).radius,
                256 * (SCREEN_HEIGHT - old(self).radius),
            ),
            final (self).in_bounds(),
            final (self).radius == old(self).radius,
            final (self).rotation == old(self).rotation,
            final (self).state == old(self).state,
            final (self).velocity == old(self).velocity,
            final (self).collided_with_fruits@ == old(self).collided_with_fruits@,
    {
        let r = self.radius as i32;
        self.real_position = clamp(
            position,
            fvec(WALL_L + r, r),
            fvec(WALL_R - r, SCREEN_HEIGHT - r),
        );
    }

    /// The collision snapshot of this fruit.
    pub fn circle(&self) -> (r: Circle)
        ensures
            r.position == self.real_position,
            r.radius == self.radius as int,
            r.velocity == self.velocity,
    {
        Circle {
            position: self.get_position(),
            radius: self.radius as i32,
            velocity: self.velocity,
        }
    }

    /// Applies one tick of player input: the aim cursor moves by the net
    /// input direction, and a held fruit starts falling on the drop signal.
    pub fn control(&mut self, input: Input, position: &mut Vec2i)
        requires
            i32::MIN < old(position).x - 1 && old(position).x + 1 < i32::MAX,
        ensures
            final (position).x == old(position).x + input_dx(input),
            final (position).y == old(position).y,
            final (self).state == (if old(self).state is Held && input.drop {
                FruitState::Falling
            } else {
                old(self).state
            }),
            final (self).real_position == old(self).real_position,
            final (self).radius == old(self).radius,
            final (self).rotation == old(self).rotation,
            final (self).velocity == old(self).velocity,
            final (self).collided_with_fruits@ == old(self).collided_with_fruits@,
    {
        if !(input.move_left && input.move_right) {
            if input.move_left {
                position.x = position.x - 1;
            }
            if input.move_right {
                position.x = position.x + 1;
            }
        }
        if self.state == FruitState::Held {
            if input.drop {
                self.state = FruitState::Falling;
            }
        }
    }

    /// One tick of free motion.  A fruit that is not held takes gravity,
    /// each velocity component is clamped to the terminal speed, and it
    /// moves by the new velocity (forced back inside the play area).  A
    /// held fruit instead follows the horizontal input — one unit per
    /// pressed direction, both at once cancelling — within the walls, and
    /// it rests: its velocity stays zero.  A held fruit that receives the
    /// drop signal starts falling but does not move until the next tick.
    pub fn move_and_rotate(&mut self, input: Option<Input>)
        requires
            old(self).radius_ok(),
            old(self).real_position.abs_le(0x10_0000),
            old(self).velocity.0.abs_le(0x1000_0000),
        ensures
            ({
                let held = old(self).state is Held;
                let dropped = held && match input {
                    Some(i) => i.drop,
                    None => false,
                };
                let vx = if held {
                    0int
                } else {
                    clamp_raw(old(self).velocity.0.x.raw as int, -1536, 1536)
                };
                let vy = if held {
                    0int
                } else {
                    clamp_raw(old(self).velocity.0.y.raw as int + GRAVITY_RAW, -1536, 1536)
                };
                let step_x = if held {
                    match input {
                        Some(i) => if i.drop {
                            0int
                        } else {
                            256 * input_dx(i)
                        },
                        None => 0int,
                    }
                } else {
                    vx
                };
                &&& final (self).velocity.0.x.raw == vx
                &&& final (self).velocity.0.y.raw == vy
                &&& final (self).real_position.x.raw == clamp_raw(
                    old(self).real_position.x.raw + step_x,
                    256 * (WALL_L + old(self).radius),
                    256 * (WALL_R - old(self).radius),
                )
                &&& final (self).real_position.y.raw == clamp_raw(
                    old(self).real_position.y.raw + vy,
                    256 * old(self).radius,
                    256 * (SCREEN_HEIGHT - old(self).radius),
                )
                &&& final (self).state == (if dropped {
                    FruitState::Falling
                } else {
                    old(self).state
                })
            }),
            final (self).radius == old(self).radius,
            final (self).rotation == old(self).rotation,
            final (self).collided_with_fruits@ == old(self).collided_with_fruits@,
    {
        if self.state == FruitState::Held {
            let step: Vec2 = match input {
                Some(i) => {
                    if i.drop {
                        self.state = FruitState::Falling;
                        fsplat(0)
                    } else {
                        let dx: i32 = if i.move_left && i.move_right {
                            0
                        } else if i.move_left {
                            -1
                        } else if i.move_right {
                            1
                        } else {
                            0
                        };
                        fvec(dx, 0)
                    }
                },
                None => fsplat(0),
            };
            self.velocity = Velocity(fsplat(0));
            let target = self.get_position().add(step);
            self.set_position(target);
        } else {
            let velocity = integrate_velocity(self.velocity.0);
            self.velocity = Velocity(velocity);
            let target = self.get_position().add(velocity);
            self.set_position(target);
        }
    }
}

/// One tick of gravity, each component clamped to the terminal speed.
pub fn integrate_velocity(v: Vec2) -> (r: Vec2)
    requires
        v.abs_le(0x1000_0000),
    ensures
        r.x.raw == clamp_raw(v.x.raw as int, -1536, 1536),
        r.y.raw == clamp_raw(v.y.raw as int + GRAVITY_RAW, -1536, 1536),
        r.abs_le(1536),
{
    let pulled = v.add(Vec2 { x: Fixed { raw: 0 }, y: Fixed { raw: GRAVITY_RAW } });
    clamp(pulled, fsplat(-6), fsplat(6))
}

} // verus!
