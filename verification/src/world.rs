//! The world: the fruits in spawn order, the aim cursor, the settling
//! countdown, and the per-tick simulation step that drives them.

use vstd::prelude::*;

use crate::fixed::clamp_raw;
use crate::fixed::fdiv;
use crate::fixed::fmul;
use crate::fixed::fsqrt;
use crate::fixed::lemma_fmul_bound;
use crate::fixed::lemma_sqrt_le;
use crate::fixed::lemma_tdiv_abs_le;
use crate::fixed::Fixed;
use crate::fixed::Vec2;
use crate::fixed::Vec2i;
use crate::fruit::state_step_ok;
use crate::fruit::Fruit;
use crate::fruit::FruitState;
use crate::fruit::Rotation;
use crate::fruit::integrate_velocity;
use crate::fruit::GRAVITY_RAW;
use crate::input_dx;
use crate::math_helpers::fvec;
use crate::math_helpers::iclamp;
use crate::physics::clamp;
use crate::physics::Ball;
use crate::physics::Circle;
use crate::physics::Velocity;
use crate::Input;
use crate::SCREEN_HEIGHT;
use crate::SETTLE_TICKS;
use crate::SPAWN_HEIGHT;
use crate::WALL_L;
use crate::WALL_R;

verus! {

/// Raw horizontal friction factor, about 0.98.
pub const FRICTION_RAW: i64 = 251;

/// Raw damped-bounce factor, -0.25 exactly.
pub const BOUNCE_RAW: i64 = -64;

/// Raw snap threshold, about 0.2: a bounced component at most this large
/// is zeroed to stop endless micro-bouncing.
pub const SNAP_RAW: i64 = 51;

/// Raw lower clamp of the separation impulse, about 0.01.
pub const PROPULSION_MIN_RAW: i64 = 3;

/// Raw upper clamp of the separation impulse, 1.0 exactly.
pub const PROPULSION_MAX_RAW: i64 = 256;

/// A positional correction in whole units.
#[derive(Clone, Copy, PartialEq, Eq, Structural, Debug)]
pub struct Nudge(pub Vec2i);

/// The whole game world.
pub struct State {
    /// Where the next fruit will be dropped; follows the input each tick.
    pub cursor_position: Vec2i,
    /// All fruits, in spawn order; nothing is ever removed.
    pub fruits: Vec<Fruit>,
    /// The most recently spawned fruit, which gates the next spawn;
    /// `None` before the first spawn.
    pub active_index: Option<usize>,
    /// Remaining ticks of surface contact before the falling fruit settles.
    pub settle_timer: u32,
}

impl State {
    /// The world invariant: the aim stays where a fruit fits, and every
    /// fruit satisfies its own invariant.
    pub open spec fn wf(self) -> bool {
        &&& WALL_L + 8 <= self.cursor_position.x <= WALL_R - 8
        &&& forall|k: int|
            0 <= k < self.fruits@.len() ==> (#[trigger] self.fruits@[k]).wf()
    }

    /// An empty world with the aim centred over the pit.
    pub fn new() -> (r: State)
        ensures
            r.wf(),
            r.fruits@.len() == 0,
            r.active_index is None,
            r.settle_timer == SETTLE_TICKS,
            r.cursor_position.x == 90 && r.cursor_position.y == 30,
    {
        State {
            cursor_position: Vec2i { x: 90, y: 30 },
            fruits: Vec::new(),
            active_index: None,
            settle_timer: SETTLE_TICKS,
        }
    }

    /// Spawns one fruit: held, at rest, radius 8, at `position`, appended
    /// after all existing fruits; the new fruit becomes the active one.
    /// This is the only way a fruit ever enters the world.
    pub fn new_fruit(&mut self, position: Vec2i) -> (index: usize)
        requires
            WALL_L + 8 <= position.x <= WALL_R - 8,
            8 <= position.y <= SCREEN_HEIGHT - 8,
            old(self).fruits@.len() < 0x1000_0000,
        ensures
            index == old(self).fruits@.len(),
            final (self).fruits@.len() == old(self).fruits@.len() + 1,
            forall|k: int|
                0 <= k < old(self).fruits@.len() ==> final (self).fruits@[k] == old(
                    self,
                ).fruits@[k],
            ({
                let f = final (self).fruits@[index as int];
                &&& f.real_position.x.raw == 256 * position.x
                &&& f.real_position.y.raw == 256 * position.y
                &&& f.radius == 8
                &&& f.state is Held
                &&& f.velocity.0.x.raw == 0 && f.velocity.0.y.raw == 0
                &&& f.rotation.angle.raw == 0
                &&& f.rotation.speed.raw == -2880
                &&& f.collided_with_fruits@ =~= Seq::<usize>::empty()
                &&& f.wf()
            }),
            final (self).active_index == Some(index),
            final (self).cursor_position == old(self).cursor_position,
            final (self).settle_timer == old(self).settle_timer,
            old(self).wf() ==> final (self).wf(),
    {
        let new_fruit = Fruit {
            real_position: fvec(position.x, position.y),
            radius: 8,
            // One rotation frame per tick of steady spin, kept only for
            // the presentation layer.
            rotation: Rotation { angle: Fixed { raw: 0 }, speed: Fixed { raw: -2880 } },
            state: FruitState::Held,
            velocity: Velocity(Vec2::zero()),
            collided_with_fruits: Vec::new(),
        };
        let index = self.fruits.len();
        self.fruits.push(new_fruit);
        self.active_index = Some(index);
        index
    }
}

/// Raw horizontal outcome of the wall response: floor contact applies
/// friction, side-wall contact applies the damped bounce and the snap
/// threshold.
pub open spec fn wall_response_x(vx: int, nx: int, ny: int) -> int {
    let after_floor = if ny != 0 {
        fmul(vx, FRICTION_RAW as int)
    } else {
        vx
    };
    if nx != 0 {
        let bounced = fmul(after_floor, BOUNCE_RAW as int);
        if -SNAP_RAW <= bounced <= SNAP_RAW {
            0
        } else {
            bounced
        }
    } else {
        after_floor
    }
}

/// Raw vertical outcome of the wall response: floor contact applies the
/// damped bounce and the snap threshold.
pub open spec fn wall_response_y(vy: int, ny: int) -> int {
    if ny != 0 {
        let bounced = fmul(vy, BOUNCE_RAW as int);
        if -SNAP_RAW <= bounced <= SNAP_RAW {
            0
        } else {
            bounced
        }
    } else {
        vy
    }
}

/// Applies the play-area correction `nudge` to the velocity `v`: floor
/// contact rubs off horizontal speed and turns the fall into a damped
/// bounce; side-wall contact damps the horizontal speed; a bounced
/// component at most the snap threshold is zeroed.
pub fn wall_response(v: Vec2, nudge: Option<Vec2>) -> (r: Vec2)
    requires
        v.abs_le(1536),
    ensures
        ({
            match nudge {
                None => r == v,
                Some(ng) => r.x.raw == wall_response_x(
                    v.x.raw as int,
                    ng.x.raw as int,
                    ng.y.raw as int,
                ) && r.y.raw == wall_response_y(v.y.raw as int, ng.y.raw as int),
            }
        }),
        r.abs_le(1536),
{
    match nudge {
        None => v,
        Some(ng) => {
            let mut out = v;
            proof {
                lemma_fmul_bound(out.x.raw as int, FRICTION_RAW as int, 1536, 251);
            }
            if ng.y.raw != 0 {
                out.x = out.x.mul(Fixed { raw: FRICTION_RAW });
                proof {
                    lemma_fmul_bound(v.y.raw as int, BOUNCE_RAW as int, 1536, 64);
                }
                out.y = out.y.mul(Fixed { raw: BOUNCE_RAW });
                if -SNAP_RAW <= out.y.raw && out.y.raw <= SNAP_RAW {
                    out.y = Fixed { raw: 0 };
                }
            }
            if ng.x.raw != 0 {
                proof {
                    lemma_fmul_bound(out.x.raw as int, BOUNCE_RAW as int, 1536, 64);
                }
                out.x = out.x.mul(Fixed { raw: BOUNCE_RAW });
                if -SNAP_RAW <= out.x.raw && out.x.raw <= SNAP_RAW {
                    out.x = Fixed { raw: 0 };
                }
            }
            out
        },
    }
}

/// Raw separation impulse for a pair whose entry time `t` is not ahead:
/// `|t / 4|`, clamped into `[0.01, 1.0]`.
pub open spec fn spec_propulsion(t: int) -> int {
    clamp_raw(
        vstd::math::abs(fdiv(t, 1024)) as int,
        PROPULSION_MIN_RAW as int,
        PROPULSION_MAX_RAW as int,
    )
}

/// The two velocities after one pair of fruits is resolved; `.0` belongs
/// to the fruit at `pos_a`, `.1` to the fruit at `pos_b`.
pub open spec fn spec_resolve_pair(
    pos_a: Vec2,
    rad_a: int,
    v_a: Vec2,
    pos_b: Vec2,
    rad_b: int,
    v_b: Vec2,
) -> (Vec2, Vec2) {
    let ca = Circle {
        position: pos_a,
        radius: rad_a as i32,
        velocity: Velocity(v_a),
    };
    let cb = Circle {
        position: pos_b,
        radius: rad_b as i32,
        velocity: Velocity(v_b),
    };
    let t = Ball::spec_time_to_collision(
        Ball {
            x: pos_b.x,
            y: pos_b.y,
            xvel: v_b.x,
            yvel: v_b.y,
            radius: Fixed { raw: (256 * rad_b) as i64 },
        },
        Ball {
            x: pos_a.x,
            y: pos_a.y,
            xvel: v_a.x,
            yvel: v_a.y,
            radius: Fixed { raw: (256 * rad_a) as i64 },
        },
    );
    if Circle::spec_overlap(ca, cb) > 0 {
        if t <= 0 {
            let dx = pos_b.x.raw - pos_a.x.raw;
            let dy = pos_b.y.raw - pos_a.y.raw;
            let msq = Vec2::spec_magnitude_squared(dx, dy);
            if msq > 0 {
                let m = fsqrt(msq);
                let p = spec_propulsion(t);
                let wbx = fmul(fdiv(dx, m), p);
                let wby = fmul(fdiv(dy, m), p);
                (crate::fixed::vec_raw(-wbx, -wby), crate::fixed::vec_raw(wbx, wby))
            } else {
                // Coincident centres: no direction, no correction.
                (v_a, v_b)
            }
        } else if t < 256 {
            (
                crate::fixed::vec_raw(fmul(v_a.x.raw as int, t), fmul(v_a.y.raw as int, t)),
                crate::fixed::vec_raw(fmul(v_b.x.raw as int, t), fmul(v_b.y.raw as int, t)),
            )
        } else {
            (v_a, v_b)
        }
    } else {
        let dvx = v_b.x.raw - v_a.x.raw;
        let dvy = v_b.y.raw - v_a.y.raw;
        let dx = pos_b.x.raw - pos_a.x.raw;
        let dy = pos_b.y.raw - pos_a.y.raw;
        if crate::physics::quad_a(dvx, dvy) != 0 && crate::physics::quad_b(dx, dy, dvx, dvy) < 0
            && 0 <= t < 256 {
            (
                crate::fixed::vec_raw(fmul(v_a.x.raw as int, t), fmul(v_a.y.raw as int, t)),
                crate::fixed::vec_raw(fmul(v_b.x.raw as int, t), fmul(v_b.y.raw as int, t)),
            )
        } else {
            (v_a, v_b)
        }
    }
}

/// Resolves one unordered pair of fruits, once per tick.  Overlapping
/// fruits whose entry time is not ahead get the symmetric opposing
/// impulse along the centre line (a deliberate approximation, not an
/// elastic bounce); a pair that is genuinely approaching — in relative
/// motion that closes along the centre line — and would first touch
/// within this tick has both velocities scaled down to the touching
/// point, so fast neighbours never tunnel through each other.  A pair
/// that is not approaching is left alone: the degenerate zero entry
/// time of no relative motion or a missed course is not an approach.
pub fn resolve_pair(pos_a: Vec2, rad_a: i32, v_a: Vec2, pos_b: Vec2, rad_b: i32, v_b: Vec2) -> (r:
    (Vec2, Vec2))
    requires
        pos_a.abs_le(0x10_0000),
        pos_b.abs_le(0x10_0000),
        1 <= rad_a <= 32,
        1 <= rad_b <= 32,
        v_a.abs_le(1536),
        v_b.abs_le(1536),
    ensures
        r == spec_resolve_pair(pos_a, rad_a as int, v_a, pos_b, rad_b as int, v_b),
        r.0.abs_le(1536),
        r.1.abs_le(1536),
{
    let ca = Circle { position: pos_a, radius: rad_a, velocity: Velocity(v_a) };
    let cb = Circle { position: pos_b, radius: rad_b, velocity: Velocity(v_b) };
    let ball_a = Ball::from_circle(ca);
    let ball_b = Ball::from_circle(cb);
    let t = ball_b.time_to_collision(&ball_a);
    let intersecting = ca.intersects(cb);
    if intersecting {
        if t.raw <= 0 {
            let d = pos_b.sub(pos_a);
            proof {
                lemma_fmul_bound(d.x.raw as int, d.x.raw as int, 0x20_0000, 0x20_0000);
                lemma_fmul_bound(d.y.raw as int, d.y.raw as int, 0x20_0000, 0x20_0000);
            }
            let msq = d.magnitude_squared();
            if msq.raw > 0 {
                let quarter = t.div(Fixed::from_int(4));
                let p0 = quarter.abs();
                let p = if p0.raw < PROPULSION_MIN_RAW {
                    Fixed { raw: PROPULSION_MIN_RAW }
                } else if p0.raw > PROPULSION_MAX_RAW {
                    Fixed { raw: PROPULSION_MAX_RAW }
                } else {
                    p0
                };
                let dir = d.normalise();
                proof {
                    lemma_fmul_bound(dir.x.raw as int, p.raw as int, 512, 256);
                    lemma_fmul_bound(dir.y.raw as int, p.raw as int, 512, 256);
                    lemma_tdiv_abs_le(t.raw as int * 256, 1024);
                }
                let w_b = dir.scale(p);
                let w_a = Vec2 { x: w_b.x.neg(), y: w_b.y.neg() };
                (w_a, w_b)
            } else {
                (v_a, v_b)
            }
        } else if t.raw < 256 {
            proof {
                lemma_fmul_bound(v_a.x.raw as int, t.raw as int, 1536, 256);
                lemma_fmul_bound(v_a.y.raw as int, t.raw as int, 1536, 256);
                lemma_fmul_bound(v_b.x.raw as int, t.raw as int, 1536, 256);
                lemma_fmul_bound(v_b.y.raw as int, t.raw as int, 1536, 256);
            }
            (v_a.scale(t), v_b.scale(t))
        } else {
            (v_a, v_b)
        }
    } else {
        let dvx = v_b.x.sub(v_a.x);
        let dvy = v_b.y.sub(v_a.y);
        let dx = pos_b.x.sub(pos_a.x);
        let dy = pos_b.y.sub(pos_a.y);
        proof {
            lemma_fmul_bound(dvx.raw as int, dvx.raw as int, 0x1000, 0x1000);
            lemma_fmul_bound(dvy.raw as int, dvy.raw as int, 0x1000, 0x1000);
            lemma_fmul_bound(dx.raw as int, dvx.raw as int, 0x20_0000, 0x1000);
            lemma_fmul_bound(dy.raw as int, dvy.raw as int, 0x20_0000, 0x1000);
        }
        let qa = crate::math_helpers::sq(dvx).add(crate::math_helpers::sq(dvy));
        let inner = dx.mul(dvx).add(dy.mul(dvy));
        proof {
            lemma_fmul_bound(512, inner.raw as int, 512, 0x800_0000);
        }
        let qb = Fixed::from_int(2).mul(inner);
        if qa.raw != 0 && qb.raw < 0 && t.raw >= 0 && t.raw < 256 {
            proof {
                lemma_fmul_bound(v_a.x.raw as int, t.raw as int, 1536, 256);
                lemma_fmul_bound(v_a.y.raw as int, t.raw as int, 1536, 256);
                lemma_fmul_bound(v_b.x.raw as int, t.raw as int, 1536, 256);
                lemma_fmul_bound(v_b.y.raw as int, t.raw as int, 1536, 256);
            }
            (v_a.scale(t), v_b.scale(t))
        } else {
            (v_a, v_b)
        }
    }
}


/// Raw spin angle after one tick: still fruits do not spin; a moving
/// fruit turns by three times its speed, rolling with its horizontal
/// direction, and the angle is kept inside one turn (360 degrees is raw
/// 92160).
pub open spec fn spec_rotate_angle(angle: int, vx: int, vy: int) -> int {
    if vx == 0 && vy == 0 {
        angle
    } else {
        let mag = fsqrt(Vec2::spec_magnitude_squared(vx, vy));
        let spin = fmul(mag, 768);
        let delta = if vx < 0 {
            spin
        } else {
            -spin
        };
        (angle + delta) % 92160
    }
}

/// Wraps a raw angle into `[0, 360)` degrees.
fn wrap_angle(a: Fixed) -> (r: Fixed)
    requires
        a.abs_le(0x1_0000_0000),
    ensures
        r.raw == a.raw as int % 92160,
{
    if a.raw >= 0 {
        Fixed { raw: ((a.raw as u64) % 92160) as i64 }
    } else {
        let m: u64 = ((-a.raw) as u64) % 92160;
        proof {
            assert((a.raw as int) % 92160 == (if m == 0 {
                0int
            } else {
                92160 - m
            })) by (nonlinear_arith)
                requires
                    a.raw < 0,
                    m == (-(a.raw as int)) % 92160,
            ;
        }
        if m == 0 {
            Fixed { raw: 0 }
        } else {
            Fixed { raw: 92160 - (m as i64) }
        }
    }
}

/// Advances the spin of one fruit by its velocity for this tick.
pub fn rotate_step(rot: Rotation, v: Vec2) -> (r: Rotation)
    requires
        v.abs_le(1536),
        0 <= rot.angle.raw < 92160,
    ensures
        r.speed == rot.speed,
        r.angle.raw == spec_rotate_angle(rot.angle.raw as int, v.x.raw as int, v.y.raw as int),
        0 <= r.angle.raw < 92160,
{
    if v.x.raw == 0 && v.y.raw == 0 {
        rot
    } else {
        proof {
            lemma_fmul_bound(v.x.raw as int, v.x.raw as int, 1536, 1536);
            lemma_fmul_bound(v.y.raw as int, v.y.raw as int, 1536, 1536);
        }
        let mag = v.magnitude();
        proof {
            lemma_sqrt_le(
                Vec2::spec_magnitude_squared(v.x.raw as int, v.y.raw as int) * 256,
                mag.raw as int,
                0x4000,
            );
            lemma_fmul_bound(mag.raw as int, 768, 0x4000, 768);
        }
        let spin = mag.mul(Fixed { raw: 768 });
        let delta = if v.x.raw < 0 {
            spin
        } else {
            spin.neg()
        };
        let angle = wrap_angle(rot.angle.add(delta));
        proof {
            vstd::arithmetic::div_mod::lemma_mod_division_less_than_divisor(
                rot.angle.raw + delta.raw,
                92160,
            );
        }
        Rotation { angle, speed: rot.speed }
    }
}

/// Which of the 32 rotation frames shows a fruit at `angle` degrees:
/// `floor(angle / 11.25)`, taken modulo 32 so the result is never
/// negative.  Purely presentational; never feeds back into the physics.
pub open spec fn spec_rotation_frame_index(raw: int) -> int {
    (raw / 2880) % 32
}

/// Picks the rotation frame for `angle`; always one of the 32 frames.
pub fn rotation_frame_index(angle: Fixed) -> (r: usize)
    requires
        angle.abs_le(0x1_0000_0000),
    ensures
        r == spec_rotation_frame_index(angle.raw as int),
        r < 32,
{
    let w = wrap_angle(angle);
    proof {
        vstd::arithmetic::div_mod::lemma_mod_division_less_than_divisor(angle.raw as int, 92160);
        vstd::arithmetic::div_mod::lemma_mod_bound(angle.raw as int, 92160);
        lemma_frame_of_wrapped(angle.raw as int);
    }
    let idx = ((w.raw as u64) / 2880) % 32;
    idx as usize
}

/// The frame index only depends on the angle modulo one turn.
proof fn lemma_frame_of_wrapped(raw: int)
    ensures
        spec_rotation_frame_index(raw % 92160) == spec_rotation_frame_index(raw),
{
    let k = raw / 92160;
    let w = raw % 92160;
    vstd::arithmetic::div_mod::lemma_fundamental_div_mod(raw, 92160);
    assert(raw == 92160 * k + w);
    assert(raw / 2880 == 32 * k + w / 2880) by {
        vstd::arithmetic::div_mod::lemma_hoist_over_denominator(w, 32 * k, 2880nat);
        assert(w / 2880 + 32 * k == (w + 32 * k * 2880) / 2880);
        assert(w + 32 * k * 2880 == raw) by (nonlinear_arith)
            requires
                raw == 92160 * k + w,
        ;
    }
    assert((32 * k + w / 2880) % 32 == (w / 2880) % 32) by {
        vstd::arithmetic::div_mod::lemma_mod_multiples_vanish(k, w / 2880, 32);
    }
}


/// What one tick does to a fruit that is held when the tick starts: on
/// the drop signal it starts falling where it is and rests until the next
/// tick; otherwise it slides by the net input direction and is forced
/// back inside the play area.  Its velocity stays zero either way, and
/// its collision set is cleared.
pub open spec fn held_step_rel(pre: Fruit, post: Fruit, input: Input) -> bool {
    &&& post.radius == pre.radius
    &&& post.rotation == pre.rotation
    &&& post.velocity == pre.velocity
    &&& post.collided_with_fruits@.len() == 0
    &&& if input.drop {
        &&& post.state is Falling
        &&& post.real_position == pre.real_position
    } else {
        &&& post.state is Held
        &&& post.real_position.x.raw == clamp_raw(
            pre.real_position.x.raw + 256 * input_dx(input),
            256 * (WALL_L + pre.radius),
            256 * (WALL_R - pre.radius),
        )
        &&& post.real_position.y.raw == clamp_raw(
            pre.real_position.y.raw as int,
            256 * pre.radius,
            256 * (SCREEN_HEIGHT - pre.radius),
        )
    }
}

/// Every fruit of `fruits` except the one at `k` is held, so the fruit
/// at `k` meets no collision partner and no other fruit touches the
/// settling timer before its turn.
pub open spec fn lone_at(fruits: Seq<Fruit>, k: int) -> bool {
    forall|j: int| 0 <= j < fruits.len() && j != k ==> (#[trigger] fruits[j]).state is Held
}

/// The exact physics step of a loose fruit that meets no partner, with
/// the settling timer standing at `timer_pre` when its turn comes:
/// gravity clamped to the terminal speed, then the wall response, then
/// rolling friction, then the contact-gated settling countdown, then the
/// move (forced back inside the play area) and the spin.
pub open spec fn free_step_rel(pre: Fruit, post: Fruit, timer_pre: u32) -> bool {
    let vx1 = clamp_raw(pre.velocity.0.x.raw as int, -1536, 1536);
    let vy1 = clamp_raw(pre.velocity.0.y.raw as int + GRAVITY_RAW, -1536, 1536);
    let nudge = Circle {
        position: pre.real_position,
        radius: pre.radius as i32,
        velocity: pre.velocity,
    }.spec_in_playfield();
    let vx2 = match nudge {
        Some(ng) => wall_response_x(vx1, ng.x.raw as int, ng.y.raw as int),
        None => vx1,
    };
    let vy2 = match nudge {
        Some(ng) => wall_response_y(vy1, ng.y.raw as int),
        None => vy1,
    };
    let vx3 = if pre.state is Rolling {
        fmul(vx2, FRICTION_RAW as int)
    } else {
        vx2
    };
    let contact = nudge is Some && pre.state is Falling;
    let timer_out = if contact && timer_pre > 0 {
        (timer_pre - 1) as u32
    } else {
        timer_pre
    };
    let settled = contact && timer_out == 0;
    &&& post.state == (if settled {
        FruitState::Rolling
    } else {
        pre.state
    })
    &&& post.velocity.0.x.raw == vx3
    &&& post.velocity.0.y.raw == vy2
    &&& post.real_position.x.raw == clamp_raw(
        pre.real_position.x.raw + vx3,
        256 * (WALL_L + pre.radius),
        256 * (WALL_R - pre.radius),
    )
    &&& post.real_position.y.raw == clamp_raw(
        pre.real_position.y.raw + vy2,
        256 * pre.radius,
        256 * (SCREEN_HEIGHT - pre.radius),
    )
    &&& post.rotation.angle.raw == spec_rotate_angle(pre.rotation.angle.raw as int, vx3, vy2)
    &&& post.rotation.speed == pre.rotation.speed
    &&& post.radius == pre.radius
    &&& post.collided_with_fruits@.len() == 0
}

/// Every fruit before `k` is held, so the fruit at `k` is the first one
/// the physics pass works on: nothing has yet touched its velocity, the
/// settling timer, or the velocities of its partners.
pub open spec fn held_before(fruits: Seq<Fruit>, k: int) -> bool {
    forall|j: int| 0 <= j < k ==> (#[trigger] fruits[j]).state is Held
}

/// The working velocity of the fruit at `pos` with radius `rad` after
/// its pairs with the unheld fruits at `j..` are resolved in spawn
/// order, each partner still carrying its start-of-tick velocity.
pub open spec fn resolve_chain(pos: Vec2, rad: int, v: Vec2, fruits: Seq<Fruit>, j: int) -> Vec2
    decreases fruits.len() - j,
{
    if j < 0 || j >= fruits.len() {
        v
    } else {
        let v2 = if fruits[j].state is Held {
            v
        } else {
            spec_resolve_pair(
                pos,
                rad,
                v,
                fruits[j].real_position,
                fruits[j].radius as int,
                fruits[j].velocity.0,
            ).0
        };
        resolve_chain(pos, rad, v2, fruits, j + 1)
    }
}

/// The exact physics step of the first loose fruit of the pass (the one
/// at `k`, with every earlier fruit held), with the settling timer at
/// `timer_pre` when its turn comes: gravity clamped to the terminal
/// speed, the wall response, the fold of its pair impulses over all
/// later unheld neighbours, rolling friction, the contact-gated settling
/// countdown, the move (forced back inside the play area) and the spin.
pub open spec fn first_loose_step_rel(
    fruits: Seq<Fruit>,
    k: int,
    post: Fruit,
    timer_pre: u32,
) -> bool {
    let pre = fruits[k];
    let vx1 = clamp_raw(pre.velocity.0.x.raw as int, -1536, 1536);
    let vy1 = clamp_raw(pre.velocity.0.y.raw as int + GRAVITY_RAW, -1536, 1536);
    let nudge = Circle {
        position: pre.real_position,
        radius: pre.radius as i32,
        velocity: pre.velocity,
    }.spec_in_playfield();
    let vx2 = match nudge {
        Some(ng) => wall_response_x(vx1, ng.x.raw as int, ng.y.raw as int),
        None => vx1,
    };
    let vy2 = match nudge {
        Some(ng) => wall_response_y(vy1, ng.y.raw as int),
        None => vy1,
    };
    let vch = resolve_chain(
        pre.real_position,
        pre.radius as int,
        crate::fixed::vec_raw(vx2, vy2),
        fruits,
        k + 1,
    );
    let vx3 = if pre.state is Rolling {
        fmul(vch.x.raw as int, FRICTION_RAW as int)
    } else {
        vch.x.raw as int
    };
    let vy3 = vch.y.raw as int;
    let contact = nudge is Some && pre.state is Falling;
    let timer_out = if contact && timer_pre > 0 {
        (timer_pre - 1) as u32
    } else {
        timer_pre
    };
    let settled = contact && timer_out == 0;
    &&& post.state == (if settled {
        FruitState::Rolling
    } else {
        pre.state
    })
    &&& post.velocity.0.x.raw == vx3
    &&& post.velocity.0.y.raw == vy3
    &&& post.real_position.x.raw == clamp_raw(
        pre.real_position.x.raw + vx3,
        256 * (WALL_L + pre.radius),
        256 * (WALL_R - pre.radius),
    )
    &&& post.real_position.y.raw == clamp_raw(
        pre.real_position.y.raw + vy3,
        256 * pre.radius,
        256 * (SCREEN_HEIGHT - pre.radius),
    )
    &&& post.rotation.angle.raw == spec_rotate_angle(pre.rotation.angle.raw as int, vx3, vy3)
    &&& post.rotation.speed == pre.rotation.speed
    &&& post.radius == pre.radius
}

/// A fruit whose collision set was cleared for the new tick, nothing else.
spec fn cleared_rel(pre: Fruit, post: Fruit) -> bool {
    &&& post.real_position == pre.real_position
    &&& post.radius == pre.radius
    &&& post.rotation == pre.rotation
    &&& post.state == pre.state
    &&& post.velocity == pre.velocity
    &&& post.collided_with_fruits@.len() == 0
}

/// The fruit touches a play-area boundary where it stands.
pub open spec fn wall_contact(f: Fruit) -> bool {
    Circle {
        position: f.real_position,
        radius: f.radius as i32,
        velocity: f.velocity,
    }.spec_in_playfield() is Some
}

/// How many of the first `k` fruits count the settling timer down this
/// tick: the ones that start the tick falling and in wall contact.
pub open spec fn contacts_until(fruits: Seq<Fruit>, k: int) -> int
    decreases k,
{
    if k <= 0 {
        0
    } else {
        contacts_until(fruits, k - 1) + if fruits[k - 1].state is Falling && wall_contact(
            fruits[k - 1],
        ) {
            1int
        } else {
            0int
        }
    }
}

/// The settling timer after the first `k` fruits took their turn,
/// starting from `t0`: one decrement per falling fruit in wall contact,
/// stopping at zero.
pub open spec fn timer_at(fruits: Seq<Fruit>, t0: u32, k: int) -> int {
    if t0 - contacts_until(fruits, k) >= 0 {
        t0 - contacts_until(fruits, k)
    } else {
        0
    }
}

/// A fruit the main pass has finished with: its shape is unchanged, its
/// state only moved forward, a fruit that started the tick held followed
/// the input exactly, and a loose fruit moved exactly once — by the
/// velocity it carries out of the tick, forced back inside the play area
/// — spun by that same velocity, and settled only out of wall contact.
spec fn tick_fruit_done(pre: Fruit, post: Fruit, input: Input) -> bool {
    &&& post.radius == pre.radius
    &&& post.rotation.speed == pre.rotation.speed
    &&& state_step_ok(pre.state, post.state)
    &&& (pre.state is Held ==> held_step_rel(pre, post, input))
    &&& (!(pre.state is Held) ==> {
        &&& post.real_position.x.raw == clamp_raw(
            pre.real_position.x.raw + post.velocity.0.x.raw,
            256 * (WALL_L + pre.radius),
            256 * (WALL_R - pre.radius),
        )
        &&& post.real_position.y.raw == clamp_raw(
            pre.real_position.y.raw + post.velocity.0.y.raw,
            256 * pre.radius,
            256 * (SCREEN_HEIGHT - pre.radius),
        )
        &&& post.rotation.angle.raw == spec_rotate_angle(
            pre.rotation.angle.raw as int,
            post.velocity.0.x.raw as int,
            post.velocity.0.y.raw as int,
        )
        &&& (pre.state is Falling && post.state is Rolling ==> wall_contact(pre))
    })
}

/// A fruit the main pass has not reached yet: everything but the velocity
/// is as the tick found it, and the velocity has only taken bounded
/// impulses from earlier pairs; a held fruit is fully untouched.
spec fn tick_fruit_pending(pre: Fruit, post: Fruit) -> bool {
    &&& post.real_position == pre.real_position
    &&& post.radius == pre.radius
    &&& post.rotation == pre.rotation
    &&& post.state == pre.state
    &&& post.collided_with_fruits@.len() == 0
    &&& post.velocity.0.abs_le(1536)
    &&& (pre.state is Held ==> post.velocity == pre.velocity)
}

impl State {
    /// Runs one tick of the simulation.
    ///
    /// The pass walks the fruits in spawn order.  A held fruit takes the
    /// input: it slides with it, or starts falling on the drop signal and
    /// rests until the next tick.  For every other fruit, gravity pulls it
    /// (clamped to the terminal speed), the play-area walls rub off and
    /// bounce its speed, every unresolved pair with a later unheld
    /// neighbour is resolved exactly once against start-of-tick positions,
    /// a rolling fruit rubs off extra horizontal speed, a falling fruit in
    /// wall contact counts the settling timer down and settles to rolling
    /// at zero, and the fruit finally moves by its resolved velocity,
    /// forced back inside the play area.  Positions are read from the
    /// start of the tick throughout, while a pair impulse reaches the
    /// later partner's working velocity immediately, so each pair is
    /// resolved once against a consistent snapshot and feeds the
    /// partner's own turn — there is no separate end-of-pass velocity
    /// buffer.  Last, if the active fruit has settled, the timer
    /// restarts and one new fruit spawns held at the aim cursor.
    pub fn tick(&mut self, input: Input)
        requires
            old(self).wf(),
            old(self).fruits@.len() < 0x1000_0000,
        ensures
    // the world invariant is preserved: every fruit stays inside the
    // play area with its speed at most terminal

            final (self).wf(),
            // the aim cursor follows the input, clamped to the pit
            final (self).cursor_position.x == clamp_raw(
                old(self).cursor_position.x + input_dx(input),
                WALL_L + 8,
                WALL_R - 8,
            ),
            final (self).cursor_position.y == old(self).cursor_position.y,
            // nothing is removed; at most the spawn is added
            old(self).fruits@.len() <= final (self).fruits@.len() <= old(self).fruits@.len() + 1,
            // no state ever steps backward
            forall|k: int|
                0 <= k < old(self).fruits@.len() ==> state_step_ok(
                    old(self).fruits@[k].state,
                    (#[trigger] final (self).fruits@[k]).state,
                ),
            // the shape of every fruit is preserved
            forall|k: int|
                0 <= k < old(self).fruits@.len() ==> (#[trigger] final (self).fruits@[k]).radius
                    == old(self).fruits@[k].radius && final (self).fruits@[k].rotation.speed == old(
                    self,
                ).fruits@[k].rotation.speed,
            // a held fruit follows the input exactly
            forall|k: int|
                0 <= k < old(self).fruits@.len() && old(self).fruits@[k].state is Held
                    ==> held_step_rel(
                    old(self).fruits@[k],
                    #[trigger] final (self).fruits@[k],
                    input,
                ),
            // a loose fruit with no unheld neighbour follows the physics
            // step exactly
            forall|k: int|
                0 <= k < old(self).fruits@.len() && !(old(self).fruits@[k].state is Held)
                    && lone_at(old(self).fruits@, k) ==> free_step_rel(
                    old(self).fruits@[k],
                    #[trigger] final (self).fruits@[k],
                    old(self).settle_timer,
                ),
            // every loose fruit moves exactly once: by the velocity it
            // carries out of the tick, forced back inside the play area,
            // and it spins by that same velocity
            forall|k: int|
                0 <= k < old(self).fruits@.len() && !(old(self).fruits@[k].state is Held) ==> ((
                #[trigger] final (self).fruits@[k]).real_position.x.raw == clamp_raw(
                    old(self).fruits@[k].real_position.x.raw
                        + final (self).fruits@[k].velocity.0.x.raw,
                    256 * (WALL_L + old(self).fruits@[k].radius),
                    256 * (WALL_R - old(self).fruits@[k].radius),
                ) && final (self).fruits@[k].real_position.y.raw == clamp_raw(
                    old(self).fruits@[k].real_position.y.raw
                        + final (self).fruits@[k].velocity.0.y.raw,
                    256 * old(self).fruits@[k].radius,
                    256 * (SCREEN_HEIGHT - old(self).fruits@[k].radius),
                ) && final (self).fruits@[k].rotation.angle.raw == spec_rotate_angle(
                    old(self).fruits@[k].rotation.angle.raw as int,
                    final (self).fruits@[k].velocity.0.x.raw as int,
                    final (self).fruits@[k].velocity.0.y.raw as int,
                )),
            // the first loose fruit of the pass is exact: gravity, the
            // wall response, the fold of its pair impulses over its later
            // unheld neighbours, friction, settling and the move are all
            // pinned
            forall|k: int|
                0 <= k < old(self).fruits@.len() && !(old(self).fruits@[k].state is Held)
                    && held_before(old(self).fruits@, k) ==> first_loose_step_rel(
                    old(self).fruits@,
                    k,
                    #[trigger] final (self).fruits@[k],
                    old(self).settle_timer,
                ),
            // on a tick without a spawn, the settling timer counts down
            // exactly once per falling fruit in wall contact, stopping at
            // zero; a spawn then resets it (stated below)
            (final (self).fruits@.len() == old(self).fruits@.len() ==> final (self).settle_timer
                == timer_at(old(self).fruits@, old(self).settle_timer, old(self).fruits@.len() as int)),
            // settling is exact: a falling fruit settles this tick iff it
            // is in wall contact and its own decrement leaves the timer
            // at zero
            forall|k: int|
                0 <= k < old(self).fruits@.len() && old(self).fruits@[k].state is Falling ==> ((
                #[trigger] final (self).fruits@[k]).state is Rolling <==> wall_contact(
                    old(self).fruits@[k],
                ) && timer_at(old(self).fruits@, old(self).settle_timer, k + 1) == 0),
            // one fruit spawns exactly when there is an active fruit and it
            // ends the tick rolling
            ({
                let len = old(self).fruits@.len() as int;
                let spawned = final (self).fruits@.len() == len + 1;
                match old(self).active_index {
                    Some(a) => {
                        &&& (a < len ==> (spawned <==> final (self).fruits@[a as int].state
                            is Rolling))
                        &&& (a >= len ==> !spawned)
                    },
                    None => !spawned,
                }
            }),
            // the spawned fruit is held at rest at the aim, at spawn
            // height; it becomes the active fruit and the settling timer
            // restarts
            (final (self).fruits@.len() == old(self).fruits@.len() + 1 ==> ({
                let f = final (self).fruits@.last();
                &&& f.state is Held
                &&& f.real_position.x.raw == 256 * final (self).cursor_position.x
                &&& f.real_position.y.raw == 256 * SPAWN_HEIGHT
                &&& f.velocity.0.x.raw == 0 && f.velocity.0.y.raw == 0
                &&& f.radius == 8
                &&& final (self).active_index == Some(
                    (final (self).fruits@.len() - 1) as usize,
                )
                &&& final (self).settle_timer == SETTLE_TICKS
            })),
            (final (self).fruits@.len() == old(self).fruits@.len() ==> final (self).active_index
                == old(self).active_index),
            // an active fruit that is already rolling always spawns the
            // next fruit this very tick
            (match old(self).active_index {
                Some(a) => a < old(self).fruits@.len() && old(self).fruits@[a as int].state
                    is Rolling,
                None => false,
            }) ==> final (self).fruits@.len() == old(self).fruits@.len() + 1,
    {
        let n = self.fruits.len();
        // The aim cursor follows the input, clamped to where a fruit fits.
        let dx: i32 = if input.move_left && input.move_right {
            0
        } else if input.move_left {
            -1
        } else if input.move_right {
            1
        } else {
            0
        };
        self.cursor_position = Vec2i {
            x: iclamp(self.cursor_position.x + dx, WALL_L + 8, WALL_R - 8),
            y: self.cursor_position.y,
        };

        // Last tick's collision bookkeeping is cleared first.
        let mut i: usize = 0;
        while i < n
            invariant
                i <= n,
                n == old(self).fruits@.len(),
                self.fruits@.len() == n,
                forall|k: int|
                    0 <= k < i ==> cleared_rel(old(self).fruits@[k], #[trigger] self.fruits@[k]),
                forall|k: int| i <= k < n ==> #[trigger] self.fruits@[k] == old(self).fruits@[k],
                forall|k: int| 0 <= k < n ==> (#[trigger] self.fruits@[k]).wf(),
                self.cursor_position.x == clamp_raw(
                    old(self).cursor_position.x + input_dx(input),
                    WALL_L + 8,
                    WALL_R - 8,
                ),
                self.cursor_position.y == old(self).cursor_position.y,
                self.active_index == old(self).active_index,
                self.settle_timer == old(self).settle_timer,
            decreases n - i,
        {
            let pos = self.fruits[i].real_position;
            let rad = self.fruits[i].radius;
            let rot = self.fruits[i].rotation;
            let st = self.fruits[i].state;
            let vel = self.fruits[i].velocity;
            self.fruits[i] = Fruit {
                real_position: pos,
                radius: rad,
                rotation: rot,
                state: st,
                velocity: vel,
                collided_with_fruits: Vec::new(),
            };
            i = i + 1;
        }

        // Main pass, in spawn order.
        let mut i: usize = 0;
        while i < n
            invariant
                i <= n,
                n == old(self).fruits@.len(),
                self.fruits@.len() == n,
                n < 0x1000_0000,
                dx as int == input_dx(input),
                forall|k: int|
                    0 <= k < i ==> tick_fruit_done(
                        old(self).fruits@[k],
                        #[trigger] self.fruits@[k],
                        input,
                    ),
                forall|k: int|
                    i <= k < n ==> tick_fruit_pending(
                        old(self).fruits@[k],
                        #[trigger] self.fruits@[k],
                    ),
                forall|k: int| 0 <= k < n ==> (#[trigger] self.fruits@[k]).wf(),
                ((forall|j: int| 0 <= j < i ==> (#[trigger] old(self).fruits@[j]).state is Held)
                    ==> self.settle_timer == old(self).settle_timer),
                self.settle_timer == timer_at(
                    old(self).fruits@,
                    old(self).settle_timer,
                    i as int,
                ),
                forall|k: int|
                    0 <= k < i && old(self).fruits@[k].state is Falling ==> ((
                    #[trigger] self.fruits@[k]).state is Rolling <==> wall_contact(
                        old(self).fruits@[k],
                    ) && timer_at(old(self).fruits@, old(self).settle_timer, k + 1) == 0),
                forall|k: int|
                    i <= k < n && lone_at(old(self).fruits@, k) ==> (
                    #[trigger] self.fruits@[k]).velocity == old(self).fruits@[k].velocity,
                forall|k: int|
                    0 <= k < i && !(old(self).fruits@[k].state is Held) && lone_at(
                        old(self).fruits@,
                        k,
                    ) ==> free_step_rel(
                        old(self).fruits@[k],
                        #[trigger] self.fruits@[k],
                        old(self).settle_timer,
                    ),
                (held_before(old(self).fruits@, i as int) ==> forall|k: int|
                    i <= k < n ==> (#[trigger] self.fruits@[k]).velocity == old(
                        self,
                    ).fruits@[k].velocity),
                forall|k: int|
                    0 <= k < i && !(old(self).fruits@[k].state is Held) && held_before(
                        old(self).fruits@,
                        k,
                    ) ==> first_loose_step_rel(
                        old(self).fruits@,
                        k,
                        #[trigger] self.fruits@[k],
                        old(self).settle_timer,
                    ),
                self.cursor_position.x == clamp_raw(
                    old(self).cursor_position.x + input_dx(input),
                    WALL_L + 8,
                    WALL_R - 8,
                ),
                self.cursor_position.y == old(self).cursor_position.y,
                self.active_index == old(self).active_index,
            decreases n - i,
        {
            let ghost timer_entry = self.settle_timer;
            let st_i = self.fruits[i].state;
            let pos_i = self.fruits[i].real_position;
            let rad_i = self.fruits[i].radius;
            let rot_i = self.fruits[i].rotation;
            if st_i == FruitState::Held {
                // A held fruit takes the input and rests: it slides with
                // the input, or starts falling on the drop signal.
                let vel = self.fruits[i].velocity;
                let mut new_pos = pos_i;
                let mut new_st = st_i;
                if input.drop {
                    new_st = FruitState::Falling;
                } else {
                    let r = rad_i as i32;
                    new_pos = clamp(
                        pos_i.add(fvec(dx, 0)),
                        fvec(WALL_L + r, r),
                        fvec(WALL_R - r, SCREEN_HEIGHT - r),
                    );
                }
                self.fruits[i] = Fruit {
                    real_position: new_pos,
                    radius: rad_i,
                    rotation: rot_i,
                    state: new_st,
                    velocity: vel,
                    collided_with_fruits: Vec::new(),
                };
            } else {
                // Gravity, clamped to the terminal speed.
                let mut v = integrate_velocity(self.fruits[i].velocity.0);

                // Wall contact, judged at the start-of-tick position.
                let wall_nudge = Circle {
                    position: pos_i,
                    radius: rad_i as i32,
                    velocity: Velocity(v),
                }.in_playfield();
                v = wall_response(v, wall_nudge);

                // Every unresolved pair with a later, unheld neighbour is
                // resolved exactly once, against start-of-tick positions;
                // the partner carries its impulse away immediately.
                let mut partners: Vec<usize> = Vec::new();
                let ghost v0 = v;
                let mut j: usize = i + 1;
                while j < n
                    invariant
                        i < j <= n,
                        i < n,
                        n == old(self).fruits@.len(),
                        self.fruits@.len() == n,
                        v.abs_le(1536),
                        st_i == self.fruits@[i as int].state,
                        !(st_i is Held),
                        pos_i == self.fruits@[i as int].real_position,
                        rad_i == self.fruits@[i as int].radius,
                        rot_i == self.fruits@[i as int].rotation,
                        forall|k: int|
                            0 <= k < i ==> tick_fruit_done(
                                old(self).fruits@[k],
                                #[trigger] self.fruits@[k],
                                input,
                            ),
                        forall|k: int|
                            0 <= k < i && old(self).fruits@[k].state is Falling ==> ((
                            #[trigger] self.fruits@[k]).state is Rolling <==> wall_contact(
                                old(self).fruits@[k],
                            ) && timer_at(old(self).fruits@, old(self).settle_timer, k + 1)
                                == 0),
                        forall|k: int|
                            i <= k < n ==> tick_fruit_pending(
                                old(self).fruits@[k],
                                #[trigger] self.fruits@[k],
                            ),
                        forall|k: int| 0 <= k < n ==> (#[trigger] self.fruits@[k]).wf(),
                        forall|k: int|
                            i <= k < n && lone_at(old(self).fruits@, k) ==> (
                            #[trigger] self.fruits@[k]).velocity == old(
                                self,
                            ).fruits@[k].velocity,
                        lone_at(old(self).fruits@, i as int) ==> v == v0 && partners@.len()
                            == 0,
                        forall|k: int|
                            0 <= k < i && !(old(self).fruits@[k].state is Held) && held_before(
                                old(self).fruits@,
                                k,
                            ) ==> first_loose_step_rel(
                                old(self).fruits@,
                                k,
                                #[trigger] self.fruits@[k],
                                old(self).settle_timer,
                            ),
                        (held_before(old(self).fruits@, i as int) ==> forall|k: int|
                            j <= k < n ==> (#[trigger] self.fruits@[k]).velocity == old(
                                self,
                            ).fruits@[k].velocity),
                        (held_before(old(self).fruits@, i as int) ==> resolve_chain(
                            pos_i,
                            rad_i as int,
                            v,
                            old(self).fruits@,
                            j as int,
                        ) == resolve_chain(
                            pos_i,
                            rad_i as int,
                            v0,
                            old(self).fruits@,
                            i + 1,
                        )),
                        self.settle_timer == timer_entry,
                        self.cursor_position.x == clamp_raw(
                            old(self).cursor_position.x + input_dx(input),
                            WALL_L + 8,
                            WALL_R - 8,
                        ),
                        self.cursor_position.y == old(self).cursor_position.y,
                        self.active_index == old(self).active_index,
                    decreases n - j,
                {
                    if self.fruits[j].state != FruitState::Held {
                        partners.push(j);
                        let pos_j = self.fruits[j].real_position;
                        let rad_j = self.fruits[j].radius;
                        let rot_j = self.fruits[j].rotation;
                        let st_j = self.fruits[j].state;
                        let (nv_i, nv_j) = resolve_pair(
                            pos_i,
                            rad_i as i32,
                            v,
                            pos_j,
                            rad_j as i32,
                            self.fruits[j].velocity.0,
                        );
                        v = nv_i;
                        proof {
                            if lone_at(old(self).fruits@, j as int) {
                                assert(old(self).fruits@[i as int].state is Held);
                                assert(false);
                            }
                        }
                        self.fruits[j] = Fruit {
                            real_position: pos_j,
                            radius: rad_j,
                            rotation: rot_j,
                            state: st_j,
                            velocity: Velocity(nv_j),
                            collided_with_fruits: Vec::new(),
                        };
                    }
                    j = j + 1;
                }

                // A rolling fruit rubs off extra horizontal speed.
                if st_i == FruitState::Rolling {
                    proof {
                        lemma_fmul_bound(v.x.raw as int, FRICTION_RAW as int, 1536, 251);
                    }
                    v.x = v.x.mul(Fixed { raw: FRICTION_RAW });
                }

                // Surface contact counts the settling timer down; at zero
                // a falling fruit settles for good.
                let mut new_state = st_i;
                if st_i == FruitState::Falling && wall_nudge.is_some() {
                    if self.settle_timer > 0 {
                        self.settle_timer = self.settle_timer - 1;
                    }
                    if self.settle_timer == 0 {
                        new_state = FruitState::Rolling;
                    }
                }

                // Commit: move by the resolved velocity, forced back
                // inside the play area, and spin by the speed left over.
                let r = rad_i as i32;
                let new_pos = clamp(
                    pos_i.add(v),
                    fvec(WALL_L + r, r),
                    fvec(WALL_R - r, SCREEN_HEIGHT - r),
                );
                let new_rot = rotate_step(rot_i, v);
                self.fruits[i] = Fruit {
                    real_position: new_pos,
                    radius: rad_i,
                    rotation: new_rot,
                    state: new_state,
                    velocity: Velocity(v),
                    collided_with_fruits: partners,
                };
                proof {
                    if lone_at(old(self).fruits@, i as int) {
                        assert(timer_entry == old(self).settle_timer);
                        assert(free_step_rel(
                            old(self).fruits@[i as int],
                            self.fruits@[i as int],
                            old(self).settle_timer,
                        ));
                    }
                    if held_before(old(self).fruits@, i as int) {
                        assert(forall|jj: int|
                            0 <= jj < i ==> (#[trigger] old(self).fruits@[jj]).state is Held);
                        assert(timer_entry == old(self).settle_timer);
                        assert(first_loose_step_rel(
                            old(self).fruits@,
                            i as int,
                            self.fruits@[i as int],
                            old(self).settle_timer,
                        ));
                    }
                    let t0 = old(self).settle_timer;
                    let prei = old(self).fruits@[i as int];
                    assert(contacts_until(old(self).fruits@, i as int + 1) == contacts_until(
                        old(self).fruits@,
                        i as int,
                    ) + (if prei.state is Falling && wall_contact(prei) {
                        1int
                    } else {
                        0int
                    }));
                    if prei.state is Falling {
                        assert((self.fruits@[i as int].state is Rolling) <==> (wall_contact(prei)
                            && timer_at(old(self).fruits@, t0, i as int + 1) == 0));
                    }
                }
            }
            proof {
                assert forall|k: int|
                    0 <= k < i + 1 && old(self).fruits@[k].state is Falling implies ((
                #[trigger] self.fruits@[k]).state is Rolling <==> wall_contact(
                    old(self).fruits@[k],
                ) && timer_at(old(self).fruits@, old(self).settle_timer, k + 1) == 0) by {
                    if k == i {
                        assert(self.fruits@[k] == self.fruits@[i as int]);
                    }
                }
                assert forall|k: int|
                    0 <= k < i + 1 && !(old(self).fruits@[k].state is Held) && held_before(
                        old(self).fruits@,
                        k,
                    ) implies first_loose_step_rel(
                    old(self).fruits@,
                    k,
                    #[trigger] self.fruits@[k],
                    old(self).settle_timer,
                ) by {
                    if k == i {
                        assert(self.fruits@[k] == self.fruits@[i as int]);
                    }
                }
            }
            i = i + 1;
        }

        // Spawn pass: once the active fruit has settled, the timer
        // restarts and the next fruit appears held at the aim.
        let len = self.fruits.len();
        let mut do_spawn = false;
        if let Some(a) = self.active_index {
            if a < len {
                if self.fruits[a].state == FruitState::Rolling {
                    do_spawn = true;
                }
            }
        }
        if do_spawn {
            self.settle_timer = SETTLE_TICKS;
            let aim_x = self.cursor_position.x;
            let _ = self.new_fruit(Vec2i { x: aim_x, y: SPAWN_HEIGHT });
        }
    }
}


/// Law of the overlap impulse: when two overlapping fruits with distinct
/// centres and an entry time that is not ahead are resolved, the two
/// outgoing velocities oppose each other exactly, and their relative
/// velocity points from `a` toward `b` along the centre line (its
/// fixed-point dot product with the centre offset is nonnegative).  So
/// one resolution never leaves such a pair approaching each other.
/// Whether repeated ticks shrink the overlap monotonically depends on
/// gravity and the walls as well; that is not claimed here.
pub proof fn lemma_impulse_separates(
    pos_a: Vec2,
    rad_a: int,
    v_a: Vec2,
    pos_b: Vec2,
    rad_b: int,
    v_b: Vec2,
)
    requires
        pos_a.abs_le(0x10_0000),
        pos_b.abs_le(0x10_0000),
        1 <= rad_a <= 32,
        1 <= rad_b <= 32,
        Circle::spec_overlap(
            Circle { position: pos_a, radius: rad_a as i32, velocity: Velocity(v_a) },
            Circle { position: pos_b, radius: rad_b as i32, velocity: Velocity(v_b) },
        ) > 0,
        Ball::spec_time_to_collision(
            Ball {
                x: pos_b.x,
                y: pos_b.y,
                xvel: v_b.x,
                yvel: v_b.y,
                radius: Fixed { raw: (256 * rad_b) as i64 },
            },
            Ball {
                x: pos_a.x,
                y: pos_a.y,
                xvel: v_a.x,
                yvel: v_a.y,
                radius: Fixed { raw: (256 * rad_a) as i64 },
            },
        ) <= 0,
        Vec2::spec_magnitude_squared(
            pos_b.x.raw - pos_a.x.raw,
            pos_b.y.raw - pos_a.y.raw,
        ) > 0,
    ensures
        ({
            let (w_a, w_b) = spec_resolve_pair(pos_a, rad_a, v_a, pos_b, rad_b, v_b);
            let dx = pos_b.x.raw - pos_a.x.raw;
            let dy = pos_b.y.raw - pos_a.y.raw;
            &&& w_a.x.raw == -w_b.x.raw && w_a.y.raw == -w_b.y.raw
            &&& fmul(w_b.x.raw - w_a.x.raw, dx) + fmul(w_b.y.raw - w_a.y.raw, dy) >= 0
        }),
{
    let dx = pos_b.x.raw - pos_a.x.raw;
    let dy = pos_b.y.raw - pos_a.y.raw;
    let msq = Vec2::spec_magnitude_squared(dx, dy);
    let m = fsqrt(msq);
    let t = Ball::spec_time_to_collision(
        Ball {
            x: pos_b.x,
            y: pos_b.y,
            xvel: v_b.x,
            yvel: v_b.y,
            radius: Fixed { raw: (256 * rad_b) as i64 },
        },
        Ball {
            x: pos_a.x,
            y: pos_a.y,
            xvel: v_a.x,
            yvel: v_a.y,
            radius: Fixed { raw: (256 * rad_a) as i64 },
        },
    );
    let p = spec_propulsion(t);
    // The length estimate of a nonzero offset is at least one raw step.
    crate::fixed::lemma_sqrt_exists(msq * 256);
    let w = choose|r: int| #[trigger] crate::fixed::is_sqrt(msq * 256, r);
    crate::fixed::lemma_sqrt_floor_of(msq * 256, w);
    assert(m >= 1) by (nonlinear_arith)
        requires
            crate::fixed::is_sqrt(msq * 256, m),
            msq >= 1,
    ;
    // Both impulse components carry the sign of the centre offset.
    let qx = fdiv(dx, m);
    let qy = fdiv(dy, m);
    lemma_tdiv_abs_le(dx * 256, m);
    lemma_tdiv_abs_le(dy * 256, m);
    assert(3 <= p <= 256);
    let wbx = fmul(qx, p);
    let wby = fmul(qy, p);
    crate::fixed::lemma_fmul_sign(qx, p);
    crate::fixed::lemma_fmul_sign(qy, p);
    lemma_fmul_bound(qx, p, 0x2000_0000_0000, 256);
    lemma_fmul_bound(qy, p, 0x2000_0000_0000, 256);
    // The outgoing pair is exactly opposed, so the relative velocity is
    // twice the impulse on `b`, which points with the offset.
    crate::fixed::lemma_fmul_sign(2 * wbx, dx);
    crate::fixed::lemma_fmul_sign(2 * wby, dy);
}


/// Wall containment, spelled out: in a well-formed world — which
/// [`State::tick`] hands back after every tick — every fruit's centre
/// lies between the walls and between the top and the floor line of the
/// screen, each adjusted by its radius.
pub proof fn lemma_wall_containment(s: State, k: int)
    requires
        s.wf(),
        0 <= k < s.fruits@.len(),
    ensures
        256 * (WALL_L + s.fruits@[k].radius) <= s.fruits@[k].real_position.x.raw,
        s.fruits@[k].real_position.x.raw <= 256 * (WALL_R - s.fruits@[k].radius),
        256 * s.fruits@[k].radius <= s.fruits@[k].real_position.y.raw,
        s.fruits@[k].real_position.y.raw <= 256 * (SCREEN_HEIGHT - s.fruits@[k].radius),
{
}

/// Terminal velocity, spelled out: in a well-formed world — which
/// [`State::tick`] hands back after every tick — no velocity component of
/// any fruit exceeds the terminal speed in magnitude.
pub proof fn lemma_terminal_velocity(s: State, k: int)
    requires
        s.wf(),
        0 <= k < s.fruits@.len(),
    ensures
        -crate::fruit::TERMINAL_VELOCITY_RAW <= s.fruits@[k].velocity.0.x.raw
            <= crate::fruit::TERMINAL_VELOCITY_RAW,
        -crate::fruit::TERMINAL_VELOCITY_RAW <= s.fruits@[k].velocity.0.y.raw
            <= crate::fruit::TERMINAL_VELOCITY_RAW,
{
}

} // verus!
