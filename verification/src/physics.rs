//! Shapes and collision mathematics: circles against circles and against
//! the three walls of the pit (left wall, right wall, floor — no ceiling).

use vstd::prelude::*;

use crate::fixed::clamp_raw;
use crate::fixed::fdiv;
use crate::fixed::fmul;
use crate::fixed::fsqrt;
use crate::fixed::lemma_fmul_bound;
use crate::fixed::lemma_fmul_sq_nonneg;
use crate::fixed::lemma_sqrt_le;
use crate::fixed::lemma_tdiv_abs_le;
use crate::fixed::vec_raw;
use crate::fixed::Fixed;
use crate::fixed::Vec2;
use crate::math_helpers::sq;
use crate::FLOOR;
use crate::WALL_L;
use crate::WALL_R;

verus! {

/// Velocity of one body, as a fixed-point vector.
#[derive(Clone, Copy, PartialEq, Eq, Structural, Debug)]
pub struct Velocity(pub Vec2);

/// Collision snapshot of one body: centre, radius and current velocity.
/// Derived on demand from a fruit; never stored.
#[derive(Clone, Copy, PartialEq, Eq, Structural, Debug)]
pub struct Circle {
    pub position: Vec2,
    pub radius: i32,
    pub velocity: Velocity,
}

/// Which side of a body touched something this tick.
#[derive(Clone, Copy, PartialEq, Eq, Structural, Debug)]
pub enum CollisionDirection {
    Up,
    Down,
    Left,
    Right,
}

/// Per-tick record of the sides on which a body collided.
#[derive(Clone, Copy, PartialEq, Eq, Structural, Debug)]
pub struct Colliding {
    pub up: bool,
    pub down: bool,
    pub left: bool,
    pub right: bool,
}

impl Colliding {
    /// Marks one more side as colliding; the other sides keep their value.
    pub fn add(&mut self, dir: CollisionDirection)
        ensures
            final (self).up == (old(self).up || dir == CollisionDirection::Up),
            final (self).down == (old(self).down || dir == CollisionDirection::Down),
            final (self).left == (old(self).left || dir == CollisionDirection::Left),
            final (self).right == (old(self).right || dir == CollisionDirection::Right),
    {
        match dir {
            CollisionDirection::Up => {
                self.up = true;
            },
            CollisionDirection::Down => {
                self.down = true;
            },
            CollisionDirection::Left => {
                self.left = true;
            },
            CollisionDirection::Right => {
                self.right = true;
            },
        };
    }
}

/// Side of a vertical boundary line (a wall the player can hit sideways).
#[derive(Clone, Copy, PartialEq, Eq, Structural, Debug)]
pub enum WallDirectionHorizontal {
    Left,
    Right,
}

/// Side of a horizontal boundary line (floor or ceiling).
#[derive(Clone, Copy, PartialEq, Eq, Structural, Debug)]
pub enum WallDirectionVertical {
    Top,
    Bottom,
}

/// One boundary of the play area.  `Horizontal(x, side)` bounds horizontal
/// movement at column `x`; `Vertical(y, side)` bounds vertical movement at
/// row `y`.  No top wall is ever enforced.
#[derive(Clone, Copy, PartialEq, Eq, Structural, Debug)]
pub enum Wall {
    Horizontal(i32, WallDirectionHorizontal),
    Vertical(i32, WallDirectionVertical),
}

impl Circle {
    /// Centre and radius are small enough for collision arithmetic.
    pub open spec fn bounded(self) -> bool {
        &&& self.position.abs_le(0x10_0000)
        &&& 0 <= self.radius <= 0x1000
    }

    /// Raw squared distance between the centres of `a` and `b`.
    pub open spec fn spec_centre_distance_squared(a: Circle, b: Circle) -> int {
        Vec2::spec_magnitude_squared(
            a.position.x.raw - b.position.x.raw,
            a.position.y.raw - b.position.y.raw,
        )
    }

    /// Raw overlap depth along the centre line: the touching distance minus
    /// the (rounded-down) centre distance.  Positive means the circles
    /// overlap.
    pub open spec fn spec_overlap(a: Circle, b: Circle) -> int {
        256 * (a.radius + b.radius) - fsqrt(Circle::spec_centre_distance_squared(a, b))
    }

    /// Whether this circle and `b` overlap.
    pub fn intersects(self: &Circle, b: Circle) -> (r: bool)
        requires
            self.bounded(),
            b.bounded(),
        ensures
            r == (Circle::spec_overlap(*self, b) > 0),
    {
        let a = self;
        let vector_ab = a.position.sub(b.position);
        proof {
            let dx = a.position.x.raw - b.position.x.raw;
            let dy = a.position.y.raw - b.position.y.raw;
            lemma_fmul_bound(dx, dx, 0x20_0000, 0x20_0000);
            lemma_fmul_bound(dy, dy, 0x20_0000, 0x20_0000);
        }
        let magnitude_ab = vector_ab.magnitude();
        proof {
            lemma_sqrt_le(
                Circle::spec_centre_distance_squared(*a, b) * 256,
                magnitude_ab.raw as int,
                0x400_0000,
            );
        }
        let touching_radii = b.radius + a.radius;
        let intersection_magnitude = Fixed::from_int(touching_radii as i64).sub(magnitude_ab);
        intersection_magnitude.raw > 0
    }

    /// Minimum translation that separates `a` from `b`, pointing from `b`
    /// toward `a`; `None` when the circles do not overlap.  At coincident
    /// centres there is no usable direction and the translation is zero.
    pub open spec fn spec_intersection(a: Circle, b: Circle) -> Option<Vec2> {
        let overlap = Circle::spec_overlap(a, b);
        let dx = a.position.x.raw - b.position.x.raw;
        let dy = a.position.y.raw - b.position.y.raw;
        let m = fsqrt(Vec2::spec_magnitude_squared(dx, dy));
        if overlap > 0 {
            if m == 0 {
                Some(vec_raw(0, 0))
            } else {
                Some(vec_raw(fmul(fdiv(dx, m), overlap), fmul(fdiv(dy, m), overlap)))
            }
        } else {
            None
        }
    }

    /// Minimum translation to separate this circle from `b`, pointing from
    /// `b` toward this circle; `None` when the circles do not overlap.
    pub fn intersection(self: &Circle, b: Circle) -> (r: Option<Vec2>)
        requires
            self.bounded(),
            b.bounded(),
        ensures
            r == Circle::spec_intersection(*self, b),
    {
        let d = self.position.sub(b.position);
        proof {
            let dx = self.position.x.raw - b.position.x.raw;
            let dy = self.position.y.raw - b.position.y.raw;
            lemma_fmul_bound(dx, dx, 0x20_0000, 0x20_0000);
            lemma_fmul_bound(dy, dy, 0x20_0000, 0x20_0000);
        }
        let magnitude = d.magnitude();
        proof {
            lemma_sqrt_le(
                Circle::spec_centre_distance_squared(*self, b) * 256,
                magnitude.raw as int,
                0x400_0000,
            );
        }
        let overlap = Fixed::from_int((self.radius + b.radius) as i64).sub(magnitude);
        if overlap.raw > 0 {
            let direction = d.normalise();
            proof {
                lemma_fmul_bound(direction.x.raw as int, overlap.raw as int, 512, 0x20_0000);
                lemma_fmul_bound(direction.y.raw as int, overlap.raw as int, 512, 0x20_0000);
            }
            let out = direction.scale(overlap);
            proof {
                let dx = self.position.x.raw - b.position.x.raw;
                let dy = self.position.y.raw - b.position.y.raw;
                let m = fsqrt(Vec2::spec_magnitude_squared(dx, dy));
                if m == 0 {
                    assert(direction.x.raw == 0 && direction.y.raw == 0);
                    assert(out.x.raw == fmul(0, overlap.raw as int));
                    assert(fmul(0, overlap.raw as int) == 0) by (nonlinear_arith);
                    assert(Some(out) == Circle::spec_intersection(*self, b));
                } else {
                    assert(out.x.raw == fmul(fdiv(dx, m), overlap.raw as int));
                    assert(out.y.raw == fmul(fdiv(dy, m), overlap.raw as int));
                    assert(Some(out) == Circle::spec_intersection(*self, b));
                }
            }
            Some(out)
        } else {
            None
        }
    }

    /// Raw penetration depth of this circle past `wall`; positive means the
    /// circle sticks out past the boundary.  A top wall never penetrates.
    pub open spec fn wall_pen(self, wall: Wall) -> int {
        match wall {
            Wall::Horizontal(x, WallDirectionHorizontal::Left) => 256 * x - (self.position.x.raw
                - 256 * self.radius),
            Wall::Horizontal(x, WallDirectionHorizontal::Right) => (self.position.x.raw + 256
                * self.radius) - 256 * x,
            Wall::Vertical(y, WallDirectionVertical::Bottom) => (self.position.y.raw + 256
                * self.radius) - 256 * y,
            Wall::Vertical(_, WallDirectionVertical::Top) => 0,
        }
    }

    /// Correction that moves this circle back inside `wall`, or `None` when
    /// it does not penetrate.  The correction points back into the play
    /// area: `(pen, 0)` for the left wall, `(-pen, 0)` for the right wall,
    /// `(0, -pen)` for the floor.
    pub fn in_wall(self: Circle, wall: Wall) -> (r: Option<Vec2>)
        requires
            self.position.abs_le(0x100_0000_0000),
        ensures
            ({
                let pen = self.wall_pen(wall);
                match wall {
                    Wall::Horizontal(_, WallDirectionHorizontal::Left) => r == (if pen > 0 {
                        Some(vec_raw(pen, 0))
                    } else {
                        None::<Vec2>
                    }),
                    Wall::Horizontal(_, WallDirectionHorizontal::Right) => r == (if pen > 0 {
                        Some(vec_raw(-pen, 0))
                    } else {
                        None::<Vec2>
                    }),
                    Wall::Vertical(_, WallDirectionVertical::Bottom) => r == (if pen > 0 {
                        Some(vec_raw(0, -pen))
                    } else {
                        None::<Vec2>
                    }),
                    Wall::Vertical(_, WallDirectionVertical::Top) => r == None::<Vec2>,
                }
            }),
    {
        match wall {
            Wall::Horizontal(x, WallDirectionHorizontal::Left) => {
                let intersection = Fixed::from_int(x as i64).sub(
                    self.position.x.sub(Fixed::from_int(self.radius as i64)),
                );
                if intersection.raw > 0 {
                    Some(Vec2 { x: intersection, y: Fixed { raw: 0 } })
                } else {
                    None
                }
            },
            Wall::Horizontal(x, WallDirectionHorizontal::Right) => {
                let intersection = self.position.x.add(Fixed::from_int(self.radius as i64)).sub(
                    Fixed::from_int(x as i64),
                );
                if intersection.raw > 0 {
                    Some(Vec2 { x: intersection.neg(), y: Fixed { raw: 0 } })
                } else {
                    None
                }
            },
            Wall::Vertical(y, WallDirectionVertical::Bottom) => {
                let intersection = self.position.y.add(Fixed::from_int(self.radius as i64)).sub(
                    Fixed::from_int(y as i64),
                );
                if intersection.raw > 0 {
                    Some(Vec2 { x: Fixed { raw: 0 }, y: intersection.neg() })
                } else {
                    None
                }
            },
            Wall::Vertical(_, WallDirectionVertical::Top) => {
                // No top wall bounds the play area.
                None
            },
        }
    }

    /// Correction applied by the play area: the floor is checked first, then
    /// the left wall, then the right wall; the first penetrated boundary
    /// wins and the corrections are never summed.
    pub open spec fn spec_in_playfield(self) -> Option<Vec2> {
        let floor_pen = self.wall_pen(Wall::Vertical(FLOOR as int as i32, WallDirectionVertical::Bottom));
        let left_pen = self.wall_pen(
            Wall::Horizontal(WALL_L as int as i32, WallDirectionHorizontal::Left),
        );
        let right_pen = self.wall_pen(
            Wall::Horizontal(WALL_R as int as i32, WallDirectionHorizontal::Right),
        );
        if floor_pen > 0 {
            Some(vec_raw(0, -floor_pen))
        } else if left_pen > 0 {
            Some(vec_raw(left_pen, 0))
        } else if right_pen > 0 {
            Some(vec_raw(-right_pen, 0))
        } else {
            None
        }
    }

    /// Correction that moves this circle back inside the play area, or
    /// `None` when it is fully inside.
    pub fn in_playfield(self: Circle) -> (r: Option<Vec2>)
        requires
            self.position.abs_le(0x100_0000_0000),
        ensures
            r == self.spec_in_playfield(),
    {
        let in_floor = self.in_wall(Wall::Vertical(FLOOR, WallDirectionVertical::Bottom));
        let in_wall_l = self.in_wall(Wall::Horizontal(WALL_L, WallDirectionHorizontal::Left));
        let in_wall_r = self.in_wall(Wall::Horizontal(WALL_R, WallDirectionHorizontal::Right));
        match in_floor {
            Some(v) => Some(v),
            None => match in_wall_l {
                Some(v) => Some(v),
                None => in_wall_r,
            },
        }
    }
}

/// `n` forced componentwise into the box `[lower, upper]`; on each axis the
/// upper bound wins when the two bounds cross.
pub fn clamp(n: Vec2, lower: Vec2, upper: Vec2) -> (out: Vec2)
    ensures
        out.x.raw == clamp_raw(n.x.raw as int, lower.x.raw as int, upper.x.raw as int),
        out.y.raw == clamp_raw(n.y.raw as int, lower.y.raw as int, upper.y.raw as int),
{
    let mut out = n;
    if n.x.raw < lower.x.raw {
        out.x = lower.x;
    }
    if n.y.raw < lower.y.raw {
        out.y = lower.y;
    }
    if n.x.raw > upper.x.raw {
        out.x = upper.x;
    }
    if n.y.raw > upper.y.raw {
        out.y = upper.y;
    }
    out
}

/// Quadratic coefficient `A`: the squared relative speed.
pub open spec fn quad_a(dvx: int, dvy: int) -> int {
    fmul(dvx, dvx) + fmul(dvy, dvy)
}

/// Quadratic coefficient `B`: twice the projection of the separation onto
/// the relative velocity.
pub open spec fn quad_b(dx: int, dy: int, dvx: int, dvy: int) -> int {
    fmul(512, fmul(dx, dvx) + fmul(dy, dvy))
}

/// Quadratic coefficient `C`: the squared separation minus the squared
/// touching distance `rr`.
pub open spec fn quad_c(dx: int, dy: int, rr: int) -> int {
    fmul(dx, dx) + fmul(dy, dy) - fmul(rr, rr)
}

/// Discriminant `B^2 - 4 A C` of the touching-time quadratic.
pub open spec fn quad_disc(a: int, b: int, c: int) -> int {
    fmul(b, b) - fmul(fmul(1024, a), c)
}

/// A circle together with where one tick of motion takes it: the position
/// nudge and the velocity that will be applied.
#[derive(Clone, Copy)]
pub struct MovingCircle {
    pub before: Circle,
    pub after: (Vec2, Velocity),
}

impl MovingCircle {
    /// All stored scalars are small enough for the touching-time solver.
    pub open spec fn bounded(self) -> bool {
        &&& self.before.bounded()
        &&& self.after.0.abs_le(0x10_0000)
        &&& self.after.1.0.abs_le(0x2000)
    }

    /// Wraps a circle that has not moved yet.
    pub fn new(circle: Circle) -> (r: MovingCircle)
        ensures
            r.before == circle,
            r.after.0.x.raw == 0 && r.after.0.y.raw == 0,
            r.after.1.0.x.raw == 0 && r.after.1.0.y.raw == 0,
    {
        MovingCircle {
            before: circle,
            after: (Vec2::zero(), Velocity(Vec2::zero())),
        }
    }

    /// The circle at the start of the tick.
    pub fn before(&self) -> (r: Circle)
        ensures
            r == self.before,
    {
        self.before
    }

    /// The circle at the end of the tick: start position plus nudge plus
    /// velocity, carrying the end-of-tick velocity (the radius snapshot is
    /// not carried over).
    pub fn after(&self) -> (r: Circle)
        requires
            self.bounded(),
        ensures
            r.position.x.raw == self.before.position.x.raw + self.after.0.x.raw
                + self.after.1.0.x.raw,
            r.position.y.raw == self.before.position.y.raw + self.after.0.y.raw
                + self.after.1.0.y.raw,
            r.radius == 0,
            r.velocity == self.after.1,
    {
        Circle {
            position: self.before.position.add(self.after.0).add(self.after.1.0),
            radius: 0,
            velocity: self.after.1,
        }
    }

    /// How far the circle moves over the tick.
    pub fn movement(&self) -> (r: Vec2)
        requires
            self.bounded(),
        ensures
            r.x.raw == self.after.0.x.raw + self.after.1.0.x.raw,
            r.y.raw == self.after.0.y.raw + self.after.1.0.y.raw,
    {
        let t_0 = self.before();
        let t_1 = self.after();
        t_1.position.sub(t_0.position)
    }
}

/// Raw result of [`two_circle_interpolate`]: the root of the touching-time
/// quadratic: when the two moving circles first touch, in ticks.
pub open spec fn spec_two_circle_interpolate(circle_a: MovingCircle, circle_b: MovingCircle) -> int {
    let dx = circle_b.before.position.x.raw - circle_a.before.position.x.raw;
    let dy = circle_b.before.position.y.raw - circle_a.before.position.y.raw;
    let dvx = circle_b.after.1.0.x.raw - circle_a.after.1.0.x.raw;
    let dvy = circle_b.after.1.0.y.raw - circle_a.after.1.0.y.raw;
    let rr = 256 * (circle_a.before.radius + circle_b.before.radius);
    let qa = quad_a(dvx, dvy);
    if qa == 0 {
        0
    } else {
        let qb = quad_b(dx, dy, dvx, dvy);
        let qc = quad_c(dx, dy, rr);
        let disc = quad_disc(qa, qb, qc);
        let e = if disc > 0 {
            fsqrt(disc)
        } else {
            0
        };
        fdiv(-qb - e, fmul(512, qa))
    }
}

/// When the two moving circles first touch along their per-tick motion:
/// the earlier (entry-time) root of the touching-time quadratic, in
/// ticks.  0 when there is no relative motion; the square-root term is
/// clamped to 0 when the discriminant is negative (no future touching);
/// negative when the circles already overlap, which callers read as an
/// "already colliding" signal.
pub fn two_circle_interpolate(circle_a: MovingCircle, circle_b: MovingCircle) -> (r: Fixed)
    requires
        circle_a.bounded(),
        circle_b.bounded(),
    ensures
        r.raw == spec_two_circle_interpolate(circle_a, circle_b),
        r.abs_le(0x100_0000_0000),
{
    let dx = circle_b.before.position.x.sub(circle_a.before.position.x);
    let dy = circle_b.before.position.y.sub(circle_a.before.position.y);
    let dvx = circle_b.after.1.0.x.sub(circle_a.after.1.0.x);
    let dvy = circle_b.after.1.0.y.sub(circle_a.after.1.0.y);
    let rr = Fixed::from_int((circle_a.before.radius + circle_b.before.radius) as i64);
    proof {
        lemma_fmul_bound(dvx.raw as int, dvx.raw as int, 0x4000, 0x4000);
        lemma_fmul_bound(dvy.raw as int, dvy.raw as int, 0x4000, 0x4000);
        lemma_fmul_sq_nonneg(dvx.raw as int);
        lemma_fmul_sq_nonneg(dvy.raw as int);
    }
    let qa = sq(dvx).add(sq(dvy));
    if qa.raw == 0 {
        Fixed { raw: 0 }
    } else {
        proof {
            lemma_fmul_bound(dx.raw as int, dvx.raw as int, 0x20_0000, 0x4000);
            lemma_fmul_bound(dy.raw as int, dvy.raw as int, 0x20_0000, 0x4000);
            lemma_fmul_bound(dx.raw as int, dx.raw as int, 0x20_0000, 0x20_0000);
            lemma_fmul_bound(dy.raw as int, dy.raw as int, 0x20_0000, 0x20_0000);
            lemma_fmul_bound(rr.raw as int, rr.raw as int, 0x20_0000, 0x20_0000);
        }
        let two = Fixed::from_int(2);
        let inner = dx.mul(dvx).add(dy.mul(dvy));
        proof {
            lemma_fmul_bound(512, inner.raw as int, 512, 0x1000_0000);
        }
        let qb = two.mul(inner);
        let qc = sq(dx).add(sq(dy)).sub(sq(rr));
        proof {
            lemma_fmul_bound(qb.raw as int, qb.raw as int, 0x2000_0000, 0x2000_0000);
            lemma_fmul_bound(1024, qa.raw as int, 1024, 0x20_0000);
        }
        let four_a = Fixed::from_int(4).mul(qa);
        proof {
            lemma_fmul_bound(four_a.raw as int, qc.raw as int, 0x80_0000, 0x10_0000_0000);
        }
        let disc = sq(qb).sub(four_a.mul(qc));
        let e = if disc.raw > 0 {
            disc.sqrt()
        } else {
            Fixed { raw: 0 }
        };
        proof {
            if disc.raw > 0 {
                lemma_sqrt_le(disc.raw * 256, e.raw as int, 0x4000_0000);
            }
            assert(fmul(512, qa.raw as int) >= 2) by (nonlinear_arith)
                requires
                    qa.raw >= 1,
            ;
            assert(fmul(512, qa.raw as int) <= 0x80_0000) by (nonlinear_arith)
                requires
                    1 <= qa.raw <= 0x20_0000,
            ;
        }
        let denom = two.mul(qa);
        let t1 = qb.neg().sub(e).div(denom);
        proof {
            lemma_tdiv_abs_le((-qb.raw - e.raw) * 256, denom.raw as int);
        }
        t1
    }
}

/// The scalar view of one circle that the touching-time solver works on.
#[derive(Clone, Copy, PartialEq, Eq, Structural, Debug)]
pub struct Ball {
    pub x: Fixed,
    pub y: Fixed,
    pub xvel: Fixed,
    pub yvel: Fixed,
    pub radius: Fixed,
}

impl Ball {
    /// All scalars are small enough for the touching-time solver.
    pub open spec fn bounded(self) -> bool {
        &&& self.x.abs_le(0x10_0000)
        &&& self.y.abs_le(0x10_0000)
        &&& self.xvel.abs_le(0x2000)
        &&& self.yvel.abs_le(0x2000)
        &&& 0 <= self.radius.raw <= 0x2000
    }

    /// The scalar view of `circle`.
    pub fn from_circle(circle: Circle) -> (r: Ball)
        requires
            -0x20_0000_0000_0000 <= circle.radius <= 0x20_0000_0000_0000,
        ensures
            r.x == circle.position.x,
            r.y == circle.position.y,
            r.xvel == circle.velocity.0.x,
            r.yvel == circle.velocity.0.y,
            r.radius.raw == 256 * circle.radius,
    {
        Ball {
            x: circle.position.x,
            y: circle.position.y,
            xvel: circle.velocity.0.x,
            yvel: circle.velocity.0.y,
            radius: Fixed::from_int(circle.radius as i64),
        }
    }

    /// Raw result of [`Ball::time_to_collision`].
    pub open spec fn spec_time_to_collision(self, other: Ball) -> int {
        let dx = self.x.raw - other.x.raw;
        let dy = self.y.raw - other.y.raw;
        let dvx = self.xvel.raw - other.xvel.raw;
        let dvy = self.yvel.raw - other.yvel.raw;
        let rr = self.radius.raw + other.radius.raw;
        let a = quad_a(dvx, dvy);
        if a == 0 {
            0
        } else {
            let b = quad_b(dx, dy, dvx, dvy);
            let c = quad_c(dx, dy, rr);
            let d = quad_disc(a, b, c);
            let e = if d > 0 {
                fsqrt(d)
            } else {
                0
            };
            fdiv(-b - e, fmul(512, a))
        }
    }

    /// Entry time of the touching-time quadratic: when the two balls first
    /// touch, in ticks from now.  0 when there is no relative motion; the
    /// square-root term is clamped to 0 when the discriminant is negative;
    /// negative when the balls already overlap, which callers read as an
    /// "already colliding" signal.
    pub fn time_to_collision(&self, other: &Ball) -> (r: Fixed)
        requires
            self.bounded(),
            other.bounded(),
        ensures
            r.raw == self.spec_time_to_collision(*other),
            r.abs_le(0x100_0000_0000),
    {
        let radius = self.radius;
        let xvel = self.xvel;
        let yvel = self.yvel;
        let x = self.x;
        let y = self.y;
        let dx = x.sub(other.x);
        let dy = y.sub(other.y);
        let dvx = xvel.sub(other.xvel);
        let dvy = yvel.sub(other.yvel);
        let rr = radius.add(other.radius);
        proof {
            lemma_fmul_bound(rr.raw as int, rr.raw as int, 0x4000, 0x4000);
            lemma_fmul_bound(dvx.raw as int, dvx.raw as int, 0x4000, 0x4000);
            lemma_fmul_bound(dvy.raw as int, dvy.raw as int, 0x4000, 0x4000);
            lemma_fmul_sq_nonneg(dvx.raw as int);
            lemma_fmul_sq_nonneg(dvy.raw as int);
            lemma_fmul_bound(dx.raw as int, dvx.raw as int, 0x20_0000, 0x4000);
            lemma_fmul_bound(dy.raw as int, dvy.raw as int, 0x20_0000, 0x4000);
            lemma_fmul_bound(dx.raw as int, dx.raw as int, 0x20_0000, 0x20_0000);
            lemma_fmul_bound(dy.raw as int, dy.raw as int, 0x20_0000, 0x20_0000);
        }
        let distance = rr.mul(rr);
        let a = dvx.mul(dvx).add(dvy.mul(dvy));
        let inner = dx.mul(dvx).add(dy.mul(dvy));
        proof {
            lemma_fmul_bound(512, inner.raw as int, 512, 0x1000_0000);
        }
        let b = Fixed::from_int(2).mul(inner);
        let c = dx.mul(dx).add(dy.mul(dy)).sub(distance);
        proof {
            lemma_fmul_bound(b.raw as int, b.raw as int, 0x2000_0000, 0x2000_0000);
            lemma_fmul_bound(1024, a.raw as int, 1024, 0x20_0000);
        }
        let four_a = Fixed::from_int(4).mul(a);
        proof {
            lemma_fmul_bound(four_a.raw as int, c.raw as int, 0x80_0000, 0x10_0000_0000);
        }
        let d = b.mul(b).sub(four_a.mul(c));
        if a.raw == 0 {
            Fixed { raw: 0 }
        } else {
            let e = if d.raw > 0 {
                d.sqrt()
            } else {
                Fixed { raw: 0 }
            };
            proof {
                if d.raw > 0 {
                    lemma_sqrt_le(d.raw * 256, e.raw as int, 0x4000_0000);
                }
                assert(fmul(512, a.raw as int) >= 2) by (nonlinear_arith)
                    requires
                        a.raw >= 1,
                ;
                assert(fmul(512, a.raw as int) <= 0x80_0000) by (nonlinear_arith)
                    requires
                        1 <= a.raw <= 0x20_0000,
                ;
            }
            let denom = Fixed::from_int(2).mul(a);
            let t1 = b.neg().sub(e).div(denom);
            proof {
                lemma_tdiv_abs_le((-b.raw - e.raw) * 256, denom.raw as int);
            }
            t1
        }
    }
}

} // verus!
