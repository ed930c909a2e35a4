//! 24.8 fixed-point scalars and 2-D vectors.
//!
//! A scalar is a signed integer count of 1/256 steps (`raw`).  All physics
//! arithmetic happens on these raw counts, so motion is deterministic and
//! reproducible; multiplication and division round toward zero, and the
//! square root rounds down.

use vstd::prelude::*;

verus! {

/// Raw steps per whole world unit: 8 fractional bits.
pub const SCALE: i64 = 256;

/// Truncating (round-toward-zero) integer division; 0 when the divisor is 0.
pub open spec fn tdiv(a: int, b: int) -> int {
    if b == 0 {
        0
    } else {
        let q = vstd::math::abs(a) as int / vstd::math::abs(b) as int;
        if (a < 0) == (b < 0) {
            q
        } else {
            -q
        }
    }
}

/// Raw value of the fixed-point product of two raw values.
pub open spec fn fmul(a: int, b: int) -> int {
    tdiv(a * b, 256)
}

/// Raw value of the fixed-point quotient of two raw values.
pub open spec fn fdiv(a: int, b: int) -> int {
    tdiv(a * 256, b)
}

/// `r` is the square root of `n`, rounded down.
pub open spec fn is_sqrt(n: int, r: int) -> bool {
    &&& 0 <= r
    &&& r * r <= n
    &&& n < (r + 1) * (r + 1)
}

/// The square root of `n`, rounded down (meaningful for `n >= 0`).
pub closed spec fn sqrt_floor(n: int) -> int {
    choose|r: int| is_sqrt(n, r)
}

/// Raw value of the fixed-point square root of a nonnegative raw value.
pub open spec fn fsqrt(a: int) -> int {
    sqrt_floor(a * 256)
}

proof fn lemma_sqrt_unique(n: int, r1: int, r2: int)
    by (nonlinear_arith)
    requires
        is_sqrt(n, r1),
        is_sqrt(n, r2),
    ensures
        r1 == r2,
{
}

/// A witness pins `sqrt_floor` down.
pub proof fn lemma_sqrt_floor_of(n: int, r: int)
    requires
        is_sqrt(n, r),
    ensures
        sqrt_floor(n) == r,
        is_sqrt(n, sqrt_floor(n)),
{
    assert(is_sqrt(n, sqrt_floor(n))) by {
        assert(exists|q: int| #[trigger] is_sqrt(n, q));
    }
    lemma_sqrt_unique(n, r, sqrt_floor(n));
}

/// The vector with the given raw components.
pub open spec fn vec_raw(x: int, y: int) -> Vec2 {
    Vec2 { x: Fixed { raw: x as i64 }, y: Fixed { raw: y as i64 } }
}

/// `v` forced into `[lo, hi]`; the upper bound wins when the two cross.
pub open spec fn clamp_raw(v: int, lo: int, hi: int) -> int {
    if v > hi {
        hi
    } else if v < lo {
        lo
    } else {
        v
    }
}

/// A square root is bounded by any bound on the square.
pub proof fn lemma_sqrt_le(n: int, r: int, b: int)
    by (nonlinear_arith)
    requires
        is_sqrt(n, r),
        b >= 0,
        n <= b * b,
    ensures
        r <= b,
{
}

/// Bound on a product from bounds on its factors.
pub proof fn lemma_abs_mul_le(a: int, b: int, ba: int, bb: int)
    by (nonlinear_arith)
    requires
        vstd::math::abs(a) <= ba,
        vstd::math::abs(b) <= bb,
    ensures
        vstd::math::abs(a * b) <= ba * bb,
{
}

/// Bounds on the factors bound the plain and the fixed-point product.
pub proof fn lemma_fmul_bound(a: int, b: int, ba: int, bb: int)
    requires
        vstd::math::abs(a) <= ba,
        vstd::math::abs(b) <= bb,
    ensures
        -(ba * bb) <= a * b <= ba * bb,
        -(ba * bb) <= fmul(a, b) <= ba * bb,
        vstd::math::abs(fmul(a, b)) <= (ba * bb) / 256,
{
    lemma_abs_mul_le(a, b, ba, bb);
    lemma_tdiv_abs_le(a * b, 256);
    lemma_tdiv_abs_monotone(a * b, ba * bb, 256);
}

/// A fixed-point product of same-signed factors is nonnegative, and of
/// opposite-signed factors nonpositive.
pub proof fn lemma_fmul_sign(a: int, b: int)
    ensures
        a >= 0 && b >= 0 ==> fmul(a, b) >= 0,
        a <= 0 && b >= 0 ==> fmul(a, b) <= 0,
        a >= 0 && b <= 0 ==> fmul(a, b) <= 0,
        a <= 0 && b <= 0 ==> fmul(a, b) >= 0,
{
    assert(a >= 0 && b >= 0 ==> a * b >= 0) by (nonlinear_arith);
    assert(a <= 0 && b >= 0 ==> a * b <= 0) by (nonlinear_arith);
    assert(a >= 0 && b <= 0 ==> a * b <= 0) by (nonlinear_arith);
    assert(a <= 0 && b <= 0 ==> a * b >= 0) by (nonlinear_arith);
    lemma_tdiv_abs_le(a * b, 256);
}

/// A fixed-point square is nonnegative and at most the plain square.
pub proof fn lemma_fmul_sq_nonneg(v: int)
    ensures
        0 <= fmul(v, v),
        v * v >= 0,
{
    assert(v * v >= 0) by (nonlinear_arith);
    lemma_tdiv_abs_le(v * v, 256);
}

/// Truncating division shrinks the magnitude: `|a / b| <= |a|` for `b >= 1`.
pub proof fn lemma_tdiv_abs_le(a: int, b: int)
    by (nonlinear_arith)
    requires
        b >= 1,
    ensures
        vstd::math::abs(tdiv(a, b)) * b <= vstd::math::abs(a),
        vstd::math::abs(tdiv(a, b)) <= vstd::math::abs(a),
        a >= 0 ==> tdiv(a, b) >= 0,
        a <= 0 ==> tdiv(a, b) <= 0,
{
}

/// Truncating division is monotone in the magnitude of the dividend.
pub proof fn lemma_tdiv_abs_monotone(a: int, c: int, b: int)
    by (nonlinear_arith)
    requires
        b >= 1,
        vstd::math::abs(a) <= c,
    ensures
        vstd::math::abs(tdiv(a, b)) <= c / b,
{
}

/// Truncating division of a raw value by a positive divisor.
fn div_trunc(a: i64, b: u64) -> (q: i64)
    requires
        b >= 1,
        a > i64::MIN,
    ensures
        q == tdiv(a as int, b as int),
{
    if a >= 0 {
        let m: u64 = (a as u64) / b;
        proof {
            vstd::arithmetic::div_mod::lemma_div_nonincreasing(a as int, b as int);
            vstd::arithmetic::div_mod::lemma_div_pos_is_pos(a as int, b as int);
        }
        m as i64
    } else {
        let m: u64 = ((-a) as u64) / b;
        proof {
            vstd::arithmetic::div_mod::lemma_div_nonincreasing(-a as int, b as int);
            vstd::arithmetic::div_mod::lemma_div_pos_is_pos(-a as int, b as int);
        }
        -(m as i64)
    }
}

/// Square root of a 64-bit value, rounded down.
pub fn isqrt_u64(n: u64) -> (r: u64)
    ensures
        is_sqrt(n as int, r as int),
        r == sqrt_floor(n as int),
{
    let mut lo: u64 = 0;
    let mut hi: u64 = 4294967296;
    while lo + 1 < hi
        invariant
            lo < hi,
            hi <= 4294967296,
            (lo as int) * (lo as int) <= n as int,
            (n as int) < (hi as int) * (hi as int),
        decreases hi - lo,
    {
        let mid: u64 = lo + (hi - lo) / 2;
        assert(lo < mid < hi);
        assert(mid * mid <= 0xffff_fffe_0000_0001) by (nonlinear_arith)
            requires
                mid <= 4294967295u64,
        ;
        if mid * mid <= n {
            lo = mid;
        } else {
            hi = mid;
        }
    }
    proof {
        lemma_sqrt_floor_of(n as int, lo as int);
    }
    lo
}

/// One 24.8 fixed-point scalar, stored as its raw 1/256-step count.
#[derive(Clone, Copy, PartialEq, Eq, Structural, Debug)]
pub struct Fixed {
    pub raw: i64,
}

impl Fixed {
    /// The magnitude of the raw count is at most `b`.
    pub open spec fn abs_le(self, b: int) -> bool {
        -b <= self.raw <= b
    }

    /// The scalar equal to the integer `i`.
    pub fn from_int(i: i64) -> (r: Fixed)
        requires
            -0x20_0000_0000_0000 <= i <= 0x20_0000_0000_0000,
        ensures
            r.raw == i * 256,
    {
        Fixed { raw: i * 256 }
    }

    /// The whole part of the scalar, rounded toward negative infinity.
    pub fn floor(self) -> (r: i64)
        requires
            self.raw > i64::MIN,
        ensures
            r == self.raw as int / 256,
    {
        if self.raw >= 0 {
            (((self.raw as u64) / 256) as i64)
        } else {
            let m: u64 = ((-self.raw) as u64 + 255) / 256;
            proof {
                vstd::arithmetic::div_mod::lemma_fundamental_div_mod(
                    (-self.raw as int + 255) as int,
                    256,
                );
                vstd::arithmetic::div_mod::lemma_fundamental_div_mod(self.raw as int, 256);
            }
            -(m as i64)
        }
    }

    /// Sum; the caller keeps the raw values inside the 64-bit range.
    pub fn add(self, o: Fixed) -> (r: Fixed)
        requires
            i64::MIN <= self.raw + o.raw <= i64::MAX,
        ensures
            r.raw == self.raw + o.raw,
    {
        Fixed { raw: self.raw + o.raw }
    }

    /// Difference; the caller keeps the raw values inside the 64-bit range.
    pub fn sub(self, o: Fixed) -> (r: Fixed)
        requires
            i64::MIN <= self.raw - o.raw <= i64::MAX,
        ensures
            r.raw == self.raw - o.raw,
    {
        Fixed { raw: self.raw - o.raw }
    }

    /// Negation.
    pub fn neg(self) -> (r: Fixed)
        requires
            self.raw > i64::MIN,
        ensures
            r.raw == -self.raw,
    {
        Fixed { raw: -self.raw }
    }

    /// Magnitude.
    pub fn abs(self) -> (r: Fixed)
        requires
            self.raw > i64::MIN,
        ensures
            r.raw == vstd::math::abs(self.raw as int),
    {
        if self.raw < 0 {
            Fixed { raw: -self.raw }
        } else {
            self
        }
    }

    /// Fixed-point product, rounded toward zero.
    pub fn mul(self, o: Fixed) -> (r: Fixed)
        requires
            -0x2000_0000_0000_0000 <= self.raw * o.raw <= 0x2000_0000_0000_0000,
        ensures
            r.raw == fmul(self.raw as int, o.raw as int),
    {
        let p: i64 = self.raw * o.raw;
        Fixed { raw: div_trunc(p, 256) }
    }

    /// Fixed-point quotient, rounded toward zero.
    pub fn div(self, o: Fixed) -> (r: Fixed)
        requires
            o.raw != 0,
            o.raw > i64::MIN,
            -0x20_0000_0000_0000 <= self.raw <= 0x20_0000_0000_0000,
        ensures
            r.raw == fdiv(self.raw as int, o.raw as int),
    {
        let num: i64 = self.raw * 256;
        let den: u64 = if o.raw < 0 {
            (-o.raw) as u64
        } else {
            o.raw as u64
        };
        let q: i64 = div_trunc(num, den);
        if o.raw < 0 {
            proof {
                lemma_tdiv_abs_le(num as int, den as int);
            }
            Fixed { raw: -q }
        } else {
            Fixed { raw: q }
        }
    }

    /// Fixed-point square root of a nonnegative scalar, rounded down.
    pub fn sqrt(self) -> (r: Fixed)
        requires
            0 <= self.raw <= 0x40_0000_0000_0000,
        ensures
            r.raw == fsqrt(self.raw as int),
            is_sqrt(self.raw * 256, r.raw as int),
            0 <= r.raw,
    {
        let n: u64 = (self.raw as u64) * 256;
        let s: u64 = isqrt_u64(n);
        assert((s as int) * (s as int) <= n as int);
        assert(s <= 0x8000_0000u64) by (nonlinear_arith)
            requires
                (s as int) * (s as int) <= n as int,
                n <= 0x4000_0000_0000_0000u64,
        ;
        Fixed { raw: s as i64 }
    }
}

/// A pair of fixed-point scalars: a position, velocity or correction.
#[derive(Clone, Copy, PartialEq, Eq, Structural, Debug)]
pub struct Vec2 {
    pub x: Fixed,
    pub y: Fixed,
}

/// A pair of plain integers: a cursor or sprite coordinate.
#[derive(Clone, Copy, PartialEq, Eq, Structural, Debug)]
pub struct Vec2i {
    pub x: i32,
    pub y: i32,
}

impl Vec2 {
    /// Both components have raw magnitude at most `b`.
    pub open spec fn abs_le(self, b: int) -> bool {
        self.x.abs_le(b) && self.y.abs_le(b)
    }

    /// The zero vector.
    pub fn zero() -> (r: Vec2)
        ensures
            r.x.raw == 0 && r.y.raw == 0,
    {
        Vec2 { x: Fixed { raw: 0 }, y: Fixed { raw: 0 } }
    }

    /// Componentwise sum.
    pub fn add(self, o: Vec2) -> (r: Vec2)
        requires
            i64::MIN <= self.x.raw + o.x.raw <= i64::MAX,
            i64::MIN <= self.y.raw + o.y.raw <= i64::MAX,
        ensures
            r.x.raw == self.x.raw + o.x.raw,
            r.y.raw == self.y.raw + o.y.raw,
    {
        Vec2 { x: self.x.add(o.x), y: self.y.add(o.y) }
    }

    /// Componentwise difference.
    pub fn sub(self, o: Vec2) -> (r: Vec2)
        requires
            i64::MIN <= self.x.raw - o.x.raw <= i64::MAX,
            i64::MIN <= self.y.raw - o.y.raw <= i64::MAX,
        ensures
            r.x.raw == self.x.raw - o.x.raw,
            r.y.raw == self.y.raw - o.y.raw,
    {
        Vec2 { x: self.x.sub(o.x), y: self.y.sub(o.y) }
    }

    /// Componentwise negation.
    pub fn neg(self) -> (r: Vec2)
        requires
            self.x.raw > i64::MIN,
            self.y.raw > i64::MIN,
        ensures
            r.x.raw == -self.x.raw,
            r.y.raw == -self.y.raw,
    {
        Vec2 { x: self.x.neg(), y: self.y.neg() }
    }

    /// Both components scaled by the scalar `t`.
    pub fn scale(self, t: Fixed) -> (r: Vec2)
        requires
            -0x2000_0000_0000_0000 <= self.x.raw * t.raw <= 0x2000_0000_0000_0000,
            -0x2000_0000_0000_0000 <= self.y.raw * t.raw <= 0x2000_0000_0000_0000,
        ensures
            r.x.raw == fmul(self.x.raw as int, t.raw as int),
            r.y.raw == fmul(self.y.raw as int, t.raw as int),
    {
        Vec2 { x: self.x.mul(t), y: self.y.mul(t) }
    }

    /// Raw value of the squared length of a vector with raw components
    /// `x` and `y`.
    pub open spec fn spec_magnitude_squared(x: int, y: int) -> int {
        fmul(x, x) + fmul(y, y)
    }

    /// Squared length.
    pub fn magnitude_squared(self) -> (r: Fixed)
        requires
            self.abs_le(0x4000_0000),
        ensures
            r.raw == Vec2::spec_magnitude_squared(self.x.raw as int, self.y.raw as int),
            0 <= r.raw <= 0x20_0000_0000_0000,
    {
        proof {
            lemma_abs_mul_le(self.x.raw as int, self.x.raw as int, 0x4000_0000, 0x4000_0000);
            lemma_abs_mul_le(self.y.raw as int, self.y.raw as int, 0x4000_0000, 0x4000_0000);
            lemma_tdiv_abs_monotone(
                self.x.raw as int * self.x.raw as int,
                0x1000_0000_0000_0000,
                256,
            );
            lemma_tdiv_abs_monotone(
                self.y.raw as int * self.y.raw as int,
                0x1000_0000_0000_0000,
                256,
            );
            assert(self.x.raw as int * self.x.raw as int >= 0) by (nonlinear_arith);
            assert(self.y.raw as int * self.y.raw as int >= 0) by (nonlinear_arith);
            lemma_tdiv_abs_le(self.x.raw as int * self.x.raw as int, 256);
            lemma_tdiv_abs_le(self.y.raw as int * self.y.raw as int, 256);
        }
        self.x.mul(self.x).add(self.y.mul(self.y))
    }

    /// Length, rounded down to the nearest raw step.
    pub fn magnitude(self) -> (r: Fixed)
        requires
            self.abs_le(0x4000_0000),
        ensures
            r.raw == fsqrt(Vec2::spec_magnitude_squared(self.x.raw as int, self.y.raw as int)),
            is_sqrt(
                Vec2::spec_magnitude_squared(self.x.raw as int, self.y.raw as int) * 256,
                r.raw as int,
            ),
            0 <= r.raw,
    {
        self.magnitude_squared().sqrt()
    }

    /// Unit vector with this vector's direction, or zero when the squared
    /// length rounds to zero (no usable direction).
    pub fn normalise(self) -> (r: Vec2)
        requires
            self.abs_le(0x40_0000),
        ensures
            ({
                let m = fsqrt(Vec2::spec_magnitude_squared(self.x.raw as int, self.y.raw as int));
                if m == 0 {
                    r.x.raw == 0 && r.y.raw == 0
                } else {
                    r.x.raw == fdiv(self.x.raw as int, m) && r.y.raw == fdiv(self.y.raw as int, m)
                }
            }),
            r.abs_le(512),
    {
        let m = self.magnitude();
        if m.raw == 0 {
            Vec2::zero()
        } else {
            proof {
                lemma_normalise_bound(self.x.raw as int, self.y.raw as int, m.raw as int);
            }
            Vec2 { x: self.x.div(m), y: self.y.div(m) }
        }
    }
}

/// A component divided by the vector's rounded length is at most 2 whole
/// units in magnitude.
proof fn lemma_normalise_component(x: int, sq: int, m: int)
    by (nonlinear_arith)
    requires
        1 <= m,
        vstd::math::abs(x) <= 0x40_0000,
        256 * sq >= x * x - 510,
        (m + 1) * (m + 1) > 256 * sq,
        256 * sq >= 256,
    ensures
        vstd::math::abs(x) <= 2 * m,
{
}

/// After `normalise`, each raw component is at most 512 (2.0) in magnitude.
proof fn lemma_normalise_bound(x: int, y: int, m: int)
    requires
        vstd::math::abs(x) <= 0x40_0000,
        vstd::math::abs(y) <= 0x40_0000,
        m == fsqrt(Vec2::spec_magnitude_squared(x, y)),
        m >= 1,
    ensures
        vstd::math::abs(fdiv(x, m)) <= 512,
        vstd::math::abs(fdiv(y, m)) <= 512,
{
    let sq = Vec2::spec_magnitude_squared(x, y);
    assert(tdiv(x * x, 256) >= 0 && 256 * tdiv(x * x, 256) >= x * x - 510) by (nonlinear_arith);
    assert(tdiv(y * y, 256) >= 0 && 256 * tdiv(y * y, 256) >= y * y - 510) by (nonlinear_arith);
    assert(256 * sq >= x * x - 510 && 256 * sq >= y * y - 510 && sq >= 0) by (nonlinear_arith)
        requires
            sq == tdiv(x * x, 256) + tdiv(y * y, 256),
            tdiv(x * x, 256) >= 0 && 256 * tdiv(x * x, 256) >= x * x - 510,
            tdiv(y * y, 256) >= 0 && 256 * tdiv(y * y, 256) >= y * y - 510,
    ;
    assert(is_sqrt(sq * 256, m)) by {
        assert(m == sqrt_floor(sq * 256));
        assert(0 <= 0 && 0 * 0 <= sq * 256) by (nonlinear_arith)
            requires
                sq >= 0,
        ;
        lemma_sqrt_exists(sq * 256);
    }
    assert(256 * sq >= 256) by (nonlinear_arith)
        requires
            is_sqrt(sq * 256, m),
            m >= 1,
            sq >= 0,
    ;
    lemma_normalise_component(x, sq, m);
    lemma_normalise_component(y, sq, m);
    assert(vstd::math::abs(fdiv(x, m)) <= 512) by {
        lemma_tdiv_abs_monotone(x * 256, 2 * m * 256, m);
        assert(vstd::math::abs(x * 256) <= 2 * m * 256) by (nonlinear_arith)
            requires
                vstd::math::abs(x) <= 2 * m,
        ;
        assert((2 * m * 256) / m == 512) by (nonlinear_arith)
            requires
                m >= 1,
        ;
    }
    assert(vstd::math::abs(fdiv(y, m)) <= 512) by {
        lemma_tdiv_abs_monotone(y * 256, 2 * m * 256, m);
        assert(vstd::math::abs(y * 256) <= 2 * m * 256) by (nonlinear_arith)
            requires
                vstd::math::abs(y) <= 2 * m,
        ;
        assert((2 * m * 256) / m == 512) by (nonlinear_arith)
            requires
                m >= 1,
        ;
    }
}

/// Every nonnegative value has a rounded-down square root.
pub proof fn lemma_sqrt_exists(n: int)
    requires
        n >= 0,
    ensures
        exists|r: int| is_sqrt(n, r),
    decreases n,
{
    if n == 0 {
        assert(is_sqrt(0, 0)) by (nonlinear_arith);
    } else {
        lemma_sqrt_exists(n - 1);
        let r = choose|r: int| #[trigger] is_sqrt(n - 1, r);
        if (r + 1) * (r + 1) <= n {
            assert(is_sqrt(n, r + 1)) by (nonlinear_arith)
                requires
                    is_sqrt(n - 1, r),
                    (r + 1) * (r + 1) <= n,
            ;
        } else {
            assert(is_sqrt(n, r));
        }
    }
}

} // verus!
