//! Small numeric conveniences shared by the physics and the world.

use vstd::prelude::*;

use crate::fixed::clamp_raw;
use crate::fixed::fmul;
use crate::fixed::Fixed;
use crate::fixed::Vec2;
use crate::fixed::Vec2i;

verus! {

/// The fixed-point vector with whole components `x` and `y`.
pub fn fvec(x: i32, y: i32) -> (r: Vec2)
    ensures
        r.x.raw == x * 256,
        r.y.raw == y * 256,
{
    Vec2 { x: Fixed::from_int(x as i64), y: Fixed::from_int(y as i64) }
}

/// The integer vector with both components equal to `x`.
pub fn isplat(x: i32) -> (r: Vec2i)
    ensures
        r.x == x,
        r.y == x,
{
    Vec2i { x, y: x }
}

/// The fixed-point vector with both whole components equal to `x`.
pub fn fsplat(x: i32) -> (r: Vec2)
    ensures
        r.x.raw == x * 256,
        r.y.raw == x * 256,
{
    fvec(x, x)
}

/// `n` forced into `[lower, upper]`; the upper bound wins when the two cross.
pub fn iclamp(n: i32, lower: i32, upper: i32) -> (out: i32)
    ensures
        out == clamp_raw(n as int, lower as int, upper as int),
{
    let mut out = n;
    if n < lower {
        out = lower;
    }
    if n > upper {
        out = upper;
    }
    out
}

/// Extra operations on the fixed-point scalar.
pub trait FixedExtend: Sized {
    /// Inputs on which the operation is defined.
    spec fn acos_ok(self) -> bool;

    /// The value the operation returns.
    spec fn acos_spec(self) -> Self;

    /// A coarse linear approximation of the arc cosine, in radians.
    fn acos(self) -> (r: Self)
        requires
            self.acos_ok(),
        ensures
            r == self.acos_spec(),
    ;
}

impl FixedExtend for Fixed {
    /// Defined wherever the product with pi/2 stays in range.
    open spec fn acos_ok(self) -> bool {
        self.abs_le(0x4000_0000_0000)
    }

    /// `1.57079 - 1.57079 * x`, both constants rounded to raw 402.
    open spec fn acos_spec(self) -> Fixed {
        Fixed { raw: (402 - fmul(402, self.raw as int)) as i64 }
    }

    fn acos(self) -> (r: Fixed) {
        proof {
            crate::fixed::lemma_fmul_bound(402, self.raw as int, 402, 0x4000_0000_0000);
        }
        Fixed { raw: 402 }.sub(Fixed { raw: 402 }.mul(self))
    }
}

/// The fixed-point square of `num`.
pub fn sq(num: Fixed) -> (r: Fixed)
    requires
        num.abs_le(0x4000_0000),
    ensures
        r.raw == fmul(num.raw as int, num.raw as int),
{
    proof {
        crate::fixed::lemma_fmul_bound(num.raw as int, num.raw as int, 0x4000_0000, 0x4000_0000);
    }
    num.mul(num)
}

} // verus!
