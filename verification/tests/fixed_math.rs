//! The fixed-point scalar, the vectors, and the small numeric helpers.

use fruit_pit::fixed::isqrt_u64;
use fruit_pit::fixed::Fixed;
use fruit_pit::fixed::Vec2;
use fruit_pit::math_helpers::fsplat;
use fruit_pit::math_helpers::fvec;
use fruit_pit::math_helpers::iclamp;
use fruit_pit::math_helpers::isplat;
use fruit_pit::math_helpers::sq;
use fruit_pit::math_helpers::FixedExtend;
use fruit_pit::physics::clamp;

fn fx(raw: i64) -> Fixed {
    Fixed { raw }
}

#[test]
fn from_int_scales_by_256() {
    assert_eq!(Fixed::from_int(0).raw, 0);
    assert_eq!(Fixed::from_int(6).raw, 1536);
    assert_eq!(Fixed::from_int(-6).raw, -1536);
}

#[test]
fn add_sub_neg_abs() {
    assert_eq!(fx(300).add(fx(-44)).raw, 256);
    assert_eq!(fx(300).sub(fx(44)).raw, 256);
    assert_eq!(fx(300).neg().raw, -300);
    assert_eq!(fx(-300).abs().raw, 300);
    assert_eq!(fx(300).abs().raw, 300);
}

#[test]
fn mul_rounds_toward_zero() {
    // 1.5 * 1.5 = 2.25 exactly.
    assert_eq!(fx(384).mul(fx(384)).raw, 576);
    // 3/256 * -100/256 = -300/65536, truncated toward zero to -1 raw.
    assert_eq!(fx(3).mul(fx(-100)).raw, -1);
    assert_eq!(fx(-3).mul(fx(-100)).raw, 1);
}

#[test]
fn div_rounds_toward_zero() {
    assert_eq!(Fixed::from_int(7).div(Fixed::from_int(2)).raw, 896);  // 3.5
    assert_eq!(Fixed::from_int(-1).div(Fixed::from_int(3)).raw, -85);
    assert_eq!(Fixed::from_int(1).div(Fixed::from_int(3)).raw, 85);
}

#[test]
fn sqrt_rounds_down() {
    assert_eq!(Fixed::from_int(9).sqrt().raw, Fixed::from_int(3).raw);
    assert_eq!(Fixed::from_int(2).sqrt().raw, 362);  // sqrt(2) = 1.4142...
    assert_eq!(fx(0).sqrt().raw, 0);
}

#[test]
fn floor_rounds_toward_negative_infinity() {
    assert_eq!(fx(256).floor(), 1);
    assert_eq!(fx(300).floor(), 1);
    assert_eq!(fx(-1).floor(), -1);
    assert_eq!(fx(-256).floor(), -1);
    assert_eq!(fx(-257).floor(), -2);
}

#[test]
fn isqrt_exact_values() {
    assert_eq!(isqrt_u64(0), 0);
    assert_eq!(isqrt_u64(1), 1);
    assert_eq!(isqrt_u64(3), 1);
    assert_eq!(isqrt_u64(4), 2);
    assert_eq!(isqrt_u64(6553600), 2560);
    assert_eq!(isqrt_u64(u64::MAX), 4294967295);
}

#[test]
fn magnitude_of_three_four_is_five() {
    let v = fvec(3, 4);
    assert_eq!(v.magnitude().raw, Fixed::from_int(5).raw);
    assert_eq!(v.magnitude_squared().raw, Fixed::from_int(25).raw);
}

#[test]
fn normalise_axis_vector_is_unit() {
    let v = fvec(3, 0);
    let n = v.normalise();
    assert_eq!(n.x.raw, 256);
    assert_eq!(n.y.raw, 0);
    let w = fvec(0, -3).normalise();
    assert_eq!(w.x.raw, 0);
    assert_eq!(w.y.raw, -256);
}

#[test]
fn normalise_of_zero_is_zero() {
    let n = Vec2::zero().normalise();
    assert_eq!(n.x.raw, 0);
    assert_eq!(n.y.raw, 0);
}

#[test]
fn vector_helpers() {
    assert_eq!(fvec(2, -3).x.raw, 512);
    assert_eq!(fvec(2, -3).y.raw, -768);
    assert_eq!(fsplat(-6).x.raw, -1536);
    assert_eq!(fsplat(-6).y.raw, -1536);
    assert_eq!(isplat(40).x, 40);
    assert_eq!(isplat(40).y, 40);
    let s = fvec(1, 2).add(fvec(3, 4)).sub(fvec(2, 2));
    assert_eq!(s.x.raw, 512);
    assert_eq!(s.y.raw, 1024);
}

#[test]
fn iclamp_forces_into_range() {
    assert_eq!(iclamp(5, 0, 10), 5);
    assert_eq!(iclamp(-5, 0, 10), 0);
    assert_eq!(iclamp(15, 0, 10), 10);
    assert_eq!(iclamp(10, 0, 10), 10);
}

#[test]
fn clamp_is_componentwise() {
    let out = clamp(fvec(100, -5), fvec(0, 0), fvec(50, 50));
    assert_eq!(out.x.raw, 50 * 256);
    assert_eq!(out.y.raw, 0);
    let same = clamp(fvec(25, 25), fvec(0, 0), fvec(50, 50));
    assert_eq!(same.x.raw, 25 * 256);
    assert_eq!(same.y.raw, 25 * 256);
}

#[test]
fn sq_squares() {
    assert_eq!(sq(Fixed::from_int(12)).raw, Fixed::from_int(144).raw);
    assert_eq!(sq(fx(-384)).raw, 576);
}

#[test]
fn acos_linear_approximation() {
    // acos(0) is about pi/2, raw 402; acos(1) collapses to 0.
    assert_eq!(Fixed::from_int(0).acos().raw, 402);
    assert_eq!(Fixed::from_int(1).acos().raw, 0);
}
