//! The sensitivity transform of the sending side: a raw touch offset
//! component is scaled against the emission period and the sensitivity
//! constant and then squared, so that the joystick feels dead near its
//! center and accelerates towards its edge.  The transform is pure and odd:
//! negating the input negates the output.

use vstd::prelude::*;

verus! {

/// Period of the emission tick, in milliseconds.
pub const THROTTLE_TIME_MILLIS: u32 = 20;

/// Gain applied to a raw offset component before the curve.
pub const SENSITIVITY: u32 = 10;

/// Denominator of the scaling step: the raw component is divided by
/// `100 * THROTTLE_TIME_MILLIS` (and multiplied by `SENSITIVITY`) before the
/// curve, a square, is applied.
pub const SCALE_DIVISOR: u32 = 100 * THROTTLE_TIME_MILLIS;

pub open spec fn abs_val(v: int) -> int {
    if v < 0 {
        -v
    } else {
        v
    }
}

/// Magnitude part of the transform: `((|v| * SENSITIVITY) / SCALE_DIVISOR) ^ 2`,
/// computed exactly over the rationals and truncated once at the end, i.e.
/// `(|v| * SENSITIVITY)^2 / SCALE_DIVISOR^2` in integer division.
pub open spec fn adapt_magnitude(v: int) -> int {
    (abs_val(v) * SENSITIVITY * (abs_val(v) * SENSITIVITY)) / ((SCALE_DIVISOR * SCALE_DIVISOR) as int)
}

/// The full transform: the curved magnitude carrying the sign of the input.
pub open spec fn adapt_spec(v: int) -> int {
    if v < 0 {
        -adapt_magnitude(v)
    } else {
        adapt_magnitude(v)
    }
}

/// The transformed magnitude is the same for `v` and `-v`, and the sign is
/// flipped: the transform is an odd function.
pub proof fn lemma_adapt_symmetric(v: int)
    ensures
        adapt_spec(-v) == -adapt_spec(v),
{
    assert(abs_val(-v) == abs_val(v));
    assert(adapt_magnitude(-v) == adapt_magnitude(v));
    if v == 0 {
        assert(abs_val(0) * SENSITIVITY == 0) by (nonlinear_arith);
        assert(adapt_magnitude(0) == 0int / ((SCALE_DIVISOR * SCALE_DIVISOR) as int));
        assert(adapt_magnitude(0) == 0);
    }
}

/// Saturation of a transformed component into the 32-bit range of a wire
/// offset.  The bound is symmetric, so saturation keeps the transform odd.
pub open spec fn clamp_i32(v: int) -> int {
    if v > i32::MAX {
        i32::MAX as int
    } else if v < -(i32::MAX as int) {
        -(i32::MAX as int)
    } else {
        v
    }
}

/// Saturates a transformed component into the 32-bit wire range.
pub fn clamp(v: i64) -> (r: i32)
    ensures
        r as int == clamp_i32(v as int),
{
    if v > i32::MAX as i64 {
        i32::MAX
    } else if v < -(i32::MAX as i64) {
        -i32::MAX
    } else {
        v as i32
    }
}

/// The whole component transform, saturation included, is an odd function:
/// for a raw component `v` the output for `-v` has the same magnitude and
/// the flipped sign.
pub proof fn lemma_transform_odd(v: int)
    ensures
        clamp_i32(adapt_spec(-v)) == -clamp_i32(adapt_spec(v)),
{
    lemma_adapt_symmetric(v);
}

/// Applies the sensitivity transform to one raw offset component.
pub fn adapt(v: i32) -> (r: i64)
    ensures
        r == adapt_spec(v as int),
{
    let mag: i64 = if v >= 0 {
        v as i64
    } else {
        -(v as i64)
    };
    assert(0 <= mag <= 2147483648int);
    let scaled: i64 = mag * 10;
    assert(scaled == mag * (SENSITIVITY as i64));
    assert(0 <= (scaled as i128) * (scaled as i128) <= 461168601842738790400int) by (nonlinear_arith)
        requires
            0 <= scaled <= 21474836480int,
    ;
    let squared: i128 = (scaled as i128) * (scaled as i128);
    let curved: i128 = squared / 4000000;
    assert(4000000 == (SCALE_DIVISOR * SCALE_DIVISOR) as int);
    assert(0 <= curved <= i64::MAX) by {
        assert(0 <= squared <= 461168601842738790400int) by (nonlinear_arith)
            requires
                0 <= scaled <= 21474836480int,
                squared == (scaled as i128) * (scaled as i128),
        ;
        assert(squared / 4000000 <= 461168601842738790400int / 4000000) by (nonlinear_arith)
            requires
                0 <= squared <= 461168601842738790400int,
        ;
    }
    let curved64: i64 = curved as i64;
    if v < 0 {
        -curved64
    } else {
        curved64
    }
}

} // verus!
