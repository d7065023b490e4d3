//! Shared numeric constants and angle conversion.

use vstd::prelude::*;

use crate::fixed::FX_MAX;
use crate::fixed::FX_ONE;
use crate::fixed::add_fx;
use crate::fixed::div_floor;
use crate::fixed::div_fx;
use crate::fixed::fits;
use crate::fixed::fx_div;
use crate::fixed::fx_mul;
use crate::fixed::mul_fx;
use crate::fixed::sub_fx;

verus! {

/// The circle constant, rounded to the fixed-point grid.
pub const FX_PI: i128 = 3_141_593;

/// Half a turn, in fixed-point degrees.
pub const DEG_HALF_TURN: i128 = 180_000_000;

/// Stand-in for an unbounded ray parameter: the largest scalar.
pub const FX_INF: i128 = FX_MAX;

/// Degrees converted to radians: `d * pi / 180`.
pub open spec fn spec_deg_to_rad(d: int) -> int {
    fx_div(fx_mul(d, FX_PI as int), DEG_HALF_TURN as int)
}

/// Degrees converted to radians.
pub fn deg_to_rad(degrees: i128) -> (r: i128)
    requires
        fits(degrees as int),
    ensures
        r as int == spec_deg_to_rad(degrees as int),
        fits(r as int),
{
    div_fx(mul_fx(degrees, FX_PI), DEG_HALF_TURN)
}

/// A quarter turn, in fixed-point radians.
pub const FX_HALF_PI: i128 = 1_570_796;

/// Truncated alternating series for the sine of a small nonnegative
/// angle, evaluated on the fixed-point grid.
pub open spec fn spec_sin_series(x: int) -> int {
    let x2 = fx_mul(x, x);
    let x3 = fx_mul(x2, x);
    let t3 = x3 / 6;
    let x5 = fx_mul(x3, x2);
    let t5 = x5 / 120;
    let x7 = fx_mul(x5, x2);
    let t7 = x7 / 5040;
    crate::fixed::fx_sub(crate::fixed::fx_add(crate::fixed::fx_sub(x, t3), t5), t7)
}

/// Truncated alternating series for the cosine of a small nonnegative
/// angle, evaluated on the fixed-point grid.
pub open spec fn spec_cos_series(x: int) -> int {
    let x2 = fx_mul(x, x);
    let t2 = x2 / 2;
    let x4 = fx_mul(x2, x2);
    let t4 = x4 / 24;
    let x6 = fx_mul(x4, x2);
    let t6 = x6 / 720;
    crate::fixed::fx_sub(crate::fixed::fx_add(crate::fixed::fx_sub(FX_ONE as int, t2), t4), t6)
}

/// Tangent of a nonnegative angle as the ratio of the two series; at
/// and beyond a quarter turn, or wherever the cosine estimate is not
/// positive, it saturates to the largest scalar.
pub open spec fn spec_tan(x: int) -> int {
    if x >= FX_HALF_PI as int {
        FX_MAX as int
    } else {
        let s = spec_sin_series(x);
        let c = spec_cos_series(x);
        if c <= 0 {
            FX_MAX as int
        } else {
            fx_div(s, c)
        }
    }
}

/// Tangent of a nonnegative fixed-point angle, saturating at and
/// beyond a quarter turn.
pub fn tan_fx(x: i128) -> (r: i128)
    requires
        0 <= x,
        fits(x as int),
    ensures
        r as int == spec_tan(x as int),
        fits(r as int),
{
    if x >= FX_HALF_PI {
        return FX_MAX;
    }
    proof {
        lemma_series_terms_bounded(x as int);
    }
    let x2 = mul_fx(x, x);
    let x3 = mul_fx(x2, x);
    let t3 = div_floor(x3, 6);
    let x5 = mul_fx(x3, x2);
    let t5 = div_floor(x5, 120);
    let x7 = mul_fx(x5, x2);
    let t7 = div_floor(x7, 5040);
    let s = sub_fx(add_fx(sub_fx(x, t3), t5), t7);
    let t2 = div_floor(x2, 2);
    let x4 = mul_fx(x2, x2);
    let t4 = div_floor(x4, 24);
    let x6 = mul_fx(x4, x2);
    let t6 = div_floor(x6, 720);
    let c = sub_fx(add_fx(sub_fx(FX_ONE, t2), t4), t6);
    if c <= 0 {
        FX_MAX
    } else {
        div_fx(s, c)
    }
}

/// Every truncated-series term of a small angle is nonnegative and in
/// range, so the series sums stay representable.
proof fn lemma_series_terms_bounded(x: int)
    requires
        0 <= x,
        fits(x),
    ensures
        0 <= fx_mul(x, x) <= FX_MAX as int,
        0 <= fx_mul(x, x) / 2 <= FX_MAX as int,
        0 <= fx_mul(fx_mul(x, x), x) / 6 <= FX_MAX as int,
        0 <= fx_mul(fx_mul(fx_mul(x, x), x), fx_mul(x, x)) / 120 <= FX_MAX as int,
        0 <= fx_mul(fx_mul(fx_mul(fx_mul(x, x), x), fx_mul(x, x)), fx_mul(x, x)) / 5040
            <= FX_MAX as int,
        0 <= fx_mul(fx_mul(x, x), fx_mul(x, x)) / 24 <= FX_MAX as int,
        0 <= fx_mul(fx_mul(fx_mul(x, x), fx_mul(x, x)), fx_mul(x, x)) / 720 <= FX_MAX as int,
    {
    let x2 = fx_mul(x, x);
    let x3 = fx_mul(x2, x);
    let x4 = fx_mul(x2, x2);
    let x5 = fx_mul(x3, x2);
    let x6 = fx_mul(x4, x2);
    let x7 = fx_mul(x5, x2);
    crate::fixed::lemma_fx_mul_nonneg(x, x);
    crate::fixed::lemma_fx_mul_nonneg(x2, x);
    crate::fixed::lemma_fx_mul_nonneg(x2, x2);
    crate::fixed::lemma_fx_mul_nonneg(x3, x2);
    crate::fixed::lemma_fx_mul_nonneg(x4, x2);
    crate::fixed::lemma_fx_mul_nonneg(x5, x2);
    vstd::arithmetic::div_mod::lemma_div_nonincreasing(x2, 2);
    vstd::arithmetic::div_mod::lemma_div_nonincreasing(x3, 6);
    vstd::arithmetic::div_mod::lemma_div_nonincreasing(x5, 120);
    vstd::arithmetic::div_mod::lemma_div_nonincreasing(x7, 5040);
    vstd::arithmetic::div_mod::lemma_div_nonincreasing(x4, 24);
    vstd::arithmetic::div_mod::lemma_div_nonincreasing(x6, 720);
    vstd::arithmetic::div_mod::lemma_div_pos_is_pos(x2, 2);
    vstd::arithmetic::div_mod::lemma_div_pos_is_pos(x3, 6);
    vstd::arithmetic::div_mod::lemma_div_pos_is_pos(x5, 120);
    vstd::arithmetic::div_mod::lemma_div_pos_is_pos(x7, 5040);
    vstd::arithmetic::div_mod::lemma_div_pos_is_pos(x4, 24);
    vstd::arithmetic::div_mod::lemma_div_pos_is_pos(x6, 720);
}

} // verus!
