//! Saturating fixed-point scalar arithmetic.
//!
//! Every scalar in this crate is an `i128` holding a real quantity scaled by
//! `FX_SCALE`: the stored value `v` stands for the real number `v / FX_SCALE`.
//! All operations clamp their result into `[-FX_MAX, FX_MAX]`, so every
//! function here is total on in-range inputs and returns an in-range value.

use vstd::prelude::*;
use vstd::arithmetic::div_mod::lemma_fundamental_div_mod;
use vstd::arithmetic::div_mod::lemma_fundamental_div_mod_converse_div;
use vstd::arithmetic::div_mod::lemma_mod_division_less_than_divisor;
use vstd::arithmetic::div_mod::lemma_div_pos_is_pos;
use vstd::arithmetic::div_mod::lemma_div_is_ordered;
use vstd::arithmetic::div_mod::lemma_div_by_multiple;
use vstd::arithmetic::div_mod::lemma_div_multiples_vanish;

verus! {

/// One whole unit: the scale factor of the fixed-point representation.
pub const FX_SCALE: i128 = 1_000_000;

/// The fixed-point value that stands for the real number one.
pub const FX_ONE: i128 = 1_000_000;

/// The fixed-point value that stands for the real number one half.
pub const FX_HALF: i128 = 500_000;

/// Largest magnitude a scalar may take; all operations saturate here.
pub const FX_MAX: i128 = 1_000_000_000_000_000_000;

/// A scalar is in range when its magnitude is at most `FX_MAX`.
pub open spec fn fits(x: int) -> bool {
    -FX_MAX <= x <= FX_MAX
}

/// Saturation: clamp an unbounded intermediate into the scalar range.
pub open spec fn fx_clamp(x: int) -> int {
    if x > FX_MAX as int {
        FX_MAX as int
    } else if x < -(FX_MAX as int) {
        -(FX_MAX as int)
    } else {
        x
    }
}

/// Saturating addition.
pub open spec fn fx_add(a: int, b: int) -> int {
    fx_clamp(a + b)
}

/// Saturating subtraction.
pub open spec fn fx_sub(a: int, b: int) -> int {
    fx_clamp(a - b)
}

/// Saturating negation (the clamp range is symmetric, so this is exact).
pub open spec fn fx_neg(a: int) -> int {
    fx_clamp(-a)
}

/// Saturating fixed-point product: the real product, rounded toward
/// negative infinity to the representable grid.
pub open spec fn fx_mul(a: int, b: int) -> int {
    fx_clamp((a * b) / (FX_SCALE as int))
}

/// Saturating fixed-point quotient for a positive divisor; a divisor
/// that is zero or negative yields zero by convention.
pub open spec fn fx_div(a: int, b: int) -> int {
    if b <= 0 {
        0
    } else {
        fx_clamp((a * FX_SCALE as int) / b)
    }
}

/// Integer square root, rounded down; zero on negative arguments.
pub open spec fn sqrt_floor(x: int) -> int
    decreases x,
{
    if x <= 0 {
        0
    } else {
        let r = sqrt_floor(x - 1);
        if (r + 1) * (r + 1) <= x {
            r + 1
        } else {
            r
        }
    }
}

/// Fixed-point square root: the real square root of `x / FX_SCALE`,
/// rounded down to the representable grid; zero on negative arguments.
pub open spec fn fx_sqrt(x: int) -> int {
    if x < 0 {
        0
    } else {
        sqrt_floor(x * FX_SCALE as int)
    }
}

/// `sqrt_floor(x)` is the integer square root: it is nonnegative, its
/// square is at most `x`, and the next square is beyond `x`.
pub proof fn lemma_sqrt_floor_props(x: int)
    requires
        x >= 0,
    ensures
        0 <= sqrt_floor(x),
        sqrt_floor(x) * sqrt_floor(x) <= x,
        x < (sqrt_floor(x) + 1) * (sqrt_floor(x) + 1),
    decreases x,
{
    if x == 0 {
    } else {
        lemma_sqrt_floor_props(x - 1);
        let r = sqrt_floor(x - 1);
        if (r + 1) * (r + 1) <= x {
            assert(x < (r + 2) * (r + 2)) by (nonlinear_arith)
                requires
                    x - 1 < (r + 1) * (r + 1),
                    r >= 0,
            ;
        }
    }
}

/// Two integers that both satisfy the square-root characterization of the
/// same argument are equal.
pub proof fn lemma_sqrt_unique(x: int, a: int, b: int)
    requires
        0 <= a,
        a * a <= x,
        x < (a + 1) * (a + 1),
        0 <= b,
        b * b <= x,
        x < (b + 1) * (b + 1),
    ensures
        a == b,
{
    if a < b {
        assert((a + 1) * (a + 1) <= b * b) by (nonlinear_arith)
            requires
                0 <= a,
                a < b,
        ;
    }
    if b < a {
        assert((b + 1) * (b + 1) <= a * a) by (nonlinear_arith)
            requires
                0 <= b,
                b < a,
        ;
    }
}

/// Multiplying by a scalar of at most one unit shrinks magnitudes: the
/// product of two scalars in `[0, FX_ONE]` is at most either factor.
pub proof fn lemma_fx_mul_unit(a: int, b: int)
    requires
        0 <= a <= FX_ONE,
        0 <= b <= FX_ONE,
    ensures
        0 <= fx_mul(a, b) <= a,
        fx_mul(a, b) <= b,
{
    let s = FX_SCALE as int;
    assert(0 <= a * b) by (nonlinear_arith)
        requires
            0 <= a,
            0 <= b,
    ;
    assert(a * b <= a * s && a * b <= b * s) by (nonlinear_arith)
        requires
            0 <= a <= s,
            0 <= b <= s,
    ;
    lemma_div_is_ordered(0, a * b, s);
    lemma_div_is_ordered(a * b, a * s, s);
    lemma_div_is_ordered(a * b, b * s, s);
    lemma_div_by_multiple(a, s);
    lemma_div_by_multiple(b, s);
}

/// Multiplying an in-range scalar by one unit is exact.
pub proof fn lemma_fx_mul_one(a: int)
    requires
        fits(a),
    ensures
        fx_mul(a, FX_ONE as int) == a,
        fx_mul(FX_ONE as int, a) == a,
{
    let s = FX_SCALE as int;
    assert(a * s == s * a) by (nonlinear_arith);
    lemma_div_multiples_vanish(a, s);
}

/// Clamp a scalar into the unit interval `[0, FX_ONE]`.
pub open spec fn fx_clamp01(x: int) -> int {
    if x < 0 {
        0
    } else if x > FX_ONE as int {
        FX_ONE as int
    } else {
        x
    }
}

/// Clamp a scalar into the unit interval `[0, FX_ONE]`.
pub fn clamp01_fx(x: i128) -> (r: i128)
    ensures
        r as int == fx_clamp01(x as int),
        0 <= r <= FX_ONE,
{
    if x < 0 {
        0
    } else if x > FX_ONE {
        FX_ONE
    } else {
        x
    }
}

/// Division of the negated dividend never exceeds the negated quotient:
/// for a positive divisor, `(-p)/d <= -(p/d)`.
pub proof fn lemma_div_neg(p: int, d: int)
    requires
        0 < d,
    ensures
        (-p) / d <= -(p / d),
{
    lemma_fundamental_div_mod(p, d);
    lemma_mod_division_less_than_divisor(p, d);
    let q = p / d;
    let r = p % d;
    assert((-q) * d == -(d * q)) by (nonlinear_arith);
    assert((-q - 1) * d == -(d * q) - d) by (nonlinear_arith);
    if r == 0 {
        lemma_fundamental_div_mod_converse_div(-p, d, -q, 0);
    } else {
        lemma_fundamental_div_mod_converse_div(-p, d, -q - 1, d - r);
    }
}

/// Multiplying by a negated in-range factor never exceeds the negated
/// product: rounding toward negative infinity only helps the bound.
pub proof fn lemma_fx_mul_neg(a: int, b: int)
    requires
        fits(a),
        fits(b),
    ensures
        fx_mul(a, -b) <= -fx_mul(a, b),
{
    assert(a * (-b) == -(a * b)) by (nonlinear_arith);
    lemma_div_neg(a * b, FX_SCALE as int);
}

/// The product of nonnegative scalars is nonnegative.
pub proof fn lemma_fx_mul_nonneg(a: int, b: int)
    requires
        0 <= a,
        0 <= b,
    ensures
        0 <= fx_mul(a, b),
{
    assert(0 <= a * b) by (nonlinear_arith)
        requires
            0 <= a,
            0 <= b,
    ;
    if a * b > 0 {
        lemma_div_pos_is_pos(a * b, FX_SCALE as int);
    }
}

/// Fixed-point multiplication by a nonnegative factor is monotone in
/// the other factor.
pub proof fn lemma_fx_mul_mono(a1: int, a2: int, b: int)
    requires
        a1 <= a2,
        0 <= b,
    ensures
        fx_mul(a1, b) <= fx_mul(a2, b),
{
    assert(a1 * b <= a2 * b) by (nonlinear_arith)
        requires
            a1 <= a2,
            0 <= b,
    ;
    lemma_div_is_ordered(a1 * b, a2 * b, FX_SCALE as int);
}

/// Fixed-point division by a positive divisor is monotone in the
/// dividend.
pub proof fn lemma_fx_div_ordered(a1: int, a2: int, b: int)
    requires
        a1 <= a2,
        0 < b,
    ensures
        fx_div(a1, b) <= fx_div(a2, b),
{
    lemma_div_is_ordered(a1 * FX_SCALE as int, a2 * FX_SCALE as int, b);
}

/// The fixed-point square root is never negative.
pub proof fn lemma_fx_sqrt_nonneg(x: int)
    ensures
        0 <= fx_sqrt(x),
{
    if x >= 0 {
        lemma_sqrt_floor_props(x * FX_SCALE as int);
    }
}

/// Exact decomposition of a fixed-point product whose operands are
/// small enough that no saturation occurs: the stored product times the
/// scale is the true product minus its nonnegative remainder.
pub proof fn lemma_fx_mul_decomp(a: int, b: int)
    requires
        fx_abs(a) * fx_abs(b) <= 999_999_999_999_999_999_000_000int,
    ensures
        fx_mul(a, b) * (FX_SCALE as int) == a * b - (a * b) % (FX_SCALE as int),
        0 <= (a * b) % (FX_SCALE as int) < FX_SCALE as int,
        fits(fx_mul(a, b)),
{
    let s = FX_SCALE as int;
    let p = a * b;
    assert(-999_999_999_999_999_999_000_000int <= p <= 999_999_999_999_999_999_000_000int)
        by (nonlinear_arith)
        requires
            fx_abs(a) * fx_abs(b) <= 999_999_999_999_999_999_000_000int,
            p == a * b,
    ;
    lemma_fundamental_div_mod(p, s);
    lemma_mod_division_less_than_divisor(p, s);
    let q = p / s;
    let r = p % s;
    assert(-1_000_000_000_000_000_000int <= q <= 999_999_999_999_999_999int) by (nonlinear_arith)
        requires
            p == s * q + r,
            0 <= r < s,
            s == 1_000_000,
            -999_999_999_999_999_999_000_000int <= p <= 999_999_999_999_999_999_000_000int,
    ;
}

/// Clamp a scalar into the representable range.
pub fn clamp_fx(x: i128) -> (r: i128)
    ensures
        r as int == fx_clamp(x as int),
        fits(r as int),
{
    if x > FX_MAX {
        FX_MAX
    } else if x < -FX_MAX {
        -FX_MAX
    } else {
        x
    }
}

/// Quotient of an `i128` by a positive divisor, rounded toward negative
/// infinity, matching `/` on mathematical integers for positive divisors.
pub fn div_floor(p: i128, d: i128) -> (q: i128)
    requires
        i128::MIN < p,
        0 < d,
    ensures
        q as int == p as int / d as int,
{
    if p >= 0 {
        let pu: u128 = p as u128;
        let du: u128 = d as u128;
        let qu: u128 = pu / du;
        proof {
            lemma_div_is_ordered(qu as int, pu as int, 1);
            assert(qu as int <= pu as int) by {
                lemma_div_pos_is_pos(pu as int, du as int);
                lemma_fundamental_div_mod(pu as int, du as int);
                lemma_mod_division_less_than_divisor(pu as int, du as int);
                assert(qu as int * du as int <= pu as int) by (nonlinear_arith)
                    requires
                        pu as int == du as int * (pu as int / du as int) + pu as int % du as int,
                        qu as int == pu as int / du as int,
                        0 <= pu as int % du as int,
                        0 < du as int,
                        0 <= qu as int,
                ;
                assert(qu as int <= qu as int * du as int) by (nonlinear_arith)
                    requires
                        0 <= qu as int,
                        1 <= du as int,
                ;
            }
        }
        qu as i128
    } else {
        let nu: u128 = (-p) as u128;
        let du: u128 = d as u128;
        let qu: u128 = (nu + du - 1) / du;
        proof {
            let n = nu as int;
            let dd = du as int;
            let q0 = n / dd;
            let r0 = n % dd;
            lemma_fundamental_div_mod(n, dd);
            lemma_mod_division_less_than_divisor(n, dd);
            lemma_div_pos_is_pos(n, dd);
            assert(n == q0 * dd + r0) by (nonlinear_arith)
                requires
                    n == dd * q0 + r0,
            ;
            assert((q0 + 1) * dd == q0 * dd + dd) by (nonlinear_arith);
            assert((-q0) * dd == -(q0 * dd)) by (nonlinear_arith);
            assert((-(q0 + 1)) * dd == -(q0 * dd) - dd) by (nonlinear_arith);
            if r0 == 0 {
                // n + dd - 1 leaves quotient q0 with remainder dd - 1
                lemma_fundamental_div_mod_converse_div(n + dd - 1, dd, q0, dd - 1);
                // p == (-q0) * dd + 0
                lemma_fundamental_div_mod_converse_div(p as int, dd, -q0, 0);
            } else {
                lemma_fundamental_div_mod_converse_div(n + dd - 1, dd, q0 + 1, r0 - 1);
                lemma_fundamental_div_mod_converse_div(p as int, dd, -(q0 + 1), dd - r0);
            }
            // the computed quotient fits back into i128
            assert(qu as int <= n) by (nonlinear_arith)
                requires
                    qu as int == (n + dd - 1) / dd,
                    n == dd * q0 + r0,
                    0 <= r0 < dd,
                    0 <= q0,
                    1 <= dd,
                    (r0 == 0 ==> qu as int == q0) && (r0 != 0 ==> qu as int == q0 + 1),
            ;
        }
        let qi: i128 = qu as i128;
        -qi
    }
}

/// Saturating addition of two in-range scalars.
pub fn add_fx(a: i128, b: i128) -> (r: i128)
    requires
        fits(a as int),
        fits(b as int),
    ensures
        r as int == fx_add(a as int, b as int),
        fits(r as int),
{
    clamp_fx(a + b)
}

/// Saturating subtraction of two in-range scalars.
pub fn sub_fx(a: i128, b: i128) -> (r: i128)
    requires
        fits(a as int),
        fits(b as int),
    ensures
        r as int == fx_sub(a as int, b as int),
        fits(r as int),
{
    clamp_fx(a - b)
}

/// Negation of an in-range scalar (exact, since the range is symmetric).
pub fn neg_fx(a: i128) -> (r: i128)
    requires
        fits(a as int),
    ensures
        r as int == fx_neg(a as int),
        r as int == -(a as int),
        fits(r as int),
{
    -a
}

/// Magnitude of an in-range scalar.
pub open spec fn fx_abs(a: int) -> int {
    if a < 0 {
        -a
    } else {
        a
    }
}

/// Absolute value of an in-range scalar.
pub fn abs_fx(a: i128) -> (r: i128)
    requires
        fits(a as int),
    ensures
        r as int == fx_abs(a as int),
        fits(r as int),
{
    if a < 0 {
        -a
    } else {
        a
    }
}

/// Saturating fixed-point multiplication of two in-range scalars.
pub fn mul_fx(a: i128, b: i128) -> (r: i128)
    requires
        fits(a as int),
        fits(b as int),
    ensures
        r as int == fx_mul(a as int, b as int),
        fits(r as int),
{
    proof {
        assert(-(FX_MAX as int) * FX_MAX <= a as int * b as int <= FX_MAX as int * FX_MAX)
            by (nonlinear_arith)
            requires
                -(FX_MAX as int) <= a as int <= FX_MAX as int,
                -(FX_MAX as int) <= b as int <= FX_MAX as int,
        ;
    }
    let p: i128 = a * b;
    let q: i128 = div_floor(p, FX_SCALE);
    clamp_fx(q)
}

/// Saturating fixed-point division of an in-range scalar by a positive one.
pub fn div_fx(a: i128, b: i128) -> (r: i128)
    requires
        fits(a as int),
        fits(b as int),
        0 < b,
    ensures
        r as int == fx_div(a as int, b as int),
        fits(r as int),
{
    let p: i128 = a * FX_SCALE;
    clamp_fx(div_floor(p, b))
}

/// Integer square root of an unsigned 128-bit value, by bisection.
pub fn isqrt_u128(x: u128) -> (r: u128)
    ensures
        0 <= r as int,
        r as int * r as int <= x as int,
        (x as int) < (r as int + 1) * (r as int + 1),
{
    let mut lo: u128 = 0;
    let mut hi: u128 = 0x1_0000_0000_0000_0000;
    while hi - lo > 1
        invariant
            lo < hi <= 0x1_0000_0000_0000_0000u128,
            lo as int * lo as int <= x as int,
            (x as int) < (hi as int) * (hi as int),
        decreases hi - lo,
    {
        let mid: u128 = lo + (hi - lo) / 2;
        proof {
            lemma_div_pos_is_pos((hi - lo) as int, 2);
            lemma_fundamental_div_mod((hi - lo) as int, 2);
            lemma_mod_division_less_than_divisor((hi - lo) as int, 2);
            assert(mid as int * mid as int <= u128::MAX as int) by (nonlinear_arith)
                requires
                    0 <= mid as int <= 0xFFFF_FFFF_FFFF_FFFFu64 as int,
            ;
        }
        if mid * mid <= x {
            lo = mid;
        } else {
            hi = mid;
        }
    }
    lo
}

/// Fixed-point square root of a nonnegative in-range scalar, rounded down.
pub fn sqrt_fx(x: i128) -> (r: i128)
    requires
        0 <= x,
        fits(x as int),
    ensures
        r as int == fx_sqrt(x as int),
        0 <= r as int <= 1_000_000_000_000i128,
        fits(r as int),
{
    let xs: u128 = (x as u128) * 1_000_000u128;
    let r = isqrt_u128(xs);
    proof {
        lemma_sqrt_floor_props(x as int * FX_SCALE as int);
        lemma_sqrt_unique(
            x as int * FX_SCALE as int,
            r as int,
            sqrt_floor(x as int * FX_SCALE as int),
        );
        assert(r as int <= 1_000_000_000_000int) by (nonlinear_arith)
            requires
                0 <= r as int,
                r as int * r as int <= 1_000_000_000_000_000_000_000_000int,
        ;
    }
    r as i128
}

} // verus!
