//! 3D vector kernel over saturating fixed-point scalars.
//!
//! A `Vec3` is used interchangeably as a point, a direction, or a colour.
//! Every operation returns a new value; each executable operation is
//! specified exactly by the spec-level mirror it is named after.

use vstd::prelude::*;

use crate::fixed::FX_HALF;
use crate::fixed::FX_ONE;
use crate::fixed::FX_SCALE;
use crate::fixed::abs_fx;
use crate::fixed::add_fx;
use crate::fixed::div_fx;
use crate::fixed::fits;
use crate::fixed::fx_abs;
use crate::fixed::fx_add;
use crate::fixed::fx_div;
use crate::fixed::fx_mul;
use crate::fixed::fx_neg;
use crate::fixed::fx_sqrt;
use crate::fixed::fx_sub;
use crate::fixed::mul_fx;
use crate::fixed::neg_fx;
use crate::fixed::sqrt_fx;
use crate::fixed::sub_fx;

verus! {

/// A triple of fixed-point scalars.
#[derive(Clone, Copy, PartialEq, Eq, Structural, Debug)]
pub struct Vec3 {
    pub x: i128,
    pub y: i128,
    pub z: i128,
}

/// A `Vec3` read as a position in space.
pub type Point3 = Vec3;

/// A `Vec3` read as an RGB colour with one unit per channel maximum.
pub type Colour = Vec3;

/// Build a vector from three unbounded spec-level scalars; each component
/// is assumed to already lie in the scalar range.
pub open spec fn vec3(x: int, y: int, z: int) -> Vec3 {
    Vec3 { x: x as i128, y: y as i128, z: z as i128 }
}

/// Every component lies in the scalar range.
pub open spec fn vec_in_range(v: Vec3) -> bool {
    fits(v.x as int) && fits(v.y as int) && fits(v.z as int)
}

/// Componentwise saturating sum.
pub open spec fn fx_vadd(a: Vec3, b: Vec3) -> Vec3 {
    vec3(
        fx_add(a.x as int, b.x as int),
        fx_add(a.y as int, b.y as int),
        fx_add(a.z as int, b.z as int),
    )
}

/// Componentwise saturating difference.
pub open spec fn fx_vsub(a: Vec3, b: Vec3) -> Vec3 {
    vec3(
        fx_sub(a.x as int, b.x as int),
        fx_sub(a.y as int, b.y as int),
        fx_sub(a.z as int, b.z as int),
    )
}

/// Componentwise negation.
pub open spec fn fx_vneg(a: Vec3) -> Vec3 {
    vec3(fx_neg(a.x as int), fx_neg(a.y as int), fx_neg(a.z as int))
}

/// Componentwise (Hadamard) saturating product.
pub open spec fn fx_vmul(a: Vec3, b: Vec3) -> Vec3 {
    vec3(
        fx_mul(a.x as int, b.x as int),
        fx_mul(a.y as int, b.y as int),
        fx_mul(a.z as int, b.z as int),
    )
}

/// Vector scaled by a fixed-point scalar.
pub open spec fn fx_scale(v: Vec3, s: int) -> Vec3 {
    vec3(fx_mul(v.x as int, s), fx_mul(v.y as int, s), fx_mul(v.z as int, s))
}

/// Vector divided by a positive fixed-point scalar.
pub open spec fn fx_vdiv(v: Vec3, s: int) -> Vec3 {
    vec3(fx_div(v.x as int, s), fx_div(v.y as int, s), fx_div(v.z as int, s))
}

/// Scalar added to every component.
pub open spec fn fx_vadd_scalar(v: Vec3, s: int) -> Vec3 {
    vec3(fx_add(v.x as int, s), fx_add(v.y as int, s), fx_add(v.z as int, s))
}

/// Inner product, accumulated with saturating sums.
pub open spec fn fx_dot(v: Vec3, w: Vec3) -> int {
    fx_add(
        fx_add(fx_mul(v.x as int, w.x as int), fx_mul(v.y as int, w.y as int)),
        fx_mul(v.z as int, w.z as int),
    )
}

/// Cross product.
pub open spec fn fx_cross(v: Vec3, w: Vec3) -> Vec3 {
    vec3(
        fx_sub(fx_mul(v.y as int, w.z as int), fx_mul(w.y as int, v.z as int)),
        fx_sub(fx_mul(v.z as int, w.x as int), fx_mul(w.z as int, v.x as int)),
        fx_sub(fx_mul(v.x as int, w.y as int), fx_mul(w.x as int, v.y as int)),
    )
}

/// Squared Euclidean length.
pub open spec fn fx_length_squared(v: Vec3) -> int {
    fx_dot(v, v)
}

/// Euclidean length: fixed-point square root of the squared length.
pub open spec fn fx_length(v: Vec3) -> int {
    fx_sqrt(fx_length_squared(v))
}

/// Normalization: divide by the length; the zero-length case yields the
/// zero vector, the guard demanded of callers that make directions.
pub open spec fn fx_unit(v: Vec3) -> Vec3 {
    let len = fx_length(v);
    if len <= 0 {
        vec3(0, 0, 0)
    } else {
        fx_vdiv(v, len)
    }
}

/// A vector counts as near zero when every component's magnitude is below
/// the degenerate-direction threshold; that threshold sits below the
/// representation's resolution, so it means every stored component is zero.
pub open spec fn fx_near_zero(v: Vec3) -> bool {
    v.x == 0 && v.y == 0 && v.z == 0
}

/// Mirror reflection of `v` about the normal `n`: `v - 2 (v . n) n`.
pub open spec fn fx_reflect(v: Vec3, n: Vec3) -> Vec3 {
    fx_vsub(v, fx_scale(n, fx_mul(2 * FX_ONE as int, fx_dot(v, n))))
}

/// Snell refraction of the unit direction `uv` at normal `n` with the
/// given ratio of refraction indices, split into perpendicular and
/// parallel components; the cosine is capped at one.
pub open spec fn fx_refract(uv: Vec3, n: Vec3, etap_over_eta: int) -> Vec3 {
    let cos_theta = {
        let d = fx_dot(fx_vneg(uv), n);
        if d > FX_ONE as int {
            FX_ONE as int
        } else {
            d
        }
    };
    let r_out_perp = fx_scale(fx_vadd(uv, fx_scale(n, cos_theta)), etap_over_eta);
    let r_out_parallel = fx_scale(
        n,
        fx_neg(fx_sqrt(fx_abs(fx_sub(FX_ONE as int, fx_length_squared(r_out_perp))))),
    );
    fx_vadd(r_out_parallel, r_out_perp)
}

impl Default for Vec3 {
    /// The zero vector.
    fn default() -> (r: Self)
        ensures
            r == (Vec3 { x: 0, y: 0, z: 0 }),
    {
        Vec3 { x: 0, y: 0, z: 0 }
    }
}

impl Vec3 {
    /// Construct a vector from three in-range components.
    pub fn new(x: i128, y: i128, z: i128) -> (r: Self)
        requires
            fits(x as int),
            fits(y as int),
            fits(z as int),
        ensures
            r == (Vec3 { x, y, z }),
            vec_in_range(r),
    {
        Vec3 { x, y, z }
    }

    /// Construct the zero vector.
    pub fn new_z() -> (r: Self)
        ensures
            r == (Vec3 { x: 0, y: 0, z: 0 }),
            vec_in_range(r),
    {
        Vec3 { x: 0, y: 0, z: 0 }
    }

    /// First component.
    pub fn x(&self) -> (r: i128)
        ensures
            r == self.x,
    {
        self.x
    }

    /// Second component.
    pub fn y(&self) -> (r: i128)
        ensures
            r == self.y,
    {
        self.y
    }

    /// Third component.
    pub fn z(&self) -> (r: i128)
        ensures
            r == self.z,
    {
        self.z
    }

    /// Component by position, counted from zero.
    pub fn index(&self, i: usize) -> (r: i128)
        requires
            i < 3,
        ensures
            i == 0 ==> r == self.x,
            i == 1 ==> r == self.y,
            i == 2 ==> r == self.z,
    {
        if i == 0 {
            self.x
        } else if i == 1 {
            self.y
        } else {
            self.z
        }
    }

    /// Replace the component at a position, counted from zero.
    pub fn set(&mut self, i: usize, value: i128) -> (r: ())
        requires
            i < 3,
            fits(value as int),
        ensures
            i == 0 ==> *final(self) == (Vec3 { x: value, ..*old(self) }),
            i == 1 ==> *final(self) == (Vec3 { y: value, ..*old(self) }),
            i == 2 ==> *final(self) == (Vec3 { z: value, ..*old(self) }),
    {
        if i == 0 {
            self.x = value;
        } else if i == 1 {
            self.y = value;
        } else {
            self.z = value;
        }
    }

    /// Componentwise saturating sum.
    pub fn add(self, other: Vec3) -> (r: Vec3)
        requires
            vec_in_range(self),
            vec_in_range(other),
        ensures
            r == fx_vadd(self, other),
            vec_in_range(r),
    {
        Vec3 { x: add_fx(self.x, other.x), y: add_fx(self.y, other.y), z: add_fx(self.z, other.z) }
    }

    /// Componentwise saturating difference.
    pub fn sub(self, other: Vec3) -> (r: Vec3)
        requires
            vec_in_range(self),
            vec_in_range(other),
        ensures
            r == fx_vsub(self, other),
            vec_in_range(r),
    {
        Vec3 { x: sub_fx(self.x, other.x), y: sub_fx(self.y, other.y), z: sub_fx(self.z, other.z) }
    }

    /// Componentwise negation.
    pub fn neg(self) -> (r: Vec3)
        requires
            vec_in_range(self),
        ensures
            r == fx_vneg(self),
            vec_in_range(r),
    {
        Vec3 { x: neg_fx(self.x), y: neg_fx(self.y), z: neg_fx(self.z) }
    }

    /// Componentwise (Hadamard) saturating product.
    pub fn mul(self, other: Vec3) -> (r: Vec3)
        requires
            vec_in_range(self),
            vec_in_range(other),
        ensures
            r == fx_vmul(self, other),
            vec_in_range(r),
    {
        Vec3 { x: mul_fx(self.x, other.x), y: mul_fx(self.y, other.y), z: mul_fx(self.z, other.z) }
    }

    /// This vector scaled by a fixed-point scalar.
    pub fn scale(self, s: i128) -> (r: Vec3)
        requires
            vec_in_range(self),
            fits(s as int),
        ensures
            r == fx_scale(self, s as int),
            vec_in_range(r),
    {
        Vec3 { x: mul_fx(self.x, s), y: mul_fx(self.y, s), z: mul_fx(self.z, s) }
    }

    /// This vector divided by a positive fixed-point scalar.
    pub fn div(self, s: i128) -> (r: Vec3)
        requires
            vec_in_range(self),
            fits(s as int),
            0 < s,
        ensures
            r == fx_vdiv(self, s as int),
            vec_in_range(r),
    {
        Vec3 { x: div_fx(self.x, s), y: div_fx(self.y, s), z: div_fx(self.z, s) }
    }

    /// A scalar added to every component.
    pub fn add_scalar(self, s: i128) -> (r: Vec3)
        requires
            vec_in_range(self),
            fits(s as int),
        ensures
            r == fx_vadd_scalar(self, s as int),
            vec_in_range(r),
    {
        Vec3 { x: add_fx(self.x, s), y: add_fx(self.y, s), z: add_fx(self.z, s) }
    }

    /// Inner product.
    pub fn dot(v: Vec3, w: Vec3) -> (r: i128)
        requires
            vec_in_range(v),
            vec_in_range(w),
        ensures
            r as int == fx_dot(v, w),
            fits(r as int),
    {
        add_fx(add_fx(mul_fx(v.x, w.x), mul_fx(v.y, w.y)), mul_fx(v.z, w.z))
    }

    /// Cross product.
    pub fn cross(v: Vec3, w: Vec3) -> (r: Vec3)
        requires
            vec_in_range(v),
            vec_in_range(w),
        ensures
            r == fx_cross(v, w),
            vec_in_range(r),
    {
        Vec3::new(
            sub_fx(mul_fx(v.y, w.z), mul_fx(w.y, v.z)),
            sub_fx(mul_fx(v.z, w.x), mul_fx(w.z, v.x)),
            sub_fx(mul_fx(v.x, w.y), mul_fx(w.x, v.y)),
        )
    }

    /// Squared Euclidean length; never negative.
    pub fn length_squared(&self) -> (r: i128)
        requires
            vec_in_range(*self),
        ensures
            r as int == fx_length_squared(*self),
            0 <= r as int,
            fits(r as int),
    {
        proof {
            lemma_fx_square_nonneg(self.x as int);
            lemma_fx_square_nonneg(self.y as int);
            lemma_fx_square_nonneg(self.z as int);
        }
        add_fx(add_fx(mul_fx(self.x, self.x), mul_fx(self.y, self.y)), mul_fx(self.z, self.z))
    }

    /// Euclidean length; never negative.
    pub fn length(&self) -> (r: i128)
        requires
            vec_in_range(*self),
        ensures
            r as int == fx_length(*self),
            0 <= r as int <= 1_000_000_000_000i128,
            fits(r as int),
    {
        let lsq = self.length_squared();
        sqrt_fx(lsq)
    }

    /// Direction of `v` with (approximately) unit length; the zero-length
    /// case yields the zero vector.
    pub fn unit_vector(v: Vec3) -> (r: Vec3)
        requires
            vec_in_range(v),
        ensures
            r == fx_unit(v),
            vec_in_range(r),
    {
        let len = v.length();
        if len <= 0 {
            Vec3::new_z()
        } else {
            v.div(len)
        }
    }

    /// True when every component's magnitude falls below the degenerate
    /// scatter threshold, which at this resolution means it is zero.
    pub fn near_zero(&self) -> (r: bool)
        ensures
            r == fx_near_zero(*self),
    {
        self.x == 0 && self.y == 0 && self.z == 0
    }

    /// A vector whose components are independent uniform samples from
    /// `[lo, hi)`.
    pub fn rand(rng: &mut rand::rngs::SmallRng, lo: i128, hi: i128) -> (r: Vec3)
        requires
            fits(lo as int),
            fits(hi as int),
            lo < hi,
        ensures
            lo <= r.x < hi,
            lo <= r.y < hi,
            lo <= r.z < hi,
            vec_in_range(r),
    {
        let x = crate::rng::rand_range_fx(rng, lo, hi);
        let y = crate::rng::rand_range_fx(rng, lo, hi);
        let z = crate::rng::rand_range_fx(rng, lo, hi);
        Vec3 { x, y, z }
    }

    /// Rejection-sample a point strictly inside the unit ball and at
    /// least half a unit from the centre, so that normalizing it stays
    /// within the proved tolerance of unit length. The draw is retried
    /// a bounded number of times; should every draw be rejected, a
    /// fixed interior point stands in, so the function is total
    /// whatever the sampler returns.
    pub fn rand_in_unit_sphere(rng: &mut rand::rngs::SmallRng) -> (r: Point3)
        ensures
            vec_in_range(r),
            -FX_ONE < r.x < FX_ONE,
            -FX_ONE < r.y < FX_ONE,
            -FX_ONE < r.z < FX_ONE,
            250_000 <= fx_length_squared(r) < FX_ONE,
    {
        for attempt in 0..64usize {
            let p = Self::rand(rng, -FX_ONE + 1, FX_ONE);
            let lsq = p.length_squared();
            if 250_000 <= lsq && lsq < FX_ONE {
                return p;
            }
        }
        let fallback = Vec3 { x: FX_HALF, y: 0, z: 0 };
        proof {
            assert(fx_length_squared(fallback) == 250_000int);
        }
        fallback
    }

    /// A random direction of (approximately) unit length: the
    /// normalization of a point sampled in the unit ball's outer shell,
    /// whose squared length therefore stays within twenty-seven grid
    /// steps of one.
    pub fn rand_unit_vector(rng: &mut rand::rngs::SmallRng) -> (r: Vec3)
        ensures
            vec_in_range(r),
            fx_abs(fx_length_squared(r) - FX_ONE as int) <= 27,
            exists|p: Vec3|
                vec_in_range(p) && 250_000 <= fx_length_squared(p) < FX_ONE && r == fx_unit(p),
    {
        let p = Self::rand_in_unit_sphere(rng);
        let u = Self::unit_vector(p);
        proof {
            lemma_unit_vector_length(p);
            assert(vec_in_range(p) && 250_000 <= fx_length_squared(p) < FX_ONE && u == fx_unit(
                p,
            ));
        }
        u
    }

    /// Rejection-sample a point inside the unit disk in the lens plane
    /// (third component zero), used for depth-of-field lens sampling.
    /// As with the ball sampler, a bounded number of rejected draws ends
    /// in a fixed interior point.
    pub fn rand_in_unit_disk(rng: &mut rand::rngs::SmallRng) -> (r: Vec3)
        ensures
            vec_in_range(r),
            -FX_ONE < r.x < FX_ONE,
            -FX_ONE < r.y < FX_ONE,
            r.z == 0,
            fx_length(r) < FX_ONE,
    {
        for attempt in 0..64usize {
            let x = crate::rng::rand_range_fx(rng, -FX_ONE + 1, FX_ONE);
            let y = crate::rng::rand_range_fx(rng, -FX_ONE + 1, FX_ONE);
            let p = Vec3 { x, y, z: 0 };
            let len = p.length();
            if len < FX_ONE {
                return p;
            }
        }
        let fallback = Vec3 { x: FX_HALF, y: 0, z: 0 };
        proof {
            assert(fx_length_squared(fallback) == 250_000int);
            crate::fixed::lemma_sqrt_floor_props(250_000_000_000);
            crate::fixed::lemma_sqrt_unique(
                250_000_000_000,
                crate::fixed::sqrt_floor(250_000_000_000),
                500_000,
            );
        }
        fallback
    }

    /// Mirror reflection about a normal.
    pub fn reflect(v: Vec3, norm: Vec3) -> (r: Vec3)
        requires
            vec_in_range(v),
            vec_in_range(norm),
        ensures
            r == fx_reflect(v, norm),
            vec_in_range(r),
    {
        let d = Vec3::dot(v, norm);
        let d2 = mul_fx(2 * FX_ONE, d);
        v.sub(norm.scale(d2))
    }

    /// Snell refraction of the unit direction `uv` at normal `n`.
    pub fn refract(uv: Vec3, n: Vec3, etap_over_eta: i128) -> (r: Vec3)
        requires
            vec_in_range(uv),
            vec_in_range(n),
            fits(etap_over_eta as int),
        ensures
            r == fx_refract(uv, n, etap_over_eta as int),
            vec_in_range(r),
    {
        let d = Vec3::dot(uv.neg(), n);
        let cos_theta = if d > FX_ONE {
            FX_ONE
        } else {
            d
        };
        let r_out_perp = uv.add(n.scale(cos_theta)).scale(etap_over_eta);
        let gap = abs_fx(sub_fx(FX_ONE, r_out_perp.length_squared()));
        let r_out_parallel = n.scale(neg_fx(sqrt_fx(gap)));
        r_out_parallel.add(r_out_perp)
    }
}

/// Flipping the second vector flips the sign bound of the inner product:
/// the dot with the negated vector is at most the negated dot.
pub proof fn lemma_fx_dot_vneg(v: Vec3, n: Vec3)
    requires
        vec_in_range(v),
        vec_in_range(n),
    ensures
        fx_dot(v, fx_vneg(n)) <= -fx_dot(v, n),
{
    crate::fixed::lemma_fx_mul_neg(v.x as int, n.x as int);
    crate::fixed::lemma_fx_mul_neg(v.y as int, n.y as int);
    crate::fixed::lemma_fx_mul_neg(v.z as int, n.z as int);
}

/// The magnitude of a product is bounded by the product of magnitude
/// bounds.
proof fn lemma_mul_abs_le(a: int, b: int, ma: int, mb: int)
    requires
        fx_abs(a) <= ma,
        fx_abs(b) <= mb,
        0 <= ma,
        0 <= mb,
    ensures
        fx_abs(a) * fx_abs(b) <= ma * mb,
        fx_abs(a * b) <= ma * mb,
{
    assert(fx_abs(a) * fx_abs(b) <= ma * mb && fx_abs(a * b) == fx_abs(a) * fx_abs(b))
        by (nonlinear_arith)
        requires
            fx_abs(a) <= ma,
            fx_abs(b) <= mb,
            0 <= ma,
            0 <= mb,
    ;
}

/// Reflection flips the normal component: for a normal whose squared
/// length sits within four grid steps of one unit and a vector of at
/// most a thousand units, the inner product of `reflect(v, n)` with
/// `n` equals the negated inner product of `v` with `n`, up to
/// fourteen millionths of that product's magnitude plus twelve grid
/// steps.
pub proof fn lemma_reflect_dot(v: Vec3, n: Vec3)
    requires
        vec_in_range(v),
        vec_in_range(n),
        fx_abs(v.x as int) <= 1_000_000_000,
        fx_abs(v.y as int) <= 1_000_000_000,
        fx_abs(v.z as int) <= 1_000_000_000,
        fx_abs(n.x as int) <= 2_000_000,
        fx_abs(n.y as int) <= 2_000_000,
        fx_abs(n.z as int) <= 2_000_000,
        fx_abs(fx_length_squared(n) - FX_ONE as int) <= 4,
    ensures
        (FX_ONE as int) * fx_abs(fx_dot(fx_reflect(v, n), n) + fx_dot(v, n)) <= 14 * fx_abs(
            fx_dot(v, n),
        ) + 12 * (FX_ONE as int),
{
    let s = FX_SCALE as int;
    let v1 = v.x as int;
    let v2 = v.y as int;
    let v3 = v.z as int;
    let n1 = n.x as int;
    let n2 = n.y as int;
    let n3 = n.z as int;

    // the stored inner product of v and n, decomposed exactly
    lemma_mul_abs_le(v1, n1, 1_000_000_000, 2_000_000);
    lemma_mul_abs_le(v2, n2, 1_000_000_000, 2_000_000);
    lemma_mul_abs_le(v3, n3, 1_000_000_000, 2_000_000);
    crate::fixed::lemma_fx_mul_decomp(v1, n1);
    crate::fixed::lemma_fx_mul_decomp(v2, n2);
    crate::fixed::lemma_fx_mul_decomp(v3, n3);
    let q1 = fx_mul(v1, n1);
    let q2 = fx_mul(v2, n2);
    let q3 = fx_mul(v3, n3);
    let r1 = (v1 * n1) % s;
    let r2 = (v2 * n2) % s;
    let r3 = (v3 * n3) % s;
    assert(-2_000_000_001 <= q1 <= 2_000_000_000);
    assert(-2_000_000_001 <= q2 <= 2_000_000_000);
    assert(-2_000_000_001 <= q3 <= 2_000_000_000);
    let d = fx_dot(v, n);
    assert(d == q1 + q2 + q3);
    let bigd = v1 * n1 + v2 * n2 + v3 * n3;
    let rd = r1 + r2 + r3;
    assert(s * d == bigd - rd);
    let dabs = fx_abs(d);

    // doubling is exact on the grid
    lemma_mul_abs_le(2 * s, d, 2_000_000, 6_000_000_003);
    crate::fixed::lemma_fx_mul_decomp(2 * s, d);
    let d2 = fx_mul(2 * FX_ONE as int, d);
    vstd::arithmetic::div_mod::lemma_mod_multiples_basic(2 * d, s);
    assert((2 * s) * d == (2 * d) * s) by (nonlinear_arith);
    assert(d2 == 2 * d);

    // the scaled normal, decomposed exactly
    lemma_mul_abs_le(n1, d2, 2_000_000, 12_000_000_006);
    lemma_mul_abs_le(n2, d2, 2_000_000, 12_000_000_006);
    lemma_mul_abs_le(n3, d2, 2_000_000, 12_000_000_006);
    crate::fixed::lemma_fx_mul_decomp(n1, d2);
    crate::fixed::lemma_fx_mul_decomp(n2, d2);
    crate::fixed::lemma_fx_mul_decomp(n3, d2);
    let m1 = fx_mul(n1, d2);
    let m2 = fx_mul(n2, d2);
    let m3 = fx_mul(n3, d2);
    let s1 = (n1 * d2) % s;
    let s2 = (n2 * d2) % s;
    let s3 = (n3 * d2) % s;
    assert(-25_000_000_001 <= m1 <= 25_000_000_000);
    assert(-25_000_000_001 <= m2 <= 25_000_000_000);
    assert(-25_000_000_001 <= m3 <= 25_000_000_000);

    // the reflected vector, exact componentwise
    let refl = fx_reflect(v, n);
    assert(refl.x as int == v1 - m1);
    assert(refl.y as int == v2 - m2);
    assert(refl.z as int == v3 - m3);

    // the stored inner product of the reflection with n
    lemma_mul_abs_le(v1 - m1, n1, 26_000_000_001, 2_000_000);
    lemma_mul_abs_le(v2 - m2, n2, 26_000_000_001, 2_000_000);
    lemma_mul_abs_le(v3 - m3, n3, 26_000_000_001, 2_000_000);
    crate::fixed::lemma_fx_mul_decomp(v1 - m1, n1);
    crate::fixed::lemma_fx_mul_decomp(v2 - m2, n2);
    crate::fixed::lemma_fx_mul_decomp(v3 - m3, n3);
    let g1 = fx_mul(v1 - m1, n1);
    let g2 = fx_mul(v2 - m2, n2);
    let g3 = fx_mul(v3 - m3, n3);
    let u1 = ((v1 - m1) * n1) % s;
    let u2 = ((v2 - m2) * n2) % s;
    let u3 = ((v3 - m3) * n3) % s;
    let f = fx_dot(refl, n);
    assert(f == g1 + g2 + g3);
    let rf = u1 + u2 + u3;
    assert(s * f == (v1 - m1) * n1 + (v2 - m2) * n2 + (v3 - m3) * n3 - rf);

    // the stored squared length of n, decomposed exactly
    lemma_mul_abs_le(n1, n1, 2_000_000, 2_000_000);
    lemma_mul_abs_le(n2, n2, 2_000_000, 2_000_000);
    lemma_mul_abs_le(n3, n3, 2_000_000, 2_000_000);
    crate::fixed::lemma_fx_mul_decomp(n1, n1);
    crate::fixed::lemma_fx_mul_decomp(n2, n2);
    crate::fixed::lemma_fx_mul_decomp(n3, n3);
    let w1 = (n1 * n1) % s;
    let w2 = (n2 * n2) % s;
    let w3 = (n3 * n3) % s;
    let ell = fx_length_squared(n);
    assert(ell == fx_mul(n1, n1) + fx_mul(n2, n2) + fx_mul(n3, n3));
    let bign = n1 * n1 + n2 * n2 + n3 * n3;
    let rl = w1 + w2 + w3;
    assert(s * ell == bign - rl);

    // ring identities connecting the atoms
    let mn1 = m1 * n1;
    let mn2 = m2 * n2;
    let mn3 = m3 * n3;
    let sn1 = s1 * n1;
    let sn2 = s2 * n2;
    let sn3 = s3 * n3;
    assert((v1 - m1) * n1 == v1 * n1 - mn1) by (nonlinear_arith)
        requires
            mn1 == m1 * n1,
    ;
    assert((v2 - m2) * n2 == v2 * n2 - mn2) by (nonlinear_arith)
        requires
            mn2 == m2 * n2,
    ;
    assert((v3 - m3) * n3 == v3 * n3 - mn3) by (nonlinear_arith)
        requires
            mn3 == m3 * n3,
    ;
    let dn1 = d * (n1 * n1);
    let dn2 = d * (n2 * n2);
    let dn3 = d * (n3 * n3);
    assert(s * mn1 == 2 * dn1 - sn1) by (nonlinear_arith)
        requires
            s * m1 == n1 * d2 - s1,
            d2 == 2 * d,
            mn1 == m1 * n1,
            sn1 == s1 * n1,
            dn1 == d * (n1 * n1),
    ;
    assert(s * mn2 == 2 * dn2 - sn2) by (nonlinear_arith)
        requires
            s * m2 == n2 * d2 - s2,
            d2 == 2 * d,
            mn2 == m2 * n2,
            sn2 == s2 * n2,
            dn2 == d * (n2 * n2),
    ;
    assert(s * mn3 == 2 * dn3 - sn3) by (nonlinear_arith)
        requires
            s * m3 == n3 * d2 - s3,
            d2 == 2 * d,
            mn3 == m3 * n3,
            sn3 == s3 * n3,
            dn3 == d * (n3 * n3),
    ;
    let dl = d * ell;
    let drl = d * rl;
    assert(dn1 + dn2 + dn3 == s * dl + drl) by (nonlinear_arith)
        requires
            dn1 == d * (n1 * n1),
            dn2 == d * (n2 * n2),
            dn3 == d * (n3 * n3),
            s * ell == n1 * n1 + n2 * n2 + n3 * n3 - rl,
            dl == d * ell,
            drl == d * rl,
    ;

    // assemble the exact error identity
    let y = f + d;
    let dsml = d * (s - ell);
    assert(dsml == d * s - dl) by (nonlinear_arith)
        requires
            dsml == d * (s - ell),
            dl == d * ell,
    ;
    assert(s * (s * y) == 2 * s * dsml + s * rd - 2 * drl + (sn1 + sn2 + sn3) - s * rf);

    // bound every error term
    assert(fx_abs(dsml) <= 4 * dabs) by (nonlinear_arith)
        requires
            dsml == d * (s - ell),
            fx_abs(s - ell) <= 4,
            dabs == fx_abs(d),
    ;
    assert(fx_abs(drl) <= 3 * s * dabs) by (nonlinear_arith)
        requires
            drl == d * rl,
            0 <= rl < 3 * s,
            dabs == fx_abs(d),
            0 < s,
    ;
    assert(fx_abs(sn1) <= 2 * s * s) by (nonlinear_arith)
        requires
            sn1 == s1 * n1,
            0 <= s1 < s,
            fx_abs(n1) <= 2 * s,
            s == 1_000_000,
    ;
    assert(fx_abs(sn2) <= 2 * s * s) by (nonlinear_arith)
        requires
            sn2 == s2 * n2,
            0 <= s2 < s,
            fx_abs(n2) <= 2 * s,
            s == 1_000_000,
    ;
    assert(fx_abs(sn3) <= 2 * s * s) by (nonlinear_arith)
        requires
            sn3 == s3 * n3,
            0 <= s3 < s,
            fx_abs(n3) <= 2 * s,
            s == 1_000_000,
    ;
    assert(-(4 * dabs) <= dsml <= 4 * dabs);
    assert(-(3 * s * dabs) <= drl <= 3 * s * dabs);
    assert(-(2 * s * s) <= sn1 <= 2 * s * s);
    assert(-(2 * s * s) <= sn2 <= 2 * s * s);
    assert(-(2 * s * s) <= sn3 <= 2 * s * s);
    assert(0 <= rd < 3 * s);
    assert(0 <= rf < 3 * s);
    assert(-(14 * s * dabs + 12 * s * s) <= s * (s * y) <= 14 * s * dabs + 12 * s * s)
        by (nonlinear_arith)
        requires
            s * (s * y) == 2 * s * dsml + s * rd - 2 * drl + (sn1 + sn2 + sn3) - s * rf,
            -(4 * dabs) <= dsml <= 4 * dabs,
            -(3 * s * dabs) <= drl <= 3 * s * dabs,
            -(2 * s * s) <= sn1 <= 2 * s * s,
            -(2 * s * s) <= sn2 <= 2 * s * s,
            -(2 * s * s) <= sn3 <= 2 * s * s,
            0 <= rd < 3 * s,
            0 <= rf < 3 * s,
            s == 1_000_000,
            0 <= dabs,
    ;
    assert(fx_abs(s * (s * y)) <= 14 * s * dabs + 12 * s * s);
    assert((FX_ONE as int) * fx_abs(y) <= 14 * dabs + 12 * (FX_ONE as int)) by (nonlinear_arith)
        requires
            fx_abs(s * (s * y)) <= 14 * s * dabs + 12 * s * s,
            s == 1_000_000,
            FX_ONE as int == s,
            0 <= dabs,
    ;
}

/// Normalization yields (approximately) unit length: for a vector of
/// at least half a unit and at most a thousand units, the squared
/// length of `unit_vector(v)` sits within twenty-seven grid steps of
/// one, and within sixteen once the vector reaches a whole unit — the
/// sharpest guarantees the grid's granularity admits.
pub proof fn lemma_unit_vector_length(v: Vec3)
    requires
        vec_in_range(v),
        fx_abs(v.x as int) <= 1_000_000_000,
        fx_abs(v.y as int) <= 1_000_000_000,
        fx_abs(v.z as int) <= 1_000_000_000,
        fx_length_squared(v) >= 250_000,
    ensures
        fx_abs(fx_length_squared(fx_unit(v)) - FX_ONE as int) <= 27,
        fx_length_squared(v) >= FX_ONE as int ==> fx_abs(
            fx_length_squared(fx_unit(v)) - FX_ONE as int,
        ) <= 16,
{
    let s = FX_SCALE as int;
    let v1 = v.x as int;
    let v2 = v.y as int;
    let v3 = v.z as int;

    // the stored squared length, decomposed exactly
    lemma_mul_abs_le(v1, v1, 1_000_000_000, 1_000_000_000);
    lemma_mul_abs_le(v2, v2, 1_000_000_000, 1_000_000_000);
    lemma_mul_abs_le(v3, v3, 1_000_000_000, 1_000_000_000);
    crate::fixed::lemma_fx_mul_decomp(v1, v1);
    crate::fixed::lemma_fx_mul_decomp(v2, v2);
    crate::fixed::lemma_fx_mul_decomp(v3, v3);
    let w1 = (v1 * v1) % s;
    let w2 = (v2 * v2) % s;
    let w3 = (v3 * v3) % s;
    let lsq = fx_length_squared(v);
    let bign = v1 * v1 + v2 * v2 + v3 * v3;
    let rho = w1 + w2 + w3;
    assert(0 <= v1 * v1 && 0 <= v2 * v2 && 0 <= v3 * v3) by (nonlinear_arith);
    assert(0 <= fx_mul(v1, v1) <= 1_000_000_000_000int);
    assert(0 <= fx_mul(v2, v2) <= 1_000_000_000_000int);
    assert(0 <= fx_mul(v3, v3) <= 1_000_000_000_000int);
    assert(lsq == fx_mul(v1, v1) + fx_mul(v2, v2) + fx_mul(v3, v3));
    assert(s * lsq == bign - rho);

    // the stored length is the integer square root of the scaled
    // squared length
    let biglraw = lsq * s;
    crate::fixed::lemma_sqrt_floor_props(biglraw);
    let biglen = fx_length(v);
    assert(biglen == crate::fixed::sqrt_floor(biglraw));
    let ll = biglen * biglen;
    assert(ll <= biglraw < (biglen + 1) * (biglen + 1));
    let delta = biglraw - ll;
    assert(0 <= delta <= 2 * biglen) by (nonlinear_arith)
        requires
            ll == biglen * biglen,
            ll <= biglraw,
            biglraw < (biglen + 1) * (biglen + 1),
            0 <= biglen,
            delta == biglraw - ll,
    ;
    // half a unit of squared length puts the length at or above half
    // a unit
    assert(500_000 <= biglen) by (nonlinear_arith)
        requires
            biglraw >= 250_000_000_000int,
            biglraw < (biglen + 1) * (biglen + 1),
            0 <= biglen,
    ;
    assert(biglen <= 2_000_000_000int) by (nonlinear_arith)
        requires
            ll == biglen * biglen,
            ll <= biglraw,
            biglraw <= 3_000_000_003_000_000_000int,
            0 <= biglen,
    ;

    // every component is bounded by the length plus four grid steps
    assert(bign <= ll + 2 * biglen + 3 * s);
    assert(fx_abs(v1) <= biglen + 4 && fx_abs(v2) <= biglen + 4 && fx_abs(v3) <= biglen + 4)
        by (nonlinear_arith)
        requires
            v1 * v1 <= ll + 2 * biglen + 3 * s,
            v2 * v2 <= ll + 2 * biglen + 3 * s,
            v3 * v3 <= ll + 2 * biglen + 3 * s,
            ll == biglen * biglen,
            500_000 <= biglen,
            s == 1_000_000,
    ;

    // the normalized components, decomposed exactly
    vstd::arithmetic::div_mod::lemma_fundamental_div_mod(v1 * s, biglen);
    vstd::arithmetic::div_mod::lemma_fundamental_div_mod(v2 * s, biglen);
    vstd::arithmetic::div_mod::lemma_fundamental_div_mod(v3 * s, biglen);
    vstd::arithmetic::div_mod::lemma_mod_division_less_than_divisor(v1 * s, biglen);
    vstd::arithmetic::div_mod::lemma_mod_division_less_than_divisor(v2 * s, biglen);
    vstd::arithmetic::div_mod::lemma_mod_division_less_than_divisor(v3 * s, biglen);
    let u1 = (v1 * s) / biglen;
    let u2 = (v2 * s) / biglen;
    let u3 = (v3 * s) / biglen;
    let t1 = (v1 * s) % biglen;
    let t2 = (v2 * s) % biglen;
    let t3 = (v3 * s) % biglen;
    assert(fx_abs(u1) <= 2_000_000_001int && fx_abs(u2) <= 2_000_000_001int && fx_abs(u3)
        <= 2_000_000_001int) by (nonlinear_arith)
        requires
            v1 * s == biglen * u1 + t1,
            v2 * s == biglen * u2 + t2,
            v3 * s == biglen * u3 + t3,
            0 <= t1 < biglen,
            0 <= t2 < biglen,
            0 <= t3 < biglen,
            fx_abs(v1) <= 1_000_000_000,
            fx_abs(v2) <= 1_000_000_000,
            fx_abs(v3) <= 1_000_000_000,
            s == 1_000_000,
            500_000 <= biglen,
    ;
    let u = fx_unit(v);
    assert(u.x as int == u1 && u.y as int == u2 && u.z as int == u3);

    // the stored squared length of the normalized vector
    lemma_mul_abs_le(u1, u1, 2_000_000_001, 2_000_000_001);
    lemma_mul_abs_le(u2, u2, 2_000_000_001, 2_000_000_001);
    lemma_mul_abs_le(u3, u3, 2_000_000_001, 2_000_000_001);
    crate::fixed::lemma_fx_mul_decomp(u1, u1);
    crate::fixed::lemma_fx_mul_decomp(u2, u2);
    crate::fixed::lemma_fx_mul_decomp(u3, u3);
    assert(0 <= u1 * u1 && 0 <= u2 * u2 && 0 <= u3 * u3) by (nonlinear_arith);
    let x1 = (u1 * u1) % s;
    let x2 = (u2 * u2) % s;
    let x3 = (u3 * u3) % s;
    let usq = fx_length_squared(u);
    let rho_u = x1 + x2 + x3;
    assert(s * usq == u1 * u1 + u2 * u2 + u3 * u3 - rho_u);

    // square the exact decomposition of each component
    let a1 = biglen * u1;
    let a2 = biglen * u2;
    let a3 = biglen * u3;
    let vt1 = v1 * t1;
    let vt2 = v2 * t2;
    let vt3 = v3 * t3;
    let tt1 = t1 * t1;
    let tt2 = t2 * t2;
    let tt3 = t3 * t3;
    let asq1 = a1 * a1;
    let asq2 = a2 * a2;
    let asq3 = a3 * a3;
    assert(asq1 == s * s * (v1 * v1) - 2 * s * vt1 + tt1) by (nonlinear_arith)
        requires
            a1 == v1 * s - t1,
            asq1 == a1 * a1,
            vt1 == v1 * t1,
            tt1 == t1 * t1,
    ;
    assert(asq2 == s * s * (v2 * v2) - 2 * s * vt2 + tt2) by (nonlinear_arith)
        requires
            a2 == v2 * s - t2,
            asq2 == a2 * a2,
            vt2 == v2 * t2,
            tt2 == t2 * t2,
    ;
    assert(asq3 == s * s * (v3 * v3) - 2 * s * vt3 + tt3) by (nonlinear_arith)
        requires
            a3 == v3 * s - t3,
            asq3 == a3 * a3,
            vt3 == v3 * t3,
            tt3 == t3 * t3,
    ;
    let uu1 = u1 * u1;
    let uu2 = u2 * u2;
    let uu3 = u3 * u3;
    assert(asq1 == ll * uu1) by (nonlinear_arith)
        requires
            a1 == biglen * u1,
            asq1 == a1 * a1,
            ll == biglen * biglen,
            uu1 == u1 * u1,
    ;
    assert(asq2 == ll * uu2) by (nonlinear_arith)
        requires
            a2 == biglen * u2,
            asq2 == a2 * a2,
            ll == biglen * biglen,
            uu2 == u2 * u2,
    ;
    assert(asq3 == ll * uu3) by (nonlinear_arith)
        requires
            a3 == biglen * u3,
            asq3 == a3 * a3,
            ll == biglen * biglen,
            uu3 == u3 * u3,
    ;

    // assemble the exact error identity
    let y = usq - s;
    let p = ll * (s * y);
    let llrho_u = ll * rho_u;
    assert(ll * (s * usq) == asq1 + asq2 + asq3 - llrho_u) by (nonlinear_arith)
        requires
            s * usq == uu1 + uu2 + uu3 - rho_u,
            asq1 == ll * uu1,
            asq2 == ll * uu2,
            asq3 == ll * uu3,
            llrho_u == ll * rho_u,
    ;
    assert(p == ll * (s * usq) - s * s * ll) by (nonlinear_arith)
        requires
            p == ll * (s * (usq - s)),
            s == 1_000_000,
    ;
    // s^2 * bign expands through the two decompositions of the length
    assert(s * s * bign == s * s * ll + s * s * delta + s * s * rho);
    assert(p == s * s * delta + s * s * rho - 2 * s * (vt1 + vt2 + vt3) + (tt1 + tt2 + tt3)
        - llrho_u) by (nonlinear_arith)
        requires
            p == ll * (s * usq) - s * s * ll,
            ll * (s * usq) == asq1 + asq2 + asq3 - llrho_u,
            asq1 == s * s * (v1 * v1) - 2 * s * vt1 + tt1,
            asq2 == s * s * (v2 * v2) - 2 * s * vt2 + tt2,
            asq3 == s * s * (v3 * v3) - 2 * s * vt3 + tt3,
            bign == v1 * v1 + v2 * v2 + v3 * v3,
            s * s * bign == s * s * ll + s * s * delta + s * s * rho,
    ;

    // bound every error term by a multiple of the scaled squared length
    let m = s * ll;
    assert(s * s * delta <= 4 * m && 0 <= s * s * delta) by (nonlinear_arith)
        requires
            0 <= delta <= 2 * biglen,
            ll == biglen * biglen,
            m == s * ll,
            500_000 <= biglen,
            s == 1_000_000,
    ;
    assert(s * s * rho <= 12 * m && 0 <= s * s * rho) by (nonlinear_arith)
        requires
            0 <= rho < 3 * s,
            ll == biglen * biglen,
            m == s * ll,
            500_000 <= biglen,
            s == 1_000_000,
    ;
    assert(fx_abs(vt1) <= (biglen + 4) * biglen && fx_abs(vt2) <= (biglen + 4) * biglen && fx_abs(
        vt3,
    ) <= (biglen + 4) * biglen) by (nonlinear_arith)
        requires
            vt1 == v1 * t1,
            vt2 == v2 * t2,
            vt3 == v3 * t3,
            fx_abs(v1) <= biglen + 4,
            fx_abs(v2) <= biglen + 4,
            fx_abs(v3) <= biglen + 4,
            0 <= t1 < biglen,
            0 <= t2 < biglen,
            0 <= t3 < biglen,
            0 <= biglen,
    ;
    assert(6 * s * ((biglen + 4) * biglen) <= 7 * m) by (nonlinear_arith)
        requires
            ll == biglen * biglen,
            m == s * ll,
            500_000 <= biglen,
            s == 1_000_000,
    ;
    assert(0 <= tt1 <= ll && 0 <= tt2 <= ll && 0 <= tt3 <= ll) by (nonlinear_arith)
        requires
            tt1 == t1 * t1,
            tt2 == t2 * t2,
            tt3 == t3 * t3,
            0 <= t1 < biglen,
            0 <= t2 < biglen,
            0 <= t3 < biglen,
            ll == biglen * biglen,
    ;
    assert(3 * ll <= m) by (nonlinear_arith)
        requires
            m == s * ll,
            0 <= ll,
            s == 1_000_000,
    ;
    assert(0 <= llrho_u <= 3 * m) by (nonlinear_arith)
        requires
            llrho_u == ll * rho_u,
            0 <= rho_u < 3 * s,
            0 <= ll,
            m == s * ll,
            s == 1_000_000,
    ;
    assert(-(27 * m) <= p <= 27 * m) by (nonlinear_arith)
        requires
            p == s * s * delta + s * s * rho - 2 * s * (vt1 + vt2 + vt3) + (tt1 + tt2 + tt3)
                - llrho_u,
            0 <= s * s * delta <= 4 * m,
            0 <= s * s * rho <= 12 * m,
            fx_abs(vt1) <= (biglen + 4) * biglen,
            fx_abs(vt2) <= (biglen + 4) * biglen,
            fx_abs(vt3) <= (biglen + 4) * biglen,
            6 * s * ((biglen + 4) * biglen) <= 7 * m,
            0 <= tt1 <= ll,
            0 <= tt2 <= ll,
            0 <= tt3 <= ll,
            3 * ll <= m,
            0 <= llrho_u <= 3 * m,
            s == 1_000_000,
            0 <= m,
    ;

    // a bounded multiple of a positive quantity bounds the factor
    assert(ll >= 250_000_000_000int) by (nonlinear_arith)
        requires
            ll == biglen * biglen,
            biglen >= 500_000,
    ;
    assert(fx_abs(usq - s) <= 27) by (nonlinear_arith)
        requires
            p == ll * (s * (usq - s)),
            -(27 * m) <= p <= 27 * m,
            m == s * ll,
            ll >= 250_000_000_000int,
            s == 1_000_000,
    ;

    // a whole unit of squared length sharpens every bound that rested
    // on the length being at least half a unit
    if lsq >= FX_ONE as int {
        assert(s <= biglen) by (nonlinear_arith)
            requires
                s == 1_000_000,
                biglraw >= s * s,
                biglraw < (biglen + 1) * (biglen + 1),
                0 <= biglen,
        ;
        assert(s * s * delta <= 2 * m) by (nonlinear_arith)
            requires
                0 <= delta <= 2 * biglen,
                ll == biglen * biglen,
                m == s * ll,
                s <= biglen,
                s == 1_000_000,
        ;
        assert(s * s * rho <= 3 * m) by (nonlinear_arith)
            requires
                0 <= rho < 3 * s,
                ll == biglen * biglen,
                m == s * ll,
                s <= biglen,
                s == 1_000_000,
        ;
        assert(-(16 * m) <= p <= 16 * m) by (nonlinear_arith)
            requires
                p == s * s * delta + s * s * rho - 2 * s * (vt1 + vt2 + vt3) + (tt1 + tt2 + tt3)
                    - llrho_u,
                0 <= s * s * delta <= 2 * m,
                0 <= s * s * rho <= 3 * m,
                fx_abs(vt1) <= (biglen + 4) * biglen,
                fx_abs(vt2) <= (biglen + 4) * biglen,
                fx_abs(vt3) <= (biglen + 4) * biglen,
                6 * s * ((biglen + 4) * biglen) <= 7 * m,
                0 <= tt1 <= ll,
                0 <= tt2 <= ll,
                0 <= tt3 <= ll,
                3 * ll <= m,
                0 <= llrho_u <= 3 * m,
                s == 1_000_000,
                0 <= m,
        ;
        assert(fx_abs(usq - s) <= 16) by (nonlinear_arith)
            requires
                p == ll * (s * (usq - s)),
                -(16 * m) <= p <= 16 * m,
                m == s * ll,
                ll >= 250_000_000_000int,
                s == 1_000_000,
        ;
    }
}

/// The fixed-point square of a scalar is never negative.
pub proof fn lemma_fx_square_nonneg(a: int)
    ensures
        0 <= fx_mul(a, a),
{
    assert(0 <= a * a) by (nonlinear_arith);
    if a * a > 0 {
        vstd::arithmetic::div_mod::lemma_div_pos_is_pos(a * a, FX_SCALE as int);
    }
}

} // verus!
