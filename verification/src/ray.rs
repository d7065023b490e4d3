//! Rays and the radiance they carry.

use vstd::prelude::*;

use crate::fixed::FX_HALF;
use crate::fixed::FX_ONE;
use crate::fixed::add_fx;
use crate::fixed::clamp01_fx;
use crate::fixed::div_fx;
use crate::fixed::fits;
use crate::fixed::fx_add;
use crate::fixed::fx_clamp01;
use crate::fixed::fx_div;
use crate::fixed::fx_mul;
use crate::fixed::fx_neg;
use crate::fixed::fx_sqrt;
use crate::fixed::fx_sub;
use crate::fixed::mul_fx;
use crate::fixed::neg_fx;
use crate::fixed::sqrt_fx;
use crate::fixed::sub_fx;
use crate::vec3::Colour;
use crate::vec3::Point3;
use crate::vec3::Vec3;
use crate::vec3::fx_dot;
use crate::vec3::fx_scale;
use crate::vec3::fx_unit;
use crate::vec3::fx_vadd;
use crate::vec3::fx_vadd_scalar;
use crate::vec3::fx_vsub;
use crate::vec3::vec3;
use crate::vec3::vec_in_range;

verus! {

/// Origin plus direction: the point at parameter `t` is
/// `origin + t * direction`.
#[derive(Clone, Copy, PartialEq, Eq, Structural, Debug)]
pub struct Ray {
    pub ori: Point3,
    pub dir: Vec3,
}

/// Both endpoints of a ray lie in the scalar range.
pub open spec fn ray_in_range(r: Ray) -> bool {
    vec_in_range(r.ori) && vec_in_range(r.dir)
}

/// The point a ray reaches at parameter `t`.
pub open spec fn spec_ray_at(r: Ray, t: int) -> Vec3 {
    fx_vadd(r.ori, fx_scale(r.dir, t))
}

impl Default for Ray {
    /// The degenerate ray resting at the origin.
    fn default() -> (r: Self)
        ensures
            r.ori == (Vec3 { x: 0, y: 0, z: 0 }),
            r.dir == (Vec3 { x: 0, y: 0, z: 0 }),
    {
        Ray { ori: Vec3 { x: 0, y: 0, z: 0 }, dir: Vec3 { x: 0, y: 0, z: 0 } }
    }
}

impl Ray {
    /// A ray from an origin along a direction.
    pub fn new(origin: Point3, direction: Vec3) -> (r: Self)
        requires
            vec_in_range(origin),
            vec_in_range(direction),
        ensures
            r.ori == origin,
            r.dir == direction,
            ray_in_range(r),
    {
        Ray { ori: origin, dir: direction }
    }

    /// The ray's origin.
    pub fn origin(&self) -> (r: Vec3)
        ensures
            r == self.ori,
    {
        self.ori
    }

    /// The ray's direction.
    pub fn direction(&self) -> (r: Vec3)
        ensures
            r == self.dir,
    {
        self.dir
    }

    /// The point reached at parameter `t`.
    pub fn at(&self, t: i128) -> (r: Vec3)
        requires
            ray_in_range(*self),
            fits(t as int),
        ensures
            r == spec_ray_at(*self, t as int),
            vec_in_range(r),
    {
        self.ori.add(self.dir.scale(t))
    }
}

/// The sky: a vertical blend from white at the horizon to light blue
/// straight up, driven by the unit direction's height. The blend factor
/// is clamped to the unit interval, which guards the degenerate
/// directions that no well-formed camera produces.
pub open spec fn fx_background(unit_dir: Vec3) -> Colour {
    let t = fx_clamp01(fx_mul(FX_HALF as int, fx_add(unit_dir.y as int, FX_ONE as int)));
    fx_vadd(
        fx_scale(vec3(FX_ONE as int, FX_ONE as int, FX_ONE as int), fx_sub(FX_ONE as int, t)),
        fx_scale(vec3(FX_HALF as int, 700_000, FX_ONE as int), t),
    )
}

/// Compute the background colour for a unit direction; every channel
/// stays inside the unit interval.
pub(crate) fn background_colour(unit_dir: Vec3) -> (c: Colour)
    requires
        vec_in_range(unit_dir),
    ensures
        c == fx_background(unit_dir),
        0 <= c.x <= FX_ONE,
        0 <= c.y <= FX_ONE,
        0 <= c.z <= FX_ONE,
        vec_in_range(c),
{
    let t = clamp01_fx(mul_fx(FX_HALF, add_fx(unit_dir.y, FX_ONE)));
    let omt = sub_fx(FX_ONE, t);
    let white = Vec3::new(FX_ONE, FX_ONE, FX_ONE);
    let sky = Vec3::new(FX_HALF, 700_000, FX_ONE);
    let c = white.scale(omt).add(sky.scale(t));
    proof {
        crate::fixed::lemma_fx_mul_one(omt as int);
        crate::fixed::lemma_fx_mul_unit(FX_HALF as int, t as int);
        crate::fixed::lemma_fx_mul_unit(700_000, t as int);
        crate::fixed::lemma_fx_mul_unit(FX_ONE as int, t as int);
    }
    c
}

/// Self-intersection guard: hits nearer than one thousandth of a unit
/// are ignored, which suppresses shadow acne at a ray's own origin.
pub const T_MIN_HIT: i128 = 1_000;

/// A radiance value the integrator's contract permits for a ray at a
/// given depth: channels inside the unit interval; black when the
/// depth is exhausted; and exactly the background gradient when the
/// scene offers no hit — so over a scene with no objects every
/// admissible value is the background colour of the ray itself.
pub open spec fn radiance_admissible(
    world: crate::hit::HittableList,
    r: Ray,
    depth: int,
    c: Colour,
) -> bool {
    &&& vec_in_range(c)
    &&& 0 <= c.x <= FX_ONE
    &&& 0 <= c.y <= FX_ONE
    &&& 0 <= c.z <= FX_ONE
    &&& depth == 0 ==> c == (Vec3 { x: 0, y: 0, z: 0 })
    &&& (depth > 0 && crate::hit::spec_list_hit(
        world.objects@,
        r,
        T_MIN_HIT as int,
        crate::constants::FX_INF as int,
    ) is None) ==> c == fx_background(fx_unit(r.dir))
    &&& (depth > 0 && world.objects@.len() == 0) ==> c == fx_background(fx_unit(r.dir))
}

/// The radiance arriving along a ray: a depth-limited recursive
/// Monte-Carlo estimator. Exhausted depth contributes black; a miss
/// contributes the background gradient; a hit scatters at the struck
/// material and tints the recursive estimate by its attenuation. Every
/// channel of the result stays inside the unit interval.
pub fn ray_colour(
    ray: &Ray,
    world: &crate::hit::HittableList,
    depth: usize,
    rng: &mut rand::rngs::SmallRng,
) -> (c: Colour)
    requires
        world.wf(),
        ray_in_range(*ray),
    ensures
        vec_in_range(c),
        0 <= c.x <= FX_ONE,
        0 <= c.y <= FX_ONE,
        0 <= c.z <= FX_ONE,
        depth == 0 ==> c == (Vec3 { x: 0, y: 0, z: 0 }),
        depth > 0 && crate::hit::spec_list_hit(
            world.objects@,
            *ray,
            T_MIN_HIT as int,
            crate::constants::FX_INF as int,
        ) is None ==> c == fx_background(fx_unit(ray.dir)),
        depth > 0 && world.objects@.len() == 0 ==> c == fx_background(fx_unit(ray.dir)),
        depth > 0 ==> match crate::hit::spec_list_hit(
            world.objects@,
            *ray,
            T_MIN_HIT as int,
            crate::constants::FX_INF as int,
        ) {
            Some(rec) => exists|child: Colour|
                {
                    &&& vec_in_range(child)
                    &&& 0 <= child.x <= FX_ONE
                    &&& 0 <= child.y <= FX_ONE
                    &&& 0 <= child.z <= FX_ONE
                    &&& c == crate::vec3::fx_vmul(
                        crate::hit::spec_attenuation(world.materials@[rec.material as int]),
                        child,
                    )
                },
            None => true,
        },
    decreases depth,
{
    proof {
        if depth > 0 && world.objects@.len() == 0 {
            crate::hit::lemma_empty_scene_never_hits(
                world.objects@,
                *ray,
                T_MIN_HIT as int,
                crate::constants::FX_INF as int,
            );
        }
    }
    if depth == 0 {
        return Vec3::new_z();
    }
    match world.hit(ray, T_MIN_HIT, crate::constants::FX_INF) {
        Some(rec) => {
            let m = world.materials[rec.material];
            match m.scatter(ray, &rec, rng) {
                Some((attenuation, scattered)) => {
                    let child = ray_colour(&scattered, world, depth - 1, rng);
                    let c = attenuation.mul(child);
                    proof {
                        crate::fixed::lemma_fx_mul_unit(attenuation.x as int, child.x as int);
                        crate::fixed::lemma_fx_mul_unit(attenuation.y as int, child.y as int);
                        crate::fixed::lemma_fx_mul_unit(attenuation.z as int, child.z as int);
                        assert(vec_in_range(child) && 0 <= child.x <= FX_ONE && 0 <= child.y
                            <= FX_ONE && 0 <= child.z <= FX_ONE && c == crate::vec3::fx_vmul(
                            crate::hit::spec_attenuation(world.materials@[rec.material as int]),
                            child,
                        ));
                    }
                    c
                },
                None => Vec3::new_z(),
            }
        },
        None => {
            let unit_dir = Vec3::unit_vector(ray.direction());
            background_colour(unit_dir)
        },
    }
}

/// The signed ray parameter at which a ray first meets a sphere, from
/// the reduced quadratic with the half-coefficient optimization; a
/// negative discriminant or a degenerate direction yields minus one.
pub open spec fn spec_hits_sphere(sph_center: Vec3, radius: int, r: Ray) -> int {
    let oc = fx_vsub(r.ori, sph_center);
    let a = fx_dot(r.dir, r.dir);
    let b = fx_dot(r.dir, oc);
    let c = fx_sub(fx_dot(oc, oc), fx_mul(radius, radius));
    let disc = fx_sub(fx_mul(b, b), fx_mul(a, c));
    if disc < 0 {
        -(FX_ONE as int)
    } else {
        fx_div(fx_sub(fx_neg(b), fx_sqrt(disc)), a)
    }
}

/// The ray parameter at which `ray` first meets the sphere around
/// `sph_center`, or minus one when the quadratic has no real root.
pub fn hits_sphere(sph_center: Vec3, radius: i128, ray: &Ray) -> (t: i128)
    requires
        vec_in_range(sph_center),
        fits(radius as int),
        ray_in_range(*ray),
    ensures
        t as int == spec_hits_sphere(sph_center, radius as int, *ray),
        fits(t as int),
{
    let oc = ray.origin().sub(sph_center);
    let a = Vec3::dot(ray.direction(), ray.direction());
    let b = Vec3::dot(ray.direction(), oc);
    let c = sub_fx(Vec3::dot(oc, oc), mul_fx(radius, radius));
    let disc = sub_fx(mul_fx(b, b), mul_fx(a, c));
    if disc < 0 {
        -FX_ONE
    } else {
        let num = sub_fx(neg_fx(b), sqrt_fx(disc));
        if a <= 0 {
            0
        } else {
            div_fx(num, a)
        }
    }
}

/// The demonstration shading of a single hard-coded sphere: surface
/// normals mapped to colours in front of the background gradient.
pub open spec fn spec_sph_ray_colour(r: Ray) -> Colour {
    let unit_dir = fx_unit(r.dir);
    let t = spec_hits_sphere(vec3(0, 0, -(FX_ONE as int)), FX_HALF as int, r);
    if t > 0 {
        let norm = fx_unit(fx_vsub(spec_ray_at(r, t), vec3(0, 0, -(FX_ONE as int))));
        fx_scale(fx_vadd_scalar(norm, FX_ONE as int), FX_HALF as int)
    } else {
        fx_background(unit_dir)
    }
}

/// Shade a ray against the single hard-coded demonstration sphere.
pub fn sph_ray_colour(r: &Ray) -> (c: Colour)
    requires
        ray_in_range(*r),
    ensures
        c == spec_sph_ray_colour(*r),
        vec_in_range(c),
{
    let unit_dir = Vec3::unit_vector(r.direction());
    let t = hits_sphere(Vec3::new(0, 0, -FX_ONE), FX_HALF, r);
    if t > 0 {
        let norm = Vec3::unit_vector(r.at(t).sub(Vec3::new(0, 0, -FX_ONE)));
        norm.add_scalar(FX_ONE).scale(FX_HALF)
    } else {
        background_colour(unit_dir)
    }
}

} // verus!
