//! The camera: normalized image-plane coordinates mapped to world rays,
//! with look-from/look-at orientation and a thin-lens depth-of-field
//! model.

use vstd::prelude::*;

use crate::constants::spec_deg_to_rad;
use crate::constants::spec_tan;
use crate::fixed::FX_ONE;
use crate::fixed::div_floor;
use crate::fixed::div_fx;
use crate::fixed::fits;
use crate::fixed::fx_div;
use crate::fixed::fx_mul;
use crate::fixed::mul_fx;
use crate::ray::Ray;
use crate::vec3::Point3;
use crate::vec3::Vec3;
use crate::vec3::fx_cross;
use crate::vec3::fx_length;
use crate::vec3::fx_scale;
use crate::vec3::fx_unit;
use crate::vec3::fx_vadd;
use crate::vec3::fx_vdiv;
use crate::vec3::fx_vsub;
use crate::vec3::vec_in_range;

verus! {

/// Immutable per-render camera state, derived once from the viewing
/// configuration.
#[derive(Clone, Copy, PartialEq, Eq, Structural, Debug)]
pub struct Camera {
    pub aspect_ratio: i128,
    pub viewport_height: i128,
    pub viewport_width: i128,
    pub origin: Point3,
    pub horizontal: Vec3,
    pub vertical: Vec3,
    pub u: Vec3,
    pub v: Vec3,
    pub w: Vec3,
    pub aperture: i128,
    pub lens_radius: i128,
    pub lower_left_corner: Point3,
}

/// The camera every viewing configuration derives: the orthonormal-ish
/// basis from look-from/look-at/up, the viewport scaled by the focus
/// distance, and the lens radius as half the aperture.
pub open spec fn spec_camera(
    lookfrom: Point3,
    lookat: Point3,
    vup: Vec3,
    vfov: int,
    aspect_ratio: int,
    aperture: int,
    focus_dist: int,
) -> Camera {
    let theta = spec_deg_to_rad(vfov);
    let h = spec_tan(theta / 2);
    let viewport_height = fx_mul(2 * FX_ONE as int, h);
    let viewport_width = fx_mul(aspect_ratio, viewport_height);
    let w = fx_unit(fx_vsub(lookfrom, lookat));
    let u = fx_unit(fx_cross(vup, w));
    let v = fx_cross(w, u);
    let origin = lookfrom;
    let horizontal = fx_scale(u, fx_mul(focus_dist, viewport_width));
    let vertical = fx_scale(v, fx_mul(focus_dist, viewport_height));
    let lower_left_corner = fx_vsub(
        fx_vsub(
            fx_vsub(origin, fx_vdiv(horizontal, 2 * FX_ONE as int)),
            fx_vdiv(vertical, 2 * FX_ONE as int),
        ),
        fx_scale(w, focus_dist),
    );
    Camera {
        aspect_ratio: aspect_ratio as i128,
        viewport_height: viewport_height as i128,
        viewport_width: viewport_width as i128,
        origin,
        horizontal,
        vertical,
        u,
        v,
        w,
        aperture: aperture as i128,
        lens_radius: fx_div(aperture, 2 * FX_ONE as int) as i128,
        lower_left_corner,
    }
}

/// A lens sample: a point in the unit disk of the lens plane.
pub open spec fn in_lens_disk(p: Vec3) -> bool {
    vec_in_range(p) && p.z == 0 && fx_length(p) < FX_ONE
}

/// The ray a camera casts for normalized image coordinates `(s, t)`
/// and lens sample `p`: its origin is shifted by the lens offset and
/// its direction points at the focus-plane point of `(s, t)`.
pub open spec fn spec_get_ray(cam: Camera, s: int, t: int, p: Vec3) -> Ray {
    let rd = fx_scale(p, cam.lens_radius as int);
    let offset = fx_vadd(fx_scale(cam.u, rd.x as int), fx_scale(cam.v, rd.y as int));
    Ray {
        ori: fx_vadd(cam.origin, offset),
        dir: fx_vsub(
            fx_vsub(
                fx_vadd(
                    fx_vadd(cam.lower_left_corner, fx_scale(cam.horizontal, s)),
                    fx_scale(cam.vertical, t),
                ),
                cam.origin,
            ),
            offset,
        ),
    }
}

impl Camera {
    /// Every stored vector and scalar lies in the representable range.
    pub open spec fn wf(self) -> bool {
        &&& fits(self.aspect_ratio as int)
        &&& fits(self.viewport_height as int)
        &&& fits(self.viewport_width as int)
        &&& vec_in_range(self.origin)
        &&& vec_in_range(self.horizontal)
        &&& vec_in_range(self.vertical)
        &&& vec_in_range(self.u)
        &&& vec_in_range(self.v)
        &&& vec_in_range(self.w)
        &&& fits(self.aperture as int)
        &&& fits(self.lens_radius as int)
        &&& vec_in_range(self.lower_left_corner)
    }

    /// Derive the per-render camera state from the viewing
    /// configuration: orientation basis, focus-scaled viewport, and
    /// lens radius.
    pub fn new(
        lookfrom: Point3,
        lookat: Point3,
        vup: Vec3,
        vfov: i128,
        aspect_ratio: i128,
        aperture: i128,
        focus_dist: i128,
    ) -> (c: Self)
        requires
            vec_in_range(lookfrom),
            vec_in_range(lookat),
            vec_in_range(vup),
            0 <= vfov,
            fits(vfov as int),
            fits(aspect_ratio as int),
            fits(aperture as int),
            fits(focus_dist as int),
        ensures
            c == spec_camera(
                lookfrom,
                lookat,
                vup,
                vfov as int,
                aspect_ratio as int,
                aperture as int,
                focus_dist as int,
            ),
            c.wf(),
    {
        let theta = crate::constants::deg_to_rad(vfov);
        proof {
            crate::fixed::lemma_fx_mul_nonneg(vfov as int, crate::constants::FX_PI as int);
            if fx_mul(vfov as int, crate::constants::FX_PI as int) > 0 {
                vstd::arithmetic::div_mod::lemma_div_pos_is_pos(
                    fx_mul(vfov as int, crate::constants::FX_PI as int) * crate::fixed::FX_SCALE
                        as int,
                    crate::constants::DEG_HALF_TURN as int,
                );
            }
            vstd::arithmetic::div_mod::lemma_div_pos_is_pos(theta as int, 2);
        }
        let h = crate::constants::tan_fx(div_floor(theta, 2));
        let viewport_height = mul_fx(2 * FX_ONE, h);
        let viewport_width = mul_fx(aspect_ratio, viewport_height);

        let w = Vec3::unit_vector(lookfrom.sub(lookat));
        let u = Vec3::unit_vector(Vec3::cross(vup, w));
        let v = Vec3::cross(w, u);

        let origin = lookfrom;
        let horizontal = u.scale(mul_fx(focus_dist, viewport_width));
        let vertical = v.scale(mul_fx(focus_dist, viewport_height));
        let lower_left_corner = origin
            .sub(horizontal.div(2 * FX_ONE))
            .sub(vertical.div(2 * FX_ONE))
            .sub(w.scale(focus_dist));

        let lens_radius = div_fx(aperture, 2 * FX_ONE);

        Self {
            aspect_ratio,
            viewport_height,
            viewport_width,
            origin,
            horizontal,
            vertical,
            u,
            v,
            w,
            aperture,
            lens_radius,
            lower_left_corner,
        }
    }

    /// Cast the ray for normalized image coordinates `(s, t)`: a random
    /// lens sample blurs out-of-focus geometry while rays still meet at
    /// the focus plane.
    pub fn get_ray(&self, s: i128, t: i128, rng: &mut rand::rngs::SmallRng) -> (r: Ray)
        requires
            self.wf(),
            fits(s as int),
            fits(t as int),
        ensures
            crate::ray::ray_in_range(r),
            exists|p: Vec3| in_lens_disk(p) && r == spec_get_ray(*self, s as int, t as int, p),
    {
        let p = Vec3::rand_in_unit_disk(rng);
        let rd = p.scale(self.lens_radius);
        let offset = self.u.scale(rd.x()).add(self.v.scale(rd.y()));
        let r = Ray::new(
            self.origin.add(offset),
            self
                .lower_left_corner
                .add(self.horizontal.scale(s))
                .add(self.vertical.scale(t))
                .sub(self.origin)
                .sub(offset),
        );
        proof {
            assert(in_lens_disk(p) && r == spec_get_ray(*self, s as int, t as int, p));
        }
        r
    }
}

} // verus!
