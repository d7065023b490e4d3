//! The intersection protocol: spheres, hit records, and the scene that
//! reduces many objects to the nearest hit; plus the material models.

use vstd::prelude::*;

use crate::fixed::FX_ONE;
use crate::fixed::add_fx;
use crate::fixed::div_fx;
use crate::fixed::fits;
use crate::fixed::fx_add;
use crate::fixed::fx_div;
use crate::fixed::fx_mul;
use crate::fixed::fx_neg;
use crate::fixed::fx_sqrt;
use crate::fixed::fx_sub;
use crate::fixed::mul_fx;
use crate::fixed::neg_fx;
use crate::fixed::sqrt_fx;
use crate::fixed::sub_fx;
use crate::ray::Ray;
use crate::ray::ray_in_range;
use crate::ray::spec_ray_at;
use crate::vec3::Colour;
use crate::vec3::Point3;
use crate::vec3::Vec3;
use crate::vec3::fx_dot;
use crate::vec3::fx_vdiv;
use crate::vec3::fx_vneg;
use crate::vec3::fx_vsub;
use crate::vec3::lemma_fx_dot_vneg;
use crate::vec3::vec_in_range;

verus! {

/// The outcome of a successful ray/geometry intersection: where it hit,
/// the surface normal stored facing against the ray, the ray parameter,
/// which side was struck, and the index of the surface's material in the
/// scene's material arena.
#[derive(Clone, Copy, PartialEq, Eq, Structural, Debug)]
pub struct HitRecord {
    pub point: Point3,
    pub norm: Vec3,
    pub t: i128,
    pub front_face: bool,
    pub material: usize,
}

/// All numeric fields of a record lie in the scalar range.
pub open spec fn record_in_range(rec: HitRecord) -> bool {
    vec_in_range(rec.point) && vec_in_range(rec.norm) && fits(rec.t as int)
}

/// The struck side: true when the geometric outward normal already faces
/// against the incoming ray.
pub open spec fn spec_front_face(r: Ray, outward_norm: Vec3) -> bool {
    fx_dot(r.dir, outward_norm) < 0
}

/// The stored normal: the outward normal, flipped when the ray arrives
/// from inside so that the stored normal always opposes the ray.
pub open spec fn spec_face_norm(r: Ray, outward_norm: Vec3) -> Vec3 {
    if spec_front_face(r, outward_norm) {
        outward_norm
    } else {
        fx_vneg(outward_norm)
    }
}

impl HitRecord {
    /// An empty record: everything zeroed, struck side false, material
    /// index zero, to be filled by a successful intersection test.
    pub fn new() -> (r: Self)
        ensures
            r.point == (Vec3 { x: 0, y: 0, z: 0 }),
            r.norm == (Vec3 { x: 0, y: 0, z: 0 }),
            r.t == 0,
            r.front_face == false,
            r.material == 0,
            record_in_range(r),
    {
        Self {
            point: Vec3::new_z(),
            norm: Vec3::new_z(),
            t: 0,
            front_face: false,
            material: 0,
        }
    }

    /// A record built from explicit parts.
    pub fn make(point: Point3, norm: Vec3, t: i128, front_face: bool, material: usize) -> (r: Self)
        requires
            vec_in_range(point),
            vec_in_range(norm),
            fits(t as int),
        ensures
            r == (HitRecord { point, norm, t, front_face, material }),
            record_in_range(r),
    {
        Self { point, norm, t, front_face, material }
    }

    /// The stored normal.
    pub fn norm(&self) -> (r: Vec3)
        ensures
            r == self.norm,
    {
        self.norm
    }

    /// The intersection point.
    pub fn point(&self) -> (r: Vec3)
        ensures
            r == self.point,
    {
        self.point
    }

    /// Store the side flag and the against-the-ray normal for a given
    /// geometric outward normal; the stored normal never points with
    /// the ray.
    fn set_face_norm(&mut self, ray: &Ray, outward_norm: Vec3)
        requires
            ray_in_range(*ray),
            vec_in_range(outward_norm),
        ensures
            *final(self) == (HitRecord {
                norm: spec_face_norm(*ray, outward_norm),
                front_face: spec_front_face(*ray, outward_norm),
                ..*old(self)
            }),
            fx_dot(ray.dir, final(self).norm) <= 0,
            vec_in_range(final(self).norm),
    {
        let d = Vec3::dot(ray.direction(), outward_norm);
        self.front_face = d < 0;
        if self.front_face {
            self.norm = outward_norm;
        } else {
            proof {
                lemma_fx_dot_vneg(ray.dir, outward_norm);
            }
            self.norm = outward_norm.neg();
        }
    }
}

/// A sphere: centre, radius, and the index of its material in the
/// scene's material arena. Geometry is immutable for a whole render.
#[derive(Clone, Copy, PartialEq, Eq, Structural, Debug)]
pub struct Sphere {
    pub center: Point3,
    pub radius: i128,
    pub material: usize,
}

impl Sphere {
    /// Well-formed geometry: centre in range and a positive radius.
    pub open spec fn wf(self) -> bool {
        vec_in_range(self.center) && fits(self.radius as int) && 0 < self.radius
    }

    /// A sphere from its centre, a positive radius, and a material index.
    pub fn new(center: Point3, radius: i128, material: usize) -> (s: Self)
        requires
            vec_in_range(center),
            fits(radius as int),
            0 < radius,
        ensures
            s == (Sphere { center, radius, material }),
            s.wf(),
    {
        Self { center, radius, material }
    }
}

/// The record a sphere reports for a hit at ray parameter `root`.
pub open spec fn spec_sphere_record(s: Sphere, r: Ray, root: int) -> HitRecord {
    let point = spec_ray_at(r, root);
    let outward = fx_vdiv(fx_vsub(point, s.center), s.radius as int);
    HitRecord {
        point,
        norm: spec_face_norm(r, outward),
        t: root as i128,
        front_face: spec_front_face(r, outward),
        material: s.material,
    }
}

/// Sphere intersection: solve the reduced quadratic with the
/// half-coefficient optimization and prefer the nearer root inside
/// `[t_min, t_max]`; a negative discriminant, a degenerate direction, or
/// two out-of-range roots mean no hit.
pub open spec fn spec_sphere_hit(s: Sphere, r: Ray, t_min: int, t_max: int) -> Option<HitRecord> {
    let oc = fx_vsub(r.ori, s.center);
    let a = fx_dot(r.dir, r.dir);
    let half_b = fx_dot(r.dir, oc);
    let c = fx_sub(fx_dot(oc, oc), fx_mul(s.radius as int, s.radius as int));
    let disc = fx_sub(fx_mul(half_b, half_b), fx_mul(a, c));
    if disc < 0 || a <= 0 {
        None
    } else {
        let sqrtd = fx_sqrt(disc);
        let root1 = fx_div(fx_sub(fx_neg(half_b), sqrtd), a);
        let root2 = fx_div(fx_add(fx_neg(half_b), sqrtd), a);
        if t_min <= root1 && root1 <= t_max {
            Some(spec_sphere_record(s, r, root1))
        } else if t_min <= root2 && root2 <= t_max {
            Some(spec_sphere_record(s, r, root2))
        } else {
            None
        }
    }
}

impl Sphere {
    /// Build the hit record for the accepted root.
    fn record_at(&self, ray: &Ray, root: i128) -> (rec: HitRecord)
        requires
            self.wf(),
            ray_in_range(*ray),
            fits(root as int),
        ensures
            rec == spec_sphere_record(*self, *ray, root as int),
            record_in_range(rec),
            rec.t == root,
            rec.material == self.material,
            fx_dot(ray.dir, rec.norm) <= 0,
    {
        let point = ray.at(root);
        let outward = point.sub(self.center).div(self.radius);
        let mut rec = HitRecord {
            point,
            norm: Vec3::new_z(),
            t: root,
            front_face: false,
            material: self.material,
        };
        rec.set_face_norm(ray, outward);
        rec
    }

    /// Whether the ray pierces this sphere between `t_min` and `t_max`;
    /// on a hit the returned record carries the nearer in-range root and
    /// a normal that never points with the ray.
    pub fn hit(&self, ray: &Ray, t_min: i128, t_max: i128) -> (res: Option<HitRecord>)
        requires
            self.wf(),
            ray_in_range(*ray),
            fits(t_min as int),
            fits(t_max as int),
        ensures
            res == spec_sphere_hit(*self, *ray, t_min as int, t_max as int),
            match res {
                Some(rec) => {
                    &&& t_min <= rec.t <= t_max
                    &&& rec.material == self.material
                    &&& record_in_range(rec)
                    &&& fx_dot(ray.dir, rec.norm) <= 0
                },
                None => true,
            },
    {
        let oc = ray.origin().sub(self.center);
        let a = Vec3::dot(ray.direction(), ray.direction());
        let half_b = Vec3::dot(ray.direction(), oc);
        let c = sub_fx(Vec3::dot(oc, oc), mul_fx(self.radius, self.radius));
        let disc = sub_fx(mul_fx(half_b, half_b), mul_fx(a, c));
        if disc < 0 || a <= 0 {
            return None;
        }
        let sqrtd = sqrt_fx(disc);
        let root1 = div_fx(sub_fx(neg_fx(half_b), sqrtd), a);
        if t_min <= root1 && root1 <= t_max {
            Some(self.record_at(ray, root1))
        } else {
            let root2 = div_fx(add_fx(neg_fx(half_b), sqrtd), a);
            if t_min <= root2 && root2 <= t_max {
                Some(self.record_at(ray, root2))
            } else {
                None
            }
        }
    }
}

/// Shrinking the far end of the query window keeps exactly the hits
/// whose parameter still fits: querying `[t_min, c]` returns the hit of
/// `[t_min, t_max]` when its parameter is at most `c`, and nothing
/// otherwise.
pub proof fn lemma_sphere_hit_window(s: Sphere, r: Ray, t_min: int, c: int, t_max: int)
    requires
        c <= t_max,
    ensures
        spec_sphere_hit(s, r, t_min, c) == (match spec_sphere_hit(s, r, t_min, t_max) {
            Some(h) => if h.t <= c {
                Some(h)
            } else {
                None::<HitRecord>
            },
            None => None::<HitRecord>,
        }),
{
    let oc = fx_vsub(r.ori, s.center);
    let a = fx_dot(r.dir, r.dir);
    let half_b = fx_dot(r.dir, oc);
    let cc = fx_sub(fx_dot(oc, oc), fx_mul(s.radius as int, s.radius as int));
    let disc = fx_sub(fx_mul(half_b, half_b), fx_mul(a, cc));
    if disc >= 0 && a > 0 {
        let sqrtd = fx_sqrt(disc);
        crate::fixed::lemma_fx_sqrt_nonneg(disc);
        let num1 = fx_sub(fx_neg(half_b), sqrtd);
        let num2 = fx_add(fx_neg(half_b), sqrtd);
        crate::fixed::lemma_fx_div_ordered(num1, num2, a);
    }
}

/// The one-sphere intersection test is a function of the ray, the
/// sphere and the window alone: querying it twice yields the same
/// parameter and the same record.
pub proof fn lemma_sphere_hit_deterministic(
    s: Sphere,
    r: Ray,
    t_min: int,
    t_max: int,
    first: Option<HitRecord>,
    second: Option<HitRecord>,
)
    requires
        first == spec_sphere_hit(s, r, t_min, t_max),
        second == spec_sphere_hit(s, r, t_min, t_max),
    ensures
        first == second,
{
}

/// The fold that reduces the objects from position `i` on to the
/// nearest hit, given the best record and window end found so far.
pub open spec fn spec_list_hit_from(
    objs: Seq<Sphere>,
    i: int,
    r: Ray,
    t_min: int,
    closest: int,
    best: Option<HitRecord>,
) -> Option<HitRecord>
    decreases objs.len() - i,
{
    if i < 0 || i >= objs.len() {
        best
    } else {
        match spec_sphere_hit(objs[i], r, t_min, closest) {
            Some(rec) => spec_list_hit_from(objs, i + 1, r, t_min, rec.t as int, Some(rec)),
            None => spec_list_hit_from(objs, i + 1, r, t_min, closest, best),
        }
    }
}

/// The nearest hit over a whole scene: fold every object in order,
/// shrinking the window to the best parameter found so far.
pub open spec fn spec_list_hit(objs: Seq<Sphere>, r: Ray, t_min: int, t_max: int) -> Option<
    HitRecord,
> {
    spec_list_hit_from(objs, 0, r, t_min, t_max, None)
}

/// A scene without objects reports no hit for any ray and any window,
/// so every radiance estimate over it is a background colour.
pub proof fn lemma_empty_scene_never_hits(objs: Seq<Sphere>, r: Ray, t_min: int, t_max: int)
    requires
        objs.len() == 0,
    ensures
        spec_list_hit(objs, r, t_min, t_max) is None,
{
}

/// The scene: an ordered collection of spheres over an arena of shared
/// materials; each sphere refers to its material by index.
pub struct HittableList {
    pub objects: Vec<Sphere>,
    pub materials: Vec<Material>,
}

impl HittableList {
    /// Every object is well-formed and refers into the material arena,
    /// and every material is well-formed.
    pub open spec fn wf(self) -> bool {
        &&& forall|i: int|
            0 <= i < self.objects@.len() ==> (#[trigger] self.objects@[i]).wf()
                && self.objects@[i].material < self.materials@.len()
        &&& forall|i: int| 0 <= i < self.materials@.len() ==> (#[trigger] self.materials@[i]).wf()
    }

    /// An empty scene.
    pub fn new() -> (s: Self)
        ensures
            s.objects@.len() == 0,
            s.materials@.len() == 0,
            s.wf(),
    {
        Self { objects: Vec::new(), materials: Vec::new() }
    }

    /// Remove every object; the material arena stays, so indices held
    /// elsewhere stay valid.
    pub fn clear(&mut self)
        requires
            old(self).wf(),
        ensures
            final(self).objects@.len() == 0,
            final(self).materials == old(self).materials,
            final(self).wf(),
    {
        self.objects.clear();
    }

    /// Add a material to the arena and hand back its index.
    pub fn add_material(&mut self, material: Material) -> (idx: usize)
        requires
            old(self).wf(),
            material.wf(),
        ensures
            final(self).materials@ == old(self).materials@.push(material),
            final(self).objects == old(self).objects,
            idx == old(self).materials@.len(),
            final(self).wf(),
    {
        let idx = self.materials.len();
        self.materials.push(material);
        idx
    }

    /// Add an object whose material index points into the arena.
    pub fn add(&mut self, object: Sphere)
        requires
            old(self).wf(),
            object.wf(),
            object.material < old(self).materials@.len(),
        ensures
            final(self).objects@ == old(self).objects@.push(object),
            final(self).materials == old(self).materials,
            final(self).wf(),
    {
        self.objects.push(object);
    }

    /// The nearest hit across every object in the window, or nothing.
    /// On a hit: the record is exactly one object's own report over the
    /// full window, no object reports a nearer parameter — so insertion
    /// order cannot change which surface is seen — the normal faces
    /// against the ray, and the material index points into the arena.
    /// On a miss, no object reports any hit in the window.
    #[verifier::rlimit(60)]
    pub fn hit(&self, ray: &Ray, t_min: i128, t_max: i128) -> (res: Option<HitRecord>)
        requires
            self.wf(),
            ray_in_range(*ray),
            fits(t_min as int),
            fits(t_max as int),
        ensures
            res == spec_list_hit(self.objects@, *ray, t_min as int, t_max as int),
            match res {
                Some(rec) => {
                    &&& t_min <= rec.t <= t_max
                    &&& record_in_range(rec)
                    &&& rec.material < self.materials@.len()
                    &&& fx_dot(ray.dir, rec.norm) <= 0
                    &&& exists|i: int|
                        0 <= i < self.objects@.len() && spec_sphere_hit(
                            #[trigger] self.objects@[i],
                            *ray,
                            t_min as int,
                            t_max as int,
                        ) == Some(rec)
                    &&& forall|j: int|
                        0 <= j < self.objects@.len() ==> match spec_sphere_hit(
                            #[trigger] self.objects@[j],
                            *ray,
                            t_min as int,
                            t_max as int,
                        ) {
                            Some(h) => h.t >= rec.t,
                            None => true,
                        }
                },
                None => forall|j: int|
                    0 <= j < self.objects@.len() ==> spec_sphere_hit(
                        #[trigger] self.objects@[j],
                        *ray,
                        t_min as int,
                        t_max as int,
                    ) is None,
            },
    {
        let ghost objs = self.objects@;
        let ghost tmin = t_min as int;
        let ghost tmax = t_max as int;
        let mut best: Option<HitRecord> = None;
        let mut closest_so_far: i128 = t_max;
        let mut idx: usize = 0;
        while idx < self.objects.len()
            invariant
                self.wf(),
                ray_in_range(*ray),
                fits(t_min as int),
                fits(t_max as int),
                fits(closest_so_far as int),
                objs == self.objects@,
                tmin == t_min as int,
                tmax == t_max as int,
                0 <= idx <= objs.len(),
                closest_so_far <= t_max,
                spec_list_hit_from(objs, idx as int, *ray, tmin, closest_so_far as int, best)
                    == spec_list_hit(objs, *ray, tmin, tmax),
                match best {
                    Some(rec) => {
                        &&& closest_so_far == rec.t
                        &&& t_min <= rec.t <= t_max
                        &&& record_in_range(rec)
                        &&& rec.material < self.materials@.len()
                        &&& fx_dot(ray.dir, rec.norm) <= 0
                        &&& exists|i: int|
                            0 <= i < idx && spec_sphere_hit(
                                #[trigger] objs[i],
                                *ray,
                                tmin,
                                tmax,
                            ) == Some(rec)
                        &&& forall|j: int|
                            0 <= j < idx ==> match spec_sphere_hit(
                                #[trigger] objs[j],
                                *ray,
                                tmin,
                                tmax,
                            ) {
                                Some(h) => h.t >= rec.t,
                                None => true,
                            }
                    },
                    None => {
                        &&& closest_so_far == t_max
                        &&& forall|j: int|
                            0 <= j < idx ==> spec_sphere_hit(
                                #[trigger] objs[j],
                                *ray,
                                tmin,
                                tmax,
                            ) is None
                    },
                },
            decreases objs.len() - idx,
        {
            let obj = self.objects[idx];
            let shrunk = obj.hit(ray, t_min, closest_so_far);
            proof {
                lemma_sphere_hit_window(obj, *ray, tmin, closest_so_far as int, tmax);
            }
            match shrunk {
                Some(rec) => {
                    proof {
                        assert(spec_sphere_hit(objs[idx as int], *ray, tmin, tmax) == Some(rec));
                    }
                    best = Some(rec);
                    closest_so_far = rec.t;
                }
                None => {}
            }
            idx = idx + 1;
        }
        best
    }
}

/// A point usable as a scatter perturbation: strictly inside the unit
/// ball and away from the exact zero point.
pub open spec fn in_unit_ball(p: Vec3) -> bool {
    vec_in_range(p) && 0 < crate::vec3::fx_length_squared(p) < FX_ONE
}

/// The diffuse scatter direction: the stored normal plus a random unit
/// vector, falling back to the bare normal when the sum cancels to the
/// degenerate zero direction.
pub open spec fn spec_lambertian_dir(norm: Vec3, unit: Vec3) -> Vec3 {
    let d = crate::vec3::fx_vadd(norm, unit);
    if crate::vec3::fx_near_zero(d) {
        norm
    } else {
        d
    }
}

/// A diffuse surface: scatters near the normal, tinted by its albedo.
#[derive(Clone, Copy, PartialEq, Eq, Structural, Debug)]
pub struct Lambertian {
    pub albedo: Colour,
}

impl Lambertian {
    /// Albedo is a colour: every channel is a fraction of one unit.
    pub open spec fn wf(self) -> bool {
        0 <= self.albedo.x <= FX_ONE && 0 <= self.albedo.y <= FX_ONE && 0 <= self.albedo.z
            <= FX_ONE
    }

    /// A diffuse material with the given albedo.
    pub fn new(albedo: Colour) -> (m: Self)
        requires
            0 <= albedo.x <= FX_ONE,
            0 <= albedo.y <= FX_ONE,
            0 <= albedo.z <= FX_ONE,
        ensures
            m == (Lambertian { albedo }),
            m.wf(),
    {
        Self { albedo }
    }

    /// Diffuse scattering: always succeeds; the scattered ray starts at
    /// the hit point along the normal perturbed by a random unit vector,
    /// and the attenuation is the albedo.
    pub fn scatter(&self, _ray: &Ray, record: &HitRecord, rng: &mut rand::rngs::SmallRng) -> (res:
        Option<(Colour, Ray)>)
        requires
            self.wf(),
            record_in_range(*record),
        ensures
            res.is_some(),
            match res {
                Some((att, sc)) => {
                    &&& att == self.albedo
                    &&& sc.ori == record.point
                    &&& ray_in_range(sc)
                    &&& exists|p: Vec3|
                        in_unit_ball(p) && sc.dir == spec_lambertian_dir(
                            record.norm,
                            crate::vec3::fx_unit(p),
                        )
                },
                None => false,
            },
    {
        let u = Vec3::rand_unit_vector(rng);
        let mut scatter_direction = record.norm().add(u);
        if scatter_direction.near_zero() {
            scatter_direction = record.norm();
        }
        let scattered = Ray::new(record.point(), scatter_direction);
        proof {
            let pw = choose|p: Vec3|
                vec_in_range(p) && 250_000 <= crate::vec3::fx_length_squared(p) < FX_ONE && u
                    == crate::vec3::fx_unit(p);
            assert(in_unit_ball(pw) && scattered.dir == spec_lambertian_dir(
                record.norm,
                crate::vec3::fx_unit(pw),
            ));
        }
        Some((self.albedo, scattered))
    }
}

/// A specular surface with a fuzz perturbation on the mirror direction.
#[derive(Clone, Copy, PartialEq, Eq, Structural, Debug)]
pub struct Metal {
    pub albedo: Colour,
    pub fuzz: i128,
}

impl Metal {
    /// Albedo channels are fractions; fuzz sits inside the unit interval.
    pub open spec fn wf(self) -> bool {
        0 <= self.albedo.x <= FX_ONE && 0 <= self.albedo.y <= FX_ONE && 0 <= self.albedo.z
            <= FX_ONE && 0 <= self.fuzz <= FX_ONE
    }

    /// A metal with the given albedo; a fuzz beyond one unit is clamped
    /// down to one at construction, a silent correction rather than an
    /// error.
    pub fn new(albedo: Colour, fuzz: i128) -> (m: Self)
        requires
            0 <= albedo.x <= FX_ONE,
            0 <= albedo.y <= FX_ONE,
            0 <= albedo.z <= FX_ONE,
            0 <= fuzz,
            fits(fuzz as int),
        ensures
            m.albedo == albedo,
            m.fuzz == if fuzz > FX_ONE { FX_ONE } else { fuzz },
            m.wf(),
    {
        Self { albedo, fuzz: if fuzz > FX_ONE { FX_ONE } else { fuzz } }
    }

    /// Specular scattering: always reports success, even when the fuzzed
    /// reflection points into the surface — that acceptance is a
    /// deliberate, documented choice of this model. The scattered ray is
    /// the mirror reflection perturbed by fuzz times a random interior
    /// point; the attenuation is the albedo.
    pub fn scatter(&self, ray: &Ray, record: &HitRecord, rng: &mut rand::rngs::SmallRng) -> (res:
        Option<(Colour, Ray)>)
        requires
            self.wf(),
            ray_in_range(*ray),
            record_in_range(*record),
        ensures
            res.is_some(),
            match res {
                Some((att, sc)) => {
                    &&& att == self.albedo
                    &&& sc.ori == record.point
                    &&& ray_in_range(sc)
                    &&& exists|p: Vec3|
                        in_unit_ball(p) && sc.dir == crate::vec3::fx_vadd(
                            crate::vec3::fx_reflect(ray.dir, record.norm),
                            crate::vec3::fx_scale(p, self.fuzz as int),
                        )
                },
                None => false,
            },
    {
        let reflected = Vec3::reflect(ray.direction(), record.norm());
        let p = Vec3::rand_in_unit_sphere(rng);
        let scattered = Ray::new(record.point(), reflected.add(p.scale(self.fuzz)));
        proof {
            assert(in_unit_ball(p) && scattered.dir == crate::vec3::fx_vadd(
                crate::vec3::fx_reflect(ray.dir, record.norm),
                crate::vec3::fx_scale(p, self.fuzz as int),
            ));
        }
        Some((self.albedo, scattered))
    }
}

/// A clear refractive surface described by its refraction index.
#[derive(Clone, Copy, PartialEq, Eq, Structural, Debug)]
pub struct Dielectric {
    pub ir: i128,
}

/// The ratio of refraction indices across the struck surface: entering
/// from outside it is the reciprocal of the index, leaving it is the
/// index itself.
pub open spec fn spec_refraction_ratio(ir: int, front_face: bool) -> int {
    if front_face {
        fx_div(FX_ONE as int, ir)
    } else {
        ir
    }
}

/// Cosine of the incidence angle, capped at one to guard overshoot.
pub open spec fn spec_cos_theta(unit_dir: Vec3, norm: Vec3) -> int {
    let d = fx_dot(fx_vneg(unit_dir), norm);
    if d > FX_ONE as int {
        FX_ONE as int
    } else {
        d
    }
}

/// Sine of the incidence angle from its cosine; a negative square is
/// treated as zero.
pub open spec fn spec_sin_theta(cos_theta: int) -> int {
    fx_sqrt(fx_sub(FX_ONE as int, fx_mul(cos_theta, cos_theta)))
}

/// The outgoing direction a dielectric chooses for a given reflectance
/// draw: mirror reflection when Snell's law has no real solution —
/// including exactly at the critical angle — or when the draw falls
/// below Schlick's reflectance; refraction otherwise.
pub open spec fn spec_dielectric_direction(
    ir: int,
    front_face: bool,
    unit_dir: Vec3,
    norm: Vec3,
    draw: int,
) -> Vec3 {
    let ratio = spec_refraction_ratio(ir, front_face);
    let cos_theta = spec_cos_theta(unit_dir, norm);
    let sin_theta = spec_sin_theta(cos_theta);
    if fx_mul(ratio, sin_theta) >= FX_ONE as int || spec_reflectance(cos_theta, ir) > draw {
        crate::vec3::fx_reflect(unit_dir, norm)
    } else {
        crate::vec3::fx_refract(unit_dir, norm, ratio)
    }
}

/// Schlick's closed-form estimate of a dielectric's reflectance.
pub open spec fn spec_reflectance(cosine: int, refraction_index: int) -> int {
    let r0a = fx_div(fx_sub(FX_ONE as int, refraction_index), fx_add(FX_ONE as int, refraction_index));
    let r0 = fx_mul(r0a, r0a);
    let omc = fx_sub(FX_ONE as int, cosine);
    let omc2 = fx_mul(omc, omc);
    let omc4 = fx_mul(omc2, omc2);
    let omc5 = fx_mul(omc4, omc);
    fx_add(r0, fx_mul(fx_sub(FX_ONE as int, r0), omc5))
}

impl Dielectric {
    /// A positive refraction index.
    pub open spec fn wf(self) -> bool {
        0 < self.ir && fits(self.ir as int)
    }

    /// A refractive material with the given index.
    pub fn new(ir: i128) -> (m: Self)
        requires
            0 < ir,
            fits(ir as int),
        ensures
            m == (Dielectric { ir }),
            m.wf(),
    {
        Self { ir }
    }

    /// Schlick's reflectance approximation.
    pub fn reflectance(cosine: i128, refraction_index: i128) -> (r: i128)
        requires
            fits(cosine as int),
            fits(refraction_index as int),
            0 < refraction_index,
        ensures
            r as int == spec_reflectance(cosine as int, refraction_index as int),
            fits(r as int),
    {
        let r0a = div_fx(sub_fx(FX_ONE, refraction_index), add_fx(FX_ONE, refraction_index));
        let r0 = mul_fx(r0a, r0a);
        let omc = sub_fx(FX_ONE, cosine);
        let omc2 = mul_fx(omc, omc);
        let omc4 = mul_fx(omc2, omc2);
        let omc5 = mul_fx(omc4, omc);
        add_fx(r0, mul_fx(sub_fx(FX_ONE, r0), omc5))
    }

    /// Refractive scattering: always succeeds and never absorbs colour.
    /// The outgoing direction is the mirror reflection whenever Snell's
    /// law has no real solution — including exactly at the critical
    /// angle — or when a uniform draw falls under Schlick's reflectance;
    /// otherwise it is the refraction of the unit incoming direction.
    pub fn scatter(&self, ray: &Ray, record: &HitRecord, rng: &mut rand::rngs::SmallRng) -> (res:
        Option<(Colour, Ray)>)
        requires
            self.wf(),
            ray_in_range(*ray),
            record_in_range(*record),
        ensures
            res.is_some(),
            match res {
                Some((att, sc)) => {
                    &&& att == (Vec3 { x: FX_ONE, y: FX_ONE, z: FX_ONE })
                    &&& sc.ori == record.point
                    &&& ray_in_range(sc)
                    &&& {
                        let unit_dir = crate::vec3::fx_unit(ray.dir);
                        let ratio = spec_refraction_ratio(self.ir as int, record.front_face);
                        let cos_theta = spec_cos_theta(unit_dir, record.norm);
                        let sin_theta = spec_sin_theta(cos_theta);
                        &&& (sc.dir == crate::vec3::fx_reflect(unit_dir, record.norm) || sc.dir
                            == crate::vec3::fx_refract(unit_dir, record.norm, ratio))
                        &&& fx_mul(ratio, sin_theta) >= FX_ONE ==> sc.dir
                            == crate::vec3::fx_reflect(unit_dir, record.norm)
                        &&& exists|d: int|
                            0 <= d < FX_ONE && sc.dir == spec_dielectric_direction(
                                self.ir as int,
                                record.front_face,
                                unit_dir,
                                record.norm,
                                d,
                            )
                    }
                },
                None => false,
            },
    {
        let attenuation = Vec3::new(FX_ONE, FX_ONE, FX_ONE);
        let refraction_ratio = if record.front_face {
            div_fx(FX_ONE, self.ir)
        } else {
            self.ir
        };
        let unit_direction = Vec3::unit_vector(ray.direction());
        let d = Vec3::dot(unit_direction.neg(), record.norm());
        let cos_theta = if d > FX_ONE {
            FX_ONE
        } else {
            d
        };
        let gap = sub_fx(FX_ONE, mul_fx(cos_theta, cos_theta));
        let sin_theta = if gap < 0 {
            0
        } else {
            sqrt_fx(gap)
        };
        let cannot_refract = mul_fx(refraction_ratio, sin_theta) >= FX_ONE;
        let draw = crate::rng::rand_range_fx(rng, 0, FX_ONE);
        let direction = if cannot_refract || Self::reflectance(cos_theta, self.ir) > draw {
            Vec3::reflect(unit_direction, record.norm())
        } else {
            Vec3::refract(unit_direction, record.norm(), refraction_ratio)
        };
        let scattered = Ray::new(record.point(), direction);
        proof {
            assert(0 <= draw < FX_ONE && scattered.dir == spec_dielectric_direction(
                self.ir as int,
                record.front_face,
                crate::vec3::fx_unit(ray.dir),
                record.norm,
                draw as int,
            ));
        }
        Some((attenuation, scattered))
    }
}

/// The closed set of material models, dispatched by variant.
#[derive(Clone, Copy, PartialEq, Eq, Structural, Debug)]
pub enum Material {
    Lambertian(Lambertian),
    Metal(Metal),
    Dielectric(Dielectric),
}

/// The attenuation each model always reports: its albedo for the
/// diffuse and specular models, pure white for the clear dielectric.
pub open spec fn spec_attenuation(m: Material) -> Colour {
    match m {
        Material::Lambertian(l) => l.albedo,
        Material::Metal(mm) => mm.albedo,
        Material::Dielectric(_) => Vec3 { x: FX_ONE, y: FX_ONE, z: FX_ONE },
    }
}

impl Material {
    /// Well-formedness of whichever variant this is.
    pub open spec fn wf(self) -> bool {
        match self {
            Material::Lambertian(m) => m.wf(),
            Material::Metal(m) => m.wf(),
            Material::Dielectric(m) => m.wf(),
        }
    }

    /// Scatter an incoming ray at a hit: every model in this set always
    /// reports success; the attenuation is a colour with channels inside
    /// the unit interval and the scattered ray starts at the hit point.
    /// A dielectric past the critical angle always reflects.
    pub fn scatter(&self, ray: &Ray, record: &HitRecord, rng: &mut rand::rngs::SmallRng) -> (res:
        Option<(Colour, Ray)>)
        requires
            self.wf(),
            ray_in_range(*ray),
            record_in_range(*record),
        ensures
            res.is_some(),
            match res {
                Some((att, sc)) => {
                    &&& att == spec_attenuation(*self)
                    &&& 0 <= att.x <= FX_ONE
                    &&& 0 <= att.y <= FX_ONE
                    &&& 0 <= att.z <= FX_ONE
                    &&& vec_in_range(att)
                    &&& sc.ori == record.point
                    &&& ray_in_range(sc)
                },
                None => false,
            },
            match *self {
                Material::Lambertian(m) => match res {
                    Some((att, sc)) => att == m.albedo && exists|p: Vec3|
                        in_unit_ball(p) && sc.dir == spec_lambertian_dir(
                            record.norm,
                            crate::vec3::fx_unit(p),
                        ),
                    None => false,
                },
                Material::Metal(m) => match res {
                    Some((att, sc)) => att == m.albedo && exists|p: Vec3|
                        in_unit_ball(p) && sc.dir == crate::vec3::fx_vadd(
                            crate::vec3::fx_reflect(ray.dir, record.norm),
                            crate::vec3::fx_scale(p, m.fuzz as int),
                        ),
                    None => false,
                },
                Material::Dielectric(m) => match res {
                    Some((att, sc)) => {
                        let unit_dir = crate::vec3::fx_unit(ray.dir);
                        let ratio = spec_refraction_ratio(m.ir as int, record.front_face);
                        let cos_theta = spec_cos_theta(unit_dir, record.norm);
                        let sin_theta = spec_sin_theta(cos_theta);
                        &&& att == (Vec3 { x: FX_ONE, y: FX_ONE, z: FX_ONE })
                        &&& (sc.dir == crate::vec3::fx_reflect(unit_dir, record.norm) || sc.dir
                            == crate::vec3::fx_refract(unit_dir, record.norm, ratio))
                        &&& fx_mul(ratio, sin_theta) >= FX_ONE ==> sc.dir
                            == crate::vec3::fx_reflect(unit_dir, record.norm)
                        &&& exists|d: int|
                            0 <= d < FX_ONE && sc.dir == spec_dielectric_direction(
                                m.ir as int,
                                record.front_face,
                                unit_dir,
                                record.norm,
                                d,
                            )
                    },
                    None => false,
                },
            },
    {
        match self {
            Material::Lambertian(m) => m.scatter(ray, record, rng),
            Material::Metal(m) => m.scatter(ray, record, rng),
            Material::Dielectric(m) => m.scatter(ray, record, rng),
        }
    }
}

} // verus!
