use ray_tracer::fixed::FX_HALF;
use ray_tracer::fixed::FX_ONE;
use ray_tracer::hit::Dielectric;
use ray_tracer::hit::HitRecord;
use ray_tracer::hit::Lambertian;
use ray_tracer::hit::Metal;
use ray_tracer::ray::Ray;
use ray_tracer::rng::rng_from_seed;
use ray_tracer::vec3::Vec3;

#[test]
fn lambertian_always_scatters_with_albedo() {
    let albedo = Vec3::new(400_000, 200_000, 100_000);
    let mat = Lambertian::new(albedo);
    let record = HitRecord::make(
        Vec3::new(0, 0, -FX_HALF),
        Vec3::new(0, 0, FX_ONE),
        FX_HALF,
        true,
        0,
    );
    let ray = Ray::new(Vec3::new_z(), Vec3::new(0, 0, -FX_ONE));
    let mut rng = rng_from_seed(7);
    for _ in 0..32 {
        let (attenuation, scattered) = mat.scatter(&ray, &record, &mut rng).expect(
            "diffuse scatter always succeeds",
        );
        assert_eq!(attenuation, albedo);
        assert_eq!(scattered.origin(), record.point());
        // the direction is the normal plus a unit sample, never zero
        assert!(!scattered.direction().near_zero());
    }
}

#[test]
fn metal_with_no_fuzz_reflects_exactly() {
    let albedo = Vec3::new(FX_ONE, FX_ONE, FX_ONE);
    let mat = Metal::new(albedo, 0);
    let record = HitRecord::make(
        Vec3::new(0, 0, -FX_HALF),
        Vec3::new(0, 0, FX_ONE),
        FX_HALF,
        true,
        0,
    );
    let incoming = Vec3::new(300_000, -400_000, -FX_ONE);
    let ray = Ray::new(Vec3::new_z(), incoming);
    let mut rng = rng_from_seed(11);
    let (attenuation, scattered) = mat.scatter(&ray, &record, &mut rng).unwrap();
    assert_eq!(attenuation, albedo);
    assert_eq!(scattered.origin(), record.point());
    assert_eq!(scattered.direction(), Vec3::reflect(incoming, record.norm()));
}

#[test]
fn metal_clamps_fuzz_at_one() {
    let m = Metal::new(Vec3::new(FX_HALF, FX_HALF, FX_HALF), 3 * FX_ONE);
    assert_eq!(m.fuzz, FX_ONE);
    let n = Metal::new(Vec3::new(FX_HALF, FX_HALF, FX_HALF), 250_000);
    assert_eq!(n.fuzz, 250_000);
}

#[test]
fn dielectric_reflects_at_the_critical_angle() {
    // the internal angle whose sine estimate times the 1.5 index lands
    // exactly on one: Snell has no real solution, so reflection is
    // forced no matter what the reflectance draw says
    let mat = Dielectric::new(1_500_000);
    let record = HitRecord::make(
        Vec3::new_z(),
        Vec3::new(0, 0, FX_ONE),
        FX_ONE,
        false,
        0,
    );
    let ray = Ray::new(Vec3::new_z(), Vec3::new(626_103, 0, -700_000));
    let unit_dir = Vec3::unit_vector(ray.direction());
    assert_eq!(unit_dir, Vec3::new(666_669, 0, -745_355));
    let expected = Vec3::reflect(unit_dir, record.norm());
    assert_eq!(expected, Vec3::new(666_669, 0, 745_355));
    for seed in 0..64u64 {
        let mut rng = rng_from_seed(seed);
        let (attenuation, scattered) = mat.scatter(&ray, &record, &mut rng).unwrap();
        assert_eq!(attenuation, Vec3::new(FX_ONE, FX_ONE, FX_ONE));
        assert_eq!(scattered.origin(), record.point());
        assert_eq!(scattered.direction(), expected);
    }
}

#[test]
fn dielectric_refracts_head_on() {
    // straight into the surface the sine is zero and the reflectance of
    // glass is about four percent, so most draws refract straight through
    let mat = Dielectric::new(1_500_000);
    let record = HitRecord::make(
        Vec3::new_z(),
        Vec3::new(0, 0, FX_ONE),
        FX_ONE,
        true,
        0,
    );
    let ray = Ray::new(Vec3::new(0, 0, FX_ONE), Vec3::new(0, 0, -FX_ONE));
    let mut straight = 0;
    for seed in 0..64u64 {
        let mut rng = rng_from_seed(seed);
        let (_, scattered) = mat.scatter(&ray, &record, &mut rng).unwrap();
        let d = scattered.direction();
        if d.z() < 0 {
            straight += 1;
        }
    }
    // refraction keeps the ray moving into the surface; reflection
    // would turn it around, and happens in only a few draws
    assert!(straight >= 32, "only {straight} of 64 draws refracted");
}

#[test]
fn reflectance_matches_schlick() {
    // computed from the closed form on the fixed-point grid
    assert_eq!(Dielectric::reflectance(745_355, 1_500_000), 41_027);
    // head-on reflectance of glass is about four percent
    assert_eq!(Dielectric::reflectance(FX_ONE, 1_500_000), 40_000);
}
