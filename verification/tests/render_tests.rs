use ray_tracer::camera::Camera;
use ray_tracer::constants::FX_PI;
use ray_tracer::constants::deg_to_rad;
use ray_tracer::fixed::FX_HALF;
use ray_tracer::fixed::FX_ONE;
use ray_tracer::hit::HittableList;
use ray_tracer::hit::Lambertian;
use ray_tracer::hit::Material;
use ray_tracer::hit::Sphere;
use ray_tracer::ray::Ray;
use ray_tracer::ray::ray_colour;
use ray_tracer::render::colour_to_bytes;
use ray_tracer::render::render;
use ray_tracer::render::render_pixel;
use ray_tracer::rng::rng_from_entropy;
use ray_tracer::rng::rng_from_seed;
use ray_tracer::vec3::Vec3;

fn canonical_camera() -> Camera {
    Camera::new(
        Vec3::new_z(),
        Vec3::new(0, 0, -FX_ONE),
        Vec3::new(0, FX_ONE, 0),
        90 * FX_ONE,
        FX_ONE,
        0,
        FX_ONE,
    )
}

#[test]
fn depth_zero_is_black() {
    let mut world = HittableList::new();
    let m = world.add_material(Material::Lambertian(Lambertian::new(Vec3::new(
        FX_HALF, FX_HALF, FX_HALF,
    ))));
    world.add(Sphere::new(Vec3::new(0, 0, -FX_ONE), FX_HALF, m));
    let mut rng = rng_from_seed(3);
    let ray = Ray::new(Vec3::new_z(), Vec3::new(0, 0, -FX_ONE));
    assert_eq!(ray_colour(&ray, &world, 0, &mut rng), Vec3::new_z());
    let weird = Ray::new(Vec3::new(5, -5, 5), Vec3::new(0, 0, 0));
    assert_eq!(ray_colour(&weird, &world, 0, &mut rng), Vec3::new_z());
}

#[test]
fn background_gradient_up_and_down() {
    let world = HittableList::new();
    let mut rng = rng_from_seed(4);
    let up = Ray::new(Vec3::new_z(), Vec3::new(0, FX_ONE, 0));
    assert_eq!(ray_colour(&up, &world, 5, &mut rng), Vec3::new(FX_HALF, 700_000, FX_ONE));
    let down = Ray::new(Vec3::new_z(), Vec3::new(0, -FX_ONE, 0));
    assert_eq!(ray_colour(&down, &world, 5, &mut rng), Vec3::new(FX_ONE, FX_ONE, FX_ONE));
}

#[test]
fn centre_ray_hits_the_reference_sphere() {
    let mut world = HittableList::new();
    let m = world.add_material(Material::Lambertian(Lambertian::new(Vec3::new(
        FX_HALF, FX_HALF, FX_HALF,
    ))));
    world.add(Sphere::new(Vec3::new(0, 0, -FX_ONE), FX_HALF, m));
    let cam = canonical_camera();
    // the derived state pins the whole construction, tangent included
    assert_eq!(cam.w, Vec3::new(0, 0, FX_ONE));
    assert_eq!(cam.u, Vec3::new(FX_ONE, 0, 0));
    assert_eq!(cam.v, Vec3::new(0, FX_ONE, 0));
    assert_eq!(cam.viewport_height, 2_000_008);
    assert_eq!(cam.viewport_width, 2_000_008);
    assert_eq!(cam.lens_radius, 0);
    assert_eq!(cam.lower_left_corner, Vec3::new(-1_000_004, -1_000_004, -FX_ONE));
    let mut rng = rng_from_seed(5);
    // with a closed aperture the centre ray is exact
    let ray = cam.get_ray(FX_HALF, FX_HALF, &mut rng);
    assert_eq!(ray.origin(), Vec3::new_z());
    assert_eq!(ray.direction(), Vec3::new(0, 0, -FX_ONE));
    let rec = world.hit(&ray, 1_000, ray_tracer::constants::FX_INF).unwrap();
    assert_eq!(rec.t, FX_HALF);
    assert_eq!(rec.norm(), Vec3::new(0, 0, FX_ONE));
}

#[test]
fn empty_scene_renders_only_background() {
    let world = HittableList::new();
    let cam = canonical_camera();
    let mut rng = rng_from_entropy();
    let width = 4usize;
    let height = 4usize;
    let raster = render(&world, &cam, width, height, 2, 3, &mut rng);
    assert_eq!(raster.len(), 3 * width * height);
    for pix in 0..width * height {
        let r = raster[3 * pix];
        let g = raster[3 * pix + 1];
        let b = raster[3 * pix + 2];
        // sky-gradient colours: blue saturated, red below green
        assert_eq!(b, 255);
        assert!(r <= g);
    }
    // the first emitted row looks up into the sky, the last down to the
    // white horizon
    let top_red = raster[0];
    let bottom_red = raster[3 * width * (height - 1)];
    assert!(top_red < bottom_red);
}

#[test]
fn quantization_applies_scale_gamma_and_clamp() {
    // one sample: full red maps to 255, black to 0, a quarter to 128
    let bytes = colour_to_bytes(Vec3::new(FX_ONE, 0, 250_000), 1);
    assert_eq!(bytes, (255, 0, 128));
    // four samples of full white average back to full white
    let sum = Vec3::new(4 * FX_ONE, 4 * FX_ONE, 4 * FX_ONE);
    assert_eq!(colour_to_bytes(sum, 4), (255, 255, 255));
    // values beyond one clamp rather than wrap
    let hot = Vec3::new(9 * FX_ONE, 0, 0);
    assert_eq!(colour_to_bytes(hot, 1), (255, 0, 0));
}

#[test]
fn angle_conversion_is_linear_in_pi() {
    assert_eq!(deg_to_rad(180 * FX_ONE), FX_PI);
    assert_eq!(deg_to_rad(90 * FX_ONE), 1_570_796);
    assert_eq!(deg_to_rad(0), 0);
}

#[test]
fn sampler_stays_in_range() {
    let mut rng = rng_from_entropy();
    for _ in 0..100 {
        let v = Vec3::rand(&mut rng, 10, 12);
        assert!(10 <= v.x() && v.x() < 12);
        assert!(10 <= v.y() && v.y() < 12);
        assert!(10 <= v.z() && v.z() < 12);
    }
}

#[test]
fn seeded_streams_repeat() {
    let mut a = rng_from_seed(42);
    let mut b = rng_from_seed(42);
    for _ in 0..8 {
        assert_eq!(Vec3::rand(&mut a, 0, FX_ONE), Vec3::rand(&mut b, 0, FX_ONE));
    }
}

#[test]
fn more_samples_reduce_pixel_noise() {
    let mut world = HittableList::new();
    let m = world.add_material(Material::Lambertian(Lambertian::new(Vec3::new(
        FX_HALF, FX_HALF, FX_HALF,
    ))));
    world.add(Sphere::new(Vec3::new(0, 0, -FX_ONE), FX_HALF, m));
    let cam = canonical_camera();
    let spread = |samples: usize| -> i64 {
        let mut values: Vec<i64> = Vec::new();
        for _ in 0..12 {
            let mut rng = rng_from_entropy();
            let (r, _, _) = render_pixel(&world, &cam, 1, 1, 3, 3, samples, 8, &mut rng);
            values.push(r as i64);
        }
        let mean: i64 = values.iter().sum::<i64>() / values.len() as i64;
        values.iter().map(|v| (v - mean).abs()).sum::<i64>() / values.len() as i64
    };
    let coarse = spread(2);
    let fine = spread(64);
    // convergence: the finely sampled pixel cannot be much noisier than
    // the coarsely sampled one
    assert!(fine <= coarse + 30, "fine spread {fine}, coarse spread {coarse}");
}
