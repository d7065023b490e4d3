use ray_tracer::constants::FX_INF;
use ray_tracer::fixed::FX_HALF;
use ray_tracer::fixed::FX_ONE;
use ray_tracer::hit::HittableList;
use ray_tracer::hit::Lambertian;
use ray_tracer::hit::Material;
use ray_tracer::hit::Sphere;
use ray_tracer::ray::Ray;
use ray_tracer::ray::hits_sphere;
use ray_tracer::ray::sph_ray_colour;
use ray_tracer::vec3::Vec3;

fn gray() -> Material {
    Material::Lambertian(Lambertian::new(Vec3::new(FX_HALF, FX_HALF, FX_HALF)))
}

#[test]
fn sphere_hit_head_on() {
    let mut world = HittableList::new();
    let m = world.add_material(gray());
    world.add(Sphere::new(Vec3::new(0, 0, -FX_ONE), FX_HALF, m));
    let ray = Ray::new(Vec3::new_z(), Vec3::new(0, 0, -FX_ONE));
    let rec = world.hit(&ray, 1_000, FX_INF).expect("head-on ray must hit");
    assert_eq!(rec.t, FX_HALF);
    assert_eq!(rec.point(), Vec3::new(0, 0, -FX_HALF));
    assert_eq!(rec.norm(), Vec3::new(0, 0, FX_ONE));
    assert!(rec.front_face);
    assert_eq!(rec.material, m);
}

#[test]
fn sphere_hit_normal_faces_against_ray() {
    let mut world = HittableList::new();
    let m = world.add_material(gray());
    world.add(Sphere::new(Vec3::new(0, 0, -FX_ONE), FX_HALF, m));
    // from outside
    let outside = Ray::new(Vec3::new_z(), Vec3::new(0, 0, -FX_ONE));
    let rec = world.hit(&outside, 1_000, FX_INF).unwrap();
    assert!(Vec3::dot(outside.direction(), rec.norm()) <= 0);
    // from inside the glass of the sphere
    let inside = Ray::new(Vec3::new(0, 0, -FX_ONE), Vec3::new(0, 0, -FX_ONE));
    let rec2 = world.hit(&inside, 1_000, FX_INF).unwrap();
    assert!(!rec2.front_face);
    assert_eq!(rec2.norm(), Vec3::new(0, 0, FX_ONE));
    assert!(Vec3::dot(inside.direction(), rec2.norm()) <= 0);
}

#[test]
fn sphere_hit_is_idempotent() {
    let mut world = HittableList::new();
    let m = world.add_material(gray());
    world.add(Sphere::new(Vec3::new(0, 0, -FX_ONE), FX_HALF, m));
    let ray = Ray::new(Vec3::new(100_000, -50_000, 0), Vec3::new(-70_000, 30_000, -FX_ONE));
    let first = world.hit(&ray, 1_000, FX_INF);
    let second = world.hit(&ray, 1_000, FX_INF);
    assert_eq!(first, second);
    let sphere = Sphere::new(Vec3::new(0, 0, -FX_ONE), FX_HALF, m);
    assert_eq!(sphere.hit(&ray, 1_000, FX_INF), sphere.hit(&ray, 1_000, FX_INF));
}

#[test]
fn nearest_hit_ignores_insertion_order() {
    let near = Sphere::new(Vec3::new(0, 0, -FX_ONE), FX_HALF, 0);
    let far = Sphere::new(Vec3::new(0, 0, -2 * FX_ONE), FX_HALF, 1);
    let ray = Ray::new(Vec3::new_z(), Vec3::new(0, 0, -FX_ONE));

    let mut world_a = HittableList::new();
    world_a.add_material(gray());
    world_a.add_material(gray());
    world_a.add(near);
    world_a.add(far);

    let mut world_b = HittableList::new();
    world_b.add_material(gray());
    world_b.add_material(gray());
    world_b.add(far);
    world_b.add(near);

    let rec_a = world_a.hit(&ray, 1_000, FX_INF).unwrap();
    let rec_b = world_b.hit(&ray, 1_000, FX_INF).unwrap();
    assert_eq!(rec_a, rec_b);
    assert_eq!(rec_a.t, FX_HALF);
    assert_eq!(rec_a.material, 0);
}

#[test]
fn miss_reports_nothing() {
    let mut world = HittableList::new();
    let m = world.add_material(gray());
    world.add(Sphere::new(Vec3::new(0, 0, -FX_ONE), FX_HALF, m));
    let away = Ray::new(Vec3::new_z(), Vec3::new(0, FX_ONE, 0));
    assert!(world.hit(&away, 1_000, FX_INF).is_none());
    let empty = HittableList::new();
    let toward = Ray::new(Vec3::new_z(), Vec3::new(0, 0, -FX_ONE));
    assert!(empty.hit(&toward, 1_000, FX_INF).is_none());
}

#[test]
fn clear_empties_the_scene() {
    let mut world = HittableList::new();
    let m = world.add_material(gray());
    world.add(Sphere::new(Vec3::new(0, 0, -FX_ONE), FX_HALF, m));
    world.clear();
    let ray = Ray::new(Vec3::new_z(), Vec3::new(0, 0, -FX_ONE));
    assert!(world.hit(&ray, 1_000, FX_INF).is_none());
}

#[test]
fn hits_sphere_reports_the_near_root() {
    let ray = Ray::new(Vec3::new_z(), Vec3::new(0, 0, -FX_ONE));
    assert_eq!(hits_sphere(Vec3::new(0, 0, -FX_ONE), FX_HALF, &ray), FX_HALF);
    let away = Ray::new(Vec3::new_z(), Vec3::new(0, FX_ONE, 0));
    assert_eq!(hits_sphere(Vec3::new(0, 0, -FX_ONE), FX_HALF, &away), -FX_ONE);
}

#[test]
fn sph_ray_colour_shades_by_normal() {
    let ray = Ray::new(Vec3::new_z(), Vec3::new(0, 0, -FX_ONE));
    assert_eq!(sph_ray_colour(&ray), Vec3::new(FX_HALF, FX_HALF, FX_ONE));
    let up = Ray::new(Vec3::new_z(), Vec3::new(0, FX_ONE, 0));
    assert_eq!(sph_ray_colour(&up), Vec3::new(FX_HALF, 700_000, FX_ONE));
}
