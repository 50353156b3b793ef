use raytracer::camera::Camera;
use raytracer::material::{Dielectric, Lambertian, Material, Metal};
use raytracer::random::{inclusive_between_of, unit_of, Random};
use raytracer::ray::{Hit, Ray, RayHit};
use raytracer::render::{
    background, color_bytes, finish_pixel, ray_color, ray_color_diffuse,
    ray_color_diffuse_hemisphere, sampled_color_bytes, Frame,
};
use raytracer::scalar::Real;
use raytracer::scene::{random_scene, HitTarget};
use raytracer::sphere::{hit_sphere, Sphere};
use raytracer::util::Between;
use raytracer::vector::Vector3;

const SCALE: f64 = 4294967296.0;

fn fixed(x: f64) -> Real {
    Real::from_raw((x * SCALE).round() as i64)
}

fn value(r: Real) -> f64 {
    r.raw() as f64 / SCALE
}

fn vec3(x: f64, y: f64, z: f64) -> Vector3 {
    Vector3::new(fixed(x), fixed(y), fixed(z))
}

fn close(a: Real, b: f64, tolerance: f64) -> bool {
    (value(a) - b).abs() <= tolerance
}

fn gray() -> Material {
    Material::Lambertian(Lambertian::new(vec3(0.5, 0.5, 0.5)))
}

fn hit_at(point: Vector3, normal: Vector3, front_face: bool, material: Material) -> RayHit {
    RayHit { point, normal, t: Real::one(), front_face, material }
}

fn down_z() -> Ray {
    Ray::of(Vector3::zero(), vec3(0.0, 0.0, -1.0))
}

#[test]
fn fixed_point_products_and_roots() {
    let half = Real::ratio(1, 2);
    assert_eq!(half.mul(half), Real::ratio(1, 4));
    assert_eq!(Real::from_int(4).sqrt(), Real::from_int(2));
    assert_eq!(Real::from_int(-4).sqrt(), Real::zero());
    assert_eq!(Real::from_int(3).div(Real::from_int(2)), Real::ratio(3, 2));
    assert_eq!(Real::from_int(2).powi(5), Real::from_int(32));
    assert_eq!(Real::from_raw(i64::MAX).add(Real::one()).raw(), i64::MAX);
    assert_eq!(Real::from_int(-7).abs(), Real::from_int(7));
    assert_eq!(Real::from_int(5).clamp(Real::zero(), Real::one()), Real::one());
}

#[test]
fn vector_kernel() {
    let a = vec3(1.0, 2.0, 3.0);
    let b = vec3(4.0, 5.0, 6.0);
    assert_eq!(Vector3::dot(&a, &b), Real::from_int(32));
    assert_eq!(Vector3::cross(&a, &b), vec3(-3.0, 6.0, -3.0));
    assert_eq!(a.add(b), vec3(5.0, 7.0, 9.0));
    assert_eq!(b.sub(a), vec3(3.0, 3.0, 3.0));
    assert_eq!(a.mul(b), vec3(4.0, 10.0, 18.0));
    assert_eq!(a.neg(), vec3(-1.0, -2.0, -3.0));
    assert_eq!(vec3(3.0, 4.0, 0.0).magnitude(), Real::from_int(5));
    assert!(close(vec3(3.0, 4.0, 0.0).normalize().x(), 0.6, 1e-9));
    assert_eq!(Vector3::lerp(&Vector3::zero(), &vec3(2.0, 4.0, 8.0), Real::ratio(1, 2)), vec3(1.0, 2.0, 4.0));
    assert_eq!(vec3(-1.0, 0.5, 2.0).clamp_each(Real::zero(), Real::one()), vec3(0.0, 0.5, 1.0));
    assert_eq!(vec3(4.0, 0.25, 0.0).sqrt(), vec3(2.0, 0.5, 0.0));
    assert!(Vector3::zero().is_near_zero());
    assert!(!vec3(0.001, 0.0, 0.0).is_near_zero());
    assert_eq!(vec3(1.0, -1.0, 0.0).reflect(&vec3(0.0, 1.0, 0.0)), vec3(1.0, 1.0, 0.0));
    assert_eq!(a.to_array(), [fixed(1.0), fixed(2.0), fixed(3.0)]);
}

#[test]
fn refraction_with_unit_ratio_keeps_normal_incidence() {
    let v = vec3(0.0, 0.0, -1.0);
    let r = v.refract(&vec3(0.0, 0.0, 1.0), Real::one());
    assert_eq!(r, v);
}

#[test]
fn ray_at_parameter() {
    let ray = Ray::of(vec3(1.0, 0.0, 0.0), vec3(0.0, 2.0, 0.0));
    assert_eq!(ray.at(Real::ratio(3, 2)), vec3(1.0, 3.0, 0.0));
    assert_eq!(*ray.origin(), vec3(1.0, 0.0, 0.0));
    assert_eq!(*ray.direction(), vec3(0.0, 2.0, 0.0));
    assert_eq!(*Ray::new().direction(), Vector3::zero());
}

#[test]
fn between_is_half_open() {
    let (lo, hi) = (Real::zero(), Real::one());
    assert!(lo.between(&lo, &hi));
    assert!(!hi.between(&lo, &hi));
    assert!(Real::ratio(1, 2).between(&lo, &hi));
}

#[test]
fn scripted_draws_cycle() {
    let mut rng = Random::scripted(vec![0x8000_0000_0000_0000, 0]);
    assert_eq!(rng.fraction(), Real::ratio(1, 2));
    assert_eq!(rng.fraction(), Real::zero());
    assert_eq!(rng.fraction(), Real::ratio(1, 2));
    assert_eq!(unit_of(u64::MAX).raw(), 0xFFFF_FFFF);
    let x = inclusive_between_of(Real::from_int(-1), Real::one(), u64::MAX);
    assert!(x.raw() >= -(1i64 << 32) && x.raw() <= 1i64 << 32);
    assert_eq!(inclusive_between_of(Real::from_int(-1), Real::one(), 0), Real::from_int(-1));
}

#[test]
fn thread_source_stays_in_range() {
    let mut rng = Random::new();
    for _ in 0..100 {
        let f = rng.fraction();
        assert!(f.raw() >= 0 && f.raw() < 1i64 << 32);
        let v = Vector3::random_in_unit_sphere(&mut rng);
        assert!(v.magnitude_squared().raw() < 1i64 << 32);
        let d = Vector3::random_in_unit_disk(&mut rng);
        assert_eq!(d.z(), Real::zero());
        let u = Vector3::random_unit(&mut rng);
        assert!(close(u.magnitude(), 1.0, 1e-6));
        let h = Vector3::random_in_hemisphere(&mut rng, Vector3::up());
        assert!(h.y().raw() >= 0);
    }
}

#[test]
fn sphere_roots_symmetric_about_closest_approach() {
    let sphere = Sphere::new(vec3(0.0, 0.0, -5.0), Real::one(), gray());
    let ray = down_z();
    let near = sphere.hit(&ray, (fixed(0.001), Real::from_raw(i64::MAX))).unwrap();
    let far = sphere.hit(&ray, (fixed(4.5), Real::from_raw(i64::MAX))).unwrap();
    assert_eq!(near.t, Real::from_int(4));
    assert_eq!(far.t, Real::from_int(6));
    let closest = Real::from_int(5);
    assert_eq!(closest.sub(near.t), far.t.sub(closest));
    assert_eq!(near.normal, vec3(0.0, 0.0, 1.0));
    assert!(near.front_face);
    assert_eq!(far.normal, vec3(0.0, 0.0, 1.0));
    assert!(!far.front_face);
    assert!(sphere.hit(&ray, (fixed(6.5), Real::from_raw(i64::MAX))).is_none());
}

#[test]
fn hollow_sphere_normal_points_inward() {
    let sphere = Sphere::new(vec3(0.0, 0.0, -5.0), Real::from_int(-1), gray());
    let hit = sphere.hit(&down_z(), (fixed(0.001), Real::from_raw(i64::MAX))).unwrap();
    assert_eq!(hit.t, Real::from_int(4));
    assert!(!hit.front_face);
    assert_eq!(hit.normal, vec3(0.0, 0.0, 1.0));
}

#[test]
fn sphere_missed() {
    let sphere = Sphere::new(vec3(0.0, 3.0, -5.0), Real::one(), gray());
    assert!(sphere.hit(&down_z(), (fixed(0.001), Real::from_raw(i64::MAX))).is_none());
}

#[test]
fn face_normal_against_ray() {
    let ray = down_z();
    let mut hit = hit_at(Vector3::zero(), Vector3::zero(), true, gray());
    hit.set_face_normal(&ray, vec3(0.0, 0.0, -1.0));
    assert!(!hit.front_face);
    assert_eq!(hit.normal, vec3(0.0, 0.0, 1.0));
    hit.set_face_normal(&ray, vec3(0.0, 0.0, 1.0));
    assert!(hit.front_face);
    assert!(Vector3::dot(ray.direction(), &hit.normal).raw() <= 0);
}

#[test]
fn nearest_of_two_overlapping_spheres() {
    let a = Sphere::new(vec3(0.0, 0.0, -5.0), Real::one(), gray());
    let b = Sphere::new(vec3(0.0, 0.0, -5.5), Real::one(), gray());
    let range = (fixed(0.001), Real::from_raw(i64::MAX));
    for order in [[a, b], [b, a]] {
        let mut world = HitTarget::new();
        world.push(order[0]);
        world.push(order[1]);
        assert_eq!(world.len(), 2);
        let hit = world.hit(&down_z(), range).unwrap();
        assert_eq!(hit.t, Real::from_int(4));
    }
    assert!(HitTarget::new().hit(&down_z(), range).is_none());
}

#[test]
fn metal_without_fuzz_mirrors() {
    let metal = Metal::new(vec3(0.8, 0.6, 0.2), Real::zero());
    let incoming = Ray::of(vec3(-1.0, 1.0, 0.0), vec3(1.0, -1.0, 0.0));
    let normal = vec3(0.0, 1.0, 0.0);
    let hit = hit_at(Vector3::zero(), normal, true, Material::Metal(metal));
    let mut rng = Random::new();
    let s = metal.scatter(&incoming, &hit, &mut rng).unwrap();
    assert_eq!(s.attenuation, vec3(0.8, 0.6, 0.2));
    let out = Vector3::dot(&s.ray.direction.normalize(), &normal);
    let back = Vector3::dot(&incoming.direction.neg().normalize(), &normal);
    assert!((value(out) - value(back)).abs() < 1e-8);
    assert_eq!(s.ray.origin, Vector3::zero());
}

#[test]
fn metal_absorbs_grazing_fuzz() {
    let metal = Metal::new(vec3(1.0, 1.0, 1.0), Real::zero());
    let incoming = Ray::of(vec3(0.0, -1.0, 0.0), vec3(0.0, 1.0, 0.0));
    let hit = hit_at(Vector3::zero(), vec3(0.0, 1.0, 0.0), true, Material::Metal(metal));
    assert!(metal.scatter(&incoming, &hit, &mut Random::new()).is_none());
}

#[test]
fn dielectric_of_index_one_passes_straight() {
    let glass = Dielectric::new(Real::one());
    let normal = vec3(0.0, 0.0, 1.0);
    let hit = hit_at(vec3(0.0, 0.0, -1.0), normal, true, Material::Dielectric(glass));
    let mut rng = Random::scripted(vec![0]);
    let s = glass.scatter(&down_z(), &hit, &mut rng).unwrap();
    assert_eq!(s.ray.direction, vec3(0.0, 0.0, -1.0));
    assert_eq!(s.attenuation, Vector3::white());

    let oblique = Ray::of(Vector3::zero(), vec3(1.0, -1.0, 0.0));
    let flat = hit_at(Vector3::zero(), vec3(0.0, 1.0, 0.0), true, Material::Dielectric(glass));
    let mut rng = Random::scripted(vec![u64::MAX]);
    let s = glass.scatter(&oblique, &flat, &mut rng).unwrap();
    let expected = oblique.direction.normalize();
    assert!(close(s.ray.direction.x(), value(expected.x()), 1e-6));
    assert!(close(s.ray.direction.y(), value(expected.y()), 1e-6));
    assert!(close(s.ray.direction.z(), 0.0, 1e-9));
}

#[test]
fn dielectric_total_internal_reflection() {
    let glass = Dielectric::new(fixed(1.5));
    let inside = hit_at(Vector3::zero(), vec3(0.0, -1.0, 0.0), false, Material::Dielectric(glass));
    let grazing = Ray::of(Vector3::zero(), vec3(1.0, 0.2, 0.0));
    let s = glass.scatter(&grazing, &inside, &mut Random::new()).unwrap();
    let expected = grazing.direction.normalize().reflect(&vec3(0.0, -1.0, 0.0));
    assert_eq!(s.ray.direction, expected);
}

#[test]
fn schlick_limits() {
    let index = fixed(1.5);
    let at_normal = Dielectric::reflectance(Real::one(), index);
    assert!(close(at_normal, 0.04, 1e-8));
    assert_eq!(Dielectric::reflectance(Real::zero(), index), Real::one());
    assert!(value(Dielectric::reflectance(fixed(0.1), index)) > 0.5);
}

#[test]
fn attenuation_bounds() {
    let albedo = vec3(0.9, 0.5, 0.0);
    let lambertian = Lambertian::new(albedo);
    let hit = hit_at(Vector3::zero(), vec3(0.0, 1.0, 0.0), true, Material::Lambertian(lambertian));
    let ray = Ray::of(vec3(0.0, 1.0, 0.0), vec3(0.0, -1.0, 0.0));
    let mut rng = Random::new();
    let s = Material::Lambertian(lambertian).scatter(&ray, &hit, &mut rng).unwrap();
    assert_eq!(s.attenuation, albedo);
    let s = Material::Dielectric(Dielectric::new(fixed(1.5))).scatter(&ray, &hit, &mut rng).unwrap();
    assert_eq!(s.attenuation, Vector3::white());
}

#[test]
fn lambertian_falls_back_to_normal() {
    let lambertian = Lambertian::new(vec3(0.5, 0.5, 0.5));
    let normal = vec3(0.0, -1.0, 0.0);
    let hit = hit_at(Vector3::zero(), normal, true, Material::Lambertian(lambertian));
    let mut rng = Random::scripted(vec![0]);
    let s = lambertian.scatter(&down_z(), &hit, &mut rng).unwrap();
    assert_eq!(s.ray.direction, normal);
}

#[test]
fn trace_without_bounces_is_black() {
    let mut world = HitTarget::new();
    world.push(Sphere::new(vec3(0.0, 0.0, -1.0), fixed(0.5), gray()));
    let mut rng = Random::new();
    assert_eq!(ray_color_diffuse(&down_z(), &world, 0, &mut rng), Vector3::black());
}

#[test]
fn background_gradient() {
    let up = background(&Ray::of(Vector3::zero(), vec3(0.0, 1.0, 0.0)));
    assert!(close(up.x(), 0.5, 1e-6) && close(up.y(), 0.7, 1e-6) && close(up.z(), 1.0, 1e-6));
    let down = background(&Ray::of(Vector3::zero(), vec3(0.0, -2.0, 0.0)));
    assert_eq!(down, Vector3::white());
}

#[test]
fn normal_shading() {
    let mut world = HitTarget::new();
    world.push(Sphere::new(vec3(0.0, 0.0, -5.0), Real::one(), gray()));
    let c = ray_color(&down_z(), &world);
    assert_eq!(c, vec3(0.5, 0.5, 1.0));
}

fn ground_scene() -> HitTarget {
    let mut world = HitTarget::new();
    world.push(Sphere::new(vec3(0.0, -100.5, -1.0), Real::from_int(100), gray()));
    world
}

fn default_camera() -> Camera {
    Camera::new(
        Vector3::zero(),
        vec3(0.0, 0.0, -1.0),
        Vector3::up(),
        Real::one(),
        Real::ratio(16, 9),
        Real::zero(),
        Real::one(),
    )
}

#[test]
fn ground_scene_end_to_end() {
    let world = ground_scene();
    let camera = default_camera();
    let mut rng = Random::scripted(vec![0]);
    let ray = camera.get_ray(Real::ratio(1, 2), Real::ratio(1, 2), &mut rng);
    assert!(close(ray.direction.x(), 0.0, 1e-6));
    assert!(close(ray.direction.y(), 0.0, 1e-6));
    assert!(close(ray.direction.z(), -1.0, 1e-6));
    let c = ray_color_diffuse(&ray, &world, 5, &mut rng);
    assert!(close(c.x(), 0.75, 1e-6) && close(c.y(), 0.85, 1e-6) && close(c.z(), 1.0, 1e-6));

    let downward = Ray::of(Vector3::zero(), vec3(0.0, -1.0, -1.0));
    let c = ray_color_diffuse(&downward, &world, 5, &mut rng);
    for channel in c.to_array() {
        assert!(channel.raw() >= 0);
    }
}

#[test]
fn pixel_tone_mapping() {
    assert_eq!(finish_pixel(vec3(4.0, 1.0, 0.0), 4), [255, 128, 0]);
    assert_eq!(finish_pixel(vec3(-1.0, 0.0, 100.0), 1), [0, 0, 255]);
    assert_eq!(vec3(0.5, 2.0, -1.0).to_u8_range(), vec3(128.0, 256.0, 0.0));
}

#[test]
fn seeded_render_is_reproducible() {
    let mut world = ground_scene();
    world.push(Sphere::new(vec3(0.0, 0.0, -1.0), fixed(0.5), Material::Dielectric(Dielectric::new(fixed(1.5)))));
    world.push(Sphere::new(vec3(1.0, 0.0, -1.0), fixed(0.5), Material::Metal(Metal::new(vec3(0.8, 0.6, 0.2), fixed(0.3)))));
    let camera = default_camera();
    let frame = Frame { world: &world, camera: &camera, width: 8, height: 5, max_depth: 4 };
    let draws = vec![0x1234_5678_9abc_def0, 0x0fed_cba9_8765_4321, 0x5555_5555_5555_5555, 0xdead_beef_0000_1111];
    let first = frame.render(3, &mut Random::scripted(draws.clone()));
    let second = frame.render(3, &mut Random::scripted(draws));
    assert_eq!(first.len(), 40);
    assert_eq!(first, second);
    let pixel = frame.render_pixel(3, 2, 2, &mut Random::scripted(vec![7]));
    assert_eq!(pixel, frame.render_pixel(3, 2, 2, &mut Random::scripted(vec![7])));
}

#[test]
fn smaller_root_or_minus_one() {
    let center = vec3(0.0, 0.0, -5.0);
    assert_eq!(hit_sphere(center, Real::one(), &down_z()), Real::from_int(4));
    assert_eq!(hit_sphere(vec3(0.0, 3.0, -5.0), Real::one(), &down_z()), Real::from_int(-1));
}

#[test]
fn color_byte_conversions() {
    assert_eq!(color_bytes(vec3(1.0, 0.5, 0.0)), [255, 127, 0]);
    assert_eq!(color_bytes(vec3(-0.5, 2.0, 0.25)), [0, 255, 63]);
    assert_eq!(sampled_color_bytes(vec3(2.0, 1.0, 0.0), 2), [255, 128, 0]);
    assert_eq!(vec3(1.5, 0.99, 300.0).to_bytes(), [1, 0, 255]);
}

#[test]
fn showcase_scene_sizes() {
    let world = random_scene(&mut Random::scripted(vec![0]));
    assert_eq!(world.len(), 487);
    let world = random_scene(&mut Random::new());
    assert!(world.len() >= 4 && world.len() <= 488);
}

#[test]
fn hemisphere_variant() {
    let world = ground_scene();
    let mut rng = Random::new();
    assert_eq!(ray_color_diffuse_hemisphere(&down_z(), &world, 0, &mut rng), Vector3::black());
    let sky = ray_color_diffuse_hemisphere(&down_z(), &world, 3, &mut rng);
    assert_eq!(sky, background(&down_z()));
    let ground = ray_color_diffuse_hemisphere(&Ray::of(Vector3::zero(), vec3(0.0, -1.0, -1.0)), &world, 3, &mut rng);
    for channel in ground.to_array() {
        assert!(channel.raw() >= 0 && channel.raw() <= 1i64 << 31);
    }
}

#[test]
fn scripted_samplers_repeat() {
    let draws = vec![3, 0x7000_0000_0000_0000, 0x9000_0000_0000_0000, u64::MAX / 3];
    let a = Vector3::random_in_unit_sphere(&mut Random::scripted(draws.clone()));
    let b = Vector3::random_in_unit_sphere(&mut Random::scripted(draws.clone()));
    assert_eq!(a, b);
    assert!(a.magnitude_squared().raw() < 1i64 << 32);
    let mut zeros = Random::scripted(vec![0]);
    assert_eq!(Vector3::random_in_unit_sphere(&mut zeros), Vector3::zero());
    assert_eq!(Vector3::random_unit(&mut zeros), Vector3::up());
    assert_eq!(Vector3::random_in_unit_disk(&mut zeros), Vector3::zero());
}

#[test]
fn preview_pixels() {
    let world = ground_scene();
    let camera = default_camera();
    let frame = Frame { world: &world, camera: &camera, width: 9, height: 5, max_depth: 1 };
    let mut rng = Random::new();
    let top = frame.preview_pixel(4, 0, &mut rng);
    let sky = background(&camera.get_ray(Real::ratio(4, 9), Real::ratio(4, 5), &mut rng));
    assert_eq!(top, color_bytes(sky));
    let bottom = frame.preview_pixel(4, 4, &mut rng);
    assert_eq!(bottom[1], 255);
    assert!((126..=128).contains(&bottom[0]) && (126..=128).contains(&bottom[2]));
}

#[test]
fn thread_source_inclusive_draws_vary() {
    let mut rng = Random::new();
    let (lo, hi) = (Real::from_int(-1), Real::one());
    let draws: Vec<Real> = (0..64).map(|_| rng.fraction_inclusive_between(lo, hi)).collect();
    assert!(draws.iter().all(|d| lo.le(*d) && d.le(hi)));
    assert!(draws.iter().any(|d| *d != lo));
    assert!(draws.iter().any(|d| *d != draws[0]));
}

#[test]
fn hit_range_excludes_its_ends() {
    let sphere = Sphere::new(vec3(0.0, 0.0, -1.0), fixed(0.5), gray());
    let far = Real::from_raw(i64::MAX);
    let first = sphere.hit(&down_z(), (real_zero(), far)).unwrap();
    assert_eq!(first.t, fixed(0.5));
    let second = sphere.hit(&down_z(), (first.t, far)).unwrap();
    assert_eq!(second.t, fixed(1.5));
    let mean = Real::ratio(1, 2).mul(first.t.add(second.t));
    assert_eq!(mean, Real::one());
    assert!(sphere.hit(&down_z(), (second.t, far)).is_none());
    assert!(sphere.hit(&down_z(), (real_zero(), fixed(0.5))).is_none());
    let mut world = HitTarget::new();
    world.push(sphere);
    assert_eq!(world.hit(&down_z(), (fixed(0.5), far)).unwrap().t, fixed(1.5));
}

fn real_zero() -> Real {
    Real::zero()
}

#[test]
fn showcase_scene_layout() {
    let world = random_scene(&mut Random::new());
    let spheres: Vec<Sphere> = (0..world.len()).map(|i| world.sphere(i)).collect();
    let n = spheres.len();
    assert_eq!(spheres[0].center, vec3(0.0, -1000.0, 0.0));
    assert_eq!(spheres[0].radius, Real::from_int(1000));
    assert_eq!(spheres[n - 3].center, vec3(0.0, 1.0, 0.0));
    assert!(matches!(spheres[n - 3].material, Material::Dielectric(_)));
    assert_eq!(spheres[n - 2].center, vec3(-4.0, 1.0, 0.0));
    assert!(matches!(spheres[n - 1].material, Material::Metal(_)));
    let avoid = Vector3::new(Real::from_int(4), Real::ratio(1, 5), Real::zero());
    for s in &spheres[1..n - 3] {
        assert_eq!(s.radius, Real::ratio(1, 5));
        assert_eq!(s.center.y(), Real::ratio(1, 5));
        assert!(Real::ratio(9, 10).lt(s.center.sub(avoid).magnitude()));
    }
}

#[test]
fn reflectance_falls_with_cosine() {
    let index = fixed(1.5);
    let r0 = Dielectric::reflectance(Real::one(), index);
    let mut previous = Real::one();
    for k in 0..=10 {
        let r = Dielectric::reflectance(Real::ratio(k, 10), index);
        assert!(r.le(previous) && r0.le(r));
        previous = r;
    }
}

#[test]
fn radiance_stays_within_unit_range() {
    let mut world = ground_scene();
    world.push(Sphere::new(vec3(0.0, 0.0, -1.0), fixed(0.5), Material::Metal(Metal::new(vec3(1.0, 0.9, 0.8), fixed(0.1)))));
    let mut rng = Random::new();
    for k in 0..20 {
        let ray = Ray::of(Vector3::zero(), vec3(0.05 * k as f64 - 0.5, -0.3, -1.0));
        let c = ray_color_diffuse(&ray, &world, 8, &mut rng);
        for channel in c.to_array() {
            assert!(channel.raw() >= 0 && channel.raw() <= 1i64 << 32);
        }
    }
}

#[test]
fn least_raw_value_saturates() {
    assert_eq!(Real::from_raw(i64::MIN), Real::from_raw(-i64::MAX));
    assert_eq!(Real::from_int(i32::MIN).raw(), -i64::MAX);
    let v = Vector3::new(Real::from_raw(i64::MIN), Real::one(), Real::zero());
    assert_eq!(Vector3::lerp(&v, &Vector3::ones(), Real::zero()), v);
    assert_eq!(Vector3::lerp(&v, &Vector3::ones(), Real::one()), Vector3::ones());
}

#[test]
fn face_normal_with_extreme_outward_normal() {
    let ray = Ray::of(Vector3::zero(), Vector3::new(Real::from_raw(-1), Real::one(), Real::zero()));
    let mut hit = hit_at(Vector3::zero(), Vector3::zero(), true, gray());
    hit.set_face_normal(&ray, Vector3::new(Real::from_raw(i64::MIN), Real::from_raw(-(1 << 31)), Real::zero()));
    assert!(Vector3::dot(ray.direction(), &hit.normal).raw() <= 0);
}

#[test]
fn dielectric_passes_tiny_ray_unchanged() {
    let glass = Dielectric::new(fixed(1.5));
    let tiny = Ray::of(Vector3::zero(), Vector3::new(Real::from_raw(1), Real::zero(), Real::zero()));
    let hit = hit_at(vec3(1.0, 2.0, 3.0), vec3(-1.0, 0.0, 0.0), true, Material::Dielectric(glass));
    let s = glass.scatter(&tiny, &hit, &mut Random::new()).unwrap();
    assert_eq!(s.attenuation, Vector3::white());
    assert_eq!(s.ray.origin, vec3(1.0, 2.0, 3.0));
    assert_eq!(s.ray.direction, tiny.direction);
}

#[test]
fn single_pixel_frame() {
    let world = ground_scene();
    let camera = default_camera();
    let frame = Frame { world: &world, camera: &camera, width: 1, height: 1, max_depth: 2 };
    let image = frame.render(2, &mut Random::scripted(vec![3, 5, 7]));
    assert_eq!(image.len(), 1);
}
