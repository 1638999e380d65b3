use rand::SeedableRng;
use raytracer::camera::{Camera, CameraFrame, CameraParameters};
use raytracer::fixed::{fp_div, fp_mul, fp_sqrt, isqrt_u128, SCALE};
use raytracer::hit_record::{FacingDirection, HitRecord};
use raytracer::hittable::Hittable;
use raytracer::hittable_list::HittableList;
use raytracer::image::Image;
use raytracer::interval::Interval;
use raytracer::material::{Material, Scatter, ScatterResult};
use raytracer::pixel::Pixel;
use raytracer::ray::Ray;
use raytracer::renderer::Renderer;
use raytracer::sphere::Sphere;
use raytracer::vec3::Vec3;

fn rng_with(seed: u64) -> rand::rngs::StdRng {
    rand::rngs::StdRng::seed_from_u64(seed)
}

fn grey() -> Pixel {
    Pixel::from(&Vec3::new(32768, 32768, 32768))
}

#[test]
fn fixed_point_basics() {
    assert_eq!(fp_mul(SCALE, SCALE), SCALE);
    assert_eq!(fp_mul(32768, 32768), 16384);
    assert_eq!(fp_mul(-32768, 32768), -16384);
    assert_eq!(fp_mul(123, 0), 0);
    assert_eq!(fp_div(SCALE, 131072), 32768);
    assert_eq!(fp_div(-SCALE, 131072), -32768);
    assert_eq!(fp_sqrt(SCALE), SCALE);
    assert_eq!(fp_sqrt(16384), 32768);
    assert_eq!(fp_sqrt(0), 0);
    assert_eq!(isqrt_u128(10), 3);
    assert_eq!(isqrt_u128(4294967296), 65536);
}

#[test]
fn interval_predicates() {
    let iv = Interval::new(10, 20);
    assert!(iv.contains(10) && iv.contains(20) && iv.contains(15));
    assert!(!iv.contains(9) && !iv.contains(21));
    assert!(iv.surrounds(15) && !iv.surrounds(10) && !iv.surrounds(20));
    assert_eq!(iv.clamp(5), 10);
    assert_eq!(iv.clamp(25), 20);
    assert_eq!(iv.clamp(12), 12);
}

#[test]
fn vec3_algebra() {
    let a = Vec3::new(SCALE, 2 * SCALE, -SCALE);
    let b = Vec3::new(SCALE, SCALE, SCALE);
    let s = a.add(b);
    assert_eq!((s.x, s.y, s.z), (2 * SCALE, 3 * SCALE, 0));
    let d = a.sub(b);
    assert_eq!((d.x, d.y, d.z), (0, SCALE, -2 * SCALE));
    assert_eq!(a.dot(&b), 2 * SCALE);
    let c = Vec3::new(SCALE, 0, 0).cross(&Vec3::new(0, SCALE, 0));
    assert_eq!((c.x, c.y, c.z), (0, 0, SCALE));
    assert_eq!(Vec3::new(0, 3 * SCALE, 0).norm_squared(), 9 * SCALE);
    assert_eq!(Vec3::new(0, 3 * SCALE, 0).norm(), 3 * SCALE);
    let u = Vec3::new(3 * SCALE, 0, 0).unit_vector();
    assert_eq!((u.x, u.y, u.z), (SCALE, 0, 0));
    assert!(Vec3::new(0, 0, 0).near_zero());
    assert!(!Vec3::new(0, 1, 0).near_zero());
    let n = Vec3::new(5, -7, 9).neg();
    assert_eq!((n.x, n.y, n.z), (-5, 7, -9));
    let sc = Vec3::new(SCALE, -SCALE, 32768).scale(2 * SCALE);
    assert_eq!((sc.x, sc.y, sc.z), (2 * SCALE, -2 * SCALE, SCALE));
}

#[test]
fn random_generators_stay_in_range() {
    let mut rng = rng_with(11);
    for _ in 0..200 {
        let v = Vec3::random(-SCALE, SCALE, &mut rng);
        assert!(-SCALE <= v.x && v.x <= SCALE);
        assert!(-SCALE <= v.y && v.y <= SCALE);
        assert!(-SCALE <= v.z && v.z <= SCALE);
        let u = Vec3::random_unit_vector(&mut rng);
        assert!(u.x.abs() <= 131072 && u.y.abs() <= 131072 && u.z.abs() <= 131072);
        assert!(!(u.x == 0 && u.y == 0 && u.z == 0));
        let p = Vec3::random_in_unit_disk(&mut rng);
        assert_eq!(p.z, 0);
        assert!(fp_mul(p.x, p.x) + fp_mul(p.y, p.y) <= SCALE);
    }
}

// A ray aimed at a sphere's center from outside: hit at distance 2,
// front-facing, unit outward normal; the root lies strictly inside the
// window and the contact point sits on the sphere.
#[test]
fn sphere_hit_from_outside_is_front_facing() {
    let sphere = Sphere::new(Vec3::new(0, 0, -3 * SCALE), SCALE, Material::Lambertian(grey()));
    let ray = Ray::new(Vec3::new(0, 0, 0), Vec3::new(0, 0, -SCALE));
    let window = Interval::new(66, 67108864);
    let rec = sphere.hit(&ray, &window).expect("must hit");
    assert_eq!(rec.t, 2 * SCALE);
    assert!(matches!(rec.facing, FacingDirection::Front));
    assert_eq!((rec.point.x, rec.point.y, rec.point.z), (0, 0, -2 * SCALE));
    assert_eq!((rec.normal.x, rec.normal.y, rec.normal.z), (0, 0, SCALE));
    assert!(window.surrounds(rec.t));
    let offset = rec.point.sub(sphere.center);
    assert_eq!(offset.norm_squared(), fp_mul(sphere.radius, sphere.radius));
}

// The same sphere seen from its center: the near root is behind the
// ray, the far root is taken, and the hit is back-facing with the
// stored normal flipped against the ray.
#[test]
fn sphere_hit_from_inside_is_back_facing() {
    let sphere = Sphere::new(Vec3::new(0, 0, -3 * SCALE), SCALE, Material::Lambertian(grey()));
    let ray = Ray::new(Vec3::new(0, 0, -3 * SCALE), Vec3::new(0, 0, -SCALE));
    let window = Interval::new(66, 67108864);
    let rec = sphere.hit(&ray, &window).expect("must hit");
    assert_eq!(rec.t, SCALE);
    assert!(matches!(rec.facing, FacingDirection::Back));
    assert_eq!((rec.normal.x, rec.normal.y, rec.normal.z), (0, 0, SCALE));
}

#[test]
fn sphere_miss_returns_none() {
    let sphere = Sphere::new(Vec3::new(0, 0, -3 * SCALE), SCALE, Material::Lambertian(grey()));
    let ray = Ray::new(Vec3::new(0, 3 * SCALE, 0), Vec3::new(0, 0, -SCALE));
    let window = Interval::new(66, 67108864);
    assert!(sphere.hit(&ray, &window).is_none());
    let behind = Ray::new(Vec3::new(0, 0, 0), Vec3::new(0, 0, SCALE));
    assert!(sphere.hit(&behind, &window).is_none());
}

// A negative radius flips the normal inward: the hollow-glass
// convention.  A ray leaving the shared center hits the inner surface
// front-facing, with the normal pointing back toward the center.
#[test]
fn hollow_sphere_normal_points_inward() {
    let inner = Sphere::new(Vec3::new(0, 0, -3 * SCALE), -SCALE, Material::Dielectric(98304));
    let ray = Ray::new(Vec3::new(0, 0, -3 * SCALE), Vec3::new(0, 0, -SCALE));
    let window = Interval::new(66, 67108864);
    let rec = inner.hit(&ray, &window).expect("must hit");
    assert!(matches!(rec.facing, FacingDirection::Front));
    assert_eq!((rec.normal.x, rec.normal.y, rec.normal.z), (0, 0, SCALE));
    // The normal opposes the offset from the center: it points inward.
    let offset = rec.point.sub(inner.center);
    assert!(rec.normal.dot(&offset) < 0);
}

#[test]
fn scene_returns_closest_hit_and_scans_all() {
    let mut world = HittableList::new();
    world.push(Sphere::new(Vec3::new(0, 0, -6 * SCALE), SCALE, Material::Dielectric(98304)));
    world.push(Sphere::new(Vec3::new(0, 0, -3 * SCALE), SCALE, Material::Lambertian(grey())));
    let ray = Ray::new(Vec3::new(0, 0, 0), Vec3::new(0, 0, -SCALE));
    let window = Interval::new(66, 67108864);
    let rec = world.hit(&ray, &window).expect("must hit");
    // The nearer sphere wins although it was pushed second.
    assert_eq!(rec.t, 2 * SCALE);
    assert!(matches!(rec.material, Material::Lambertian(_)));
}

#[test]
fn scene_push_pop_clear() {
    let mut world = HittableList::new();
    let s = Sphere::new(Vec3::new(0, 0, -3 * SCALE), SCALE, Material::Lambertian(grey()));
    world.push(s);
    let back = world.pop().expect("one element");
    assert_eq!(back.radius, SCALE);
    assert!(world.pop().is_none());
    world.push(s);
    world.push(s);
    world.clear();
    assert!(world.pop().is_none());
}

fn front_record(material: Material) -> HitRecord {
    HitRecord::new(
        Vec3::new(0, 0, 0),
        Vec3::new(0, 0, SCALE),
        SCALE,
        FacingDirection::Front,
        material,
    )
}

// Lambertian scattering never absorbs the ray, whatever was drawn.
#[test]
fn lambertian_always_scatters() {
    let albedo = grey();
    let rec = front_record(Material::Lambertian(albedo));
    let ray = Ray::new(Vec3::new(0, 0, SCALE), Vec3::new(0, 0, -SCALE));
    let mut rng = rng_with(3);
    for _ in 0..100 {
        let res: ScatterResult =
            Material::scatter(&ray, &rec, &mut rng).expect("lambertian never absorbs");
        assert_eq!(res.attenuation, albedo);
        assert_eq!((res.ray.origin.x, res.ray.origin.y, res.ray.origin.z), (0, 0, 0));
        let d = res.ray.direction;
        assert!(!(d.x == 0 && d.y == 0 && d.z == 0));
    }
}

// A glancing ray reflects parallel to the surface: the reflected
// direction's dot with the normal is zero, so the metal absorbs it.
#[test]
fn metal_absorbs_glancing_reflection() {
    let albedo = grey();
    let rec = front_record(Material::Metal(albedo, 0));
    let ray = Ray::new(Vec3::new(-SCALE, 0, 0), Vec3::new(SCALE, 0, 0));
    let u = Vec3::new(0, 0, SCALE);
    assert!(Material::metal_with(&ray, &rec, albedo, 0, u).is_none());
}

// A head-on ray reflects straight back out: the metal scatters.
#[test]
fn metal_reflects_head_on() {
    let albedo = grey();
    let rec = front_record(Material::Metal(albedo, 0));
    let ray = Ray::new(Vec3::new(0, 0, SCALE), Vec3::new(0, 0, -SCALE));
    let u = Vec3::new(0, 0, SCALE);
    let res = Material::metal_with(&ray, &rec, albedo, 0, u).expect("head-on reflects");
    assert_eq!((res.ray.direction.x, res.ray.direction.y, res.ray.direction.z), (0, 0, SCALE));
    assert_eq!(res.attenuation, albedo);
}

// Beyond the critical angle the dielectric always reflects (total
// internal reflection), for every reflectance threshold.
#[test]
fn dielectric_total_internal_reflection_always_reflects() {
    let rec = HitRecord::new(
        Vec3::new(0, 0, 0),
        Vec3::new(0, 0, SCALE),
        SCALE,
        FacingDirection::Back,
        Material::Dielectric(98304),
    );
    // Stored normal is flipped to (0, 0, -1); the ray grazes at 45
    // degrees, and 1.5 * sin(45) > 1.
    let ray = Ray::new(Vec3::new(0, 0, 0), Vec3::new(SCALE, 0, SCALE));
    for draw in [0i64, 1, 32768, 65535] {
        let res = Material::dielectric_with(&ray, &rec, 98304, draw).expect("always scatters");
        assert_eq!(
            (res.ray.direction.x, res.ray.direction.y, res.ray.direction.z),
            (46341, 0, -46341)
        );
        assert_eq!(res.attenuation, Pixel { r: SCALE, g: SCALE, b: SCALE });
    }
}

// A refracting configuration: head-on through the front face, where
// reflectance is r0 and a draw above it refracts straight through.
#[test]
fn dielectric_refracts_head_on_with_high_draw() {
    let rec = front_record(Material::Dielectric(98304));
    let ray = Ray::new(Vec3::new(0, 0, SCALE), Vec3::new(0, 0, -SCALE));
    let r0 = fp_div(SCALE - 43690, SCALE + 43690);
    let reflectance = fp_mul(r0, r0);
    let res = Material::dielectric_with(&ray, &rec, 98304, reflectance + 1)
        .expect("always scatters");
    // Straight through: the refracted direction still points down -z.
    assert!(res.ray.direction.z < 0);
    assert_eq!(res.ray.direction.x, 0);
}

// Schlick reflectance at cosine = 1 equals r0 exactly.
#[test]
fn schlick_head_on_equals_r0() {
    for ratio in [43690i64, 98304, 131072, 16384] {
        let r0 = fp_div(SCALE - ratio, SCALE + ratio);
        assert_eq!(Material::schlick_reflectance(SCALE, ratio), fp_mul(r0, r0));
    }
}

// Averaging N identical samples returns exactly that sample.
#[test]
fn normalize_identical_samples_is_identity() {
    let sample = Pixel::from(&Vec3::new(30000, 40000, 50000));
    let mut acc = Pixel::default();
    for _ in 0..3 {
        acc = acc.add(sample);
    }
    assert_eq!(acc.normalize(3), sample);
    let mut acc7 = Pixel::default();
    for _ in 0..7 {
        acc7 = acc7.add(sample);
    }
    assert_eq!(acc7.normalize(7), sample);
}

#[test]
fn pixel_channel_arithmetic() {
    let a = Pixel::from(&Vec3::new(SCALE, 32768, 0));
    let b = Pixel::from(&Vec3::new(32768, 32768, SCALE));
    let m = a.mul(b);
    assert_eq!((m.r, m.g, m.b), (32768, 16384, 0));
    let s = a.scale(32768);
    assert_eq!((s.r, s.g, s.b), (32768, 16384, 0));
    let sum = a.add(b);
    assert_eq!((sum.r, sum.g, sum.b), (SCALE + 32768, SCALE, SCALE));
    let clamped = sum.normalize(1);
    assert_eq!((clamped.r, clamped.g, clamped.b), (SCALE, SCALE, SCALE));
}

#[test]
fn pixel_prints_gamma_corrected_quantized_channels() {
    let p = Pixel::from(&Vec3::new(SCALE, 0, 16384));
    assert_eq!(p.to_string(), "255 0 127");
    let black = Pixel::default();
    assert_eq!(black.to_string(), "0 0 0");
}

#[test]
fn image_header_is_exact() {
    let image = Image::new(32, 116508);
    assert_eq!(image.width, 32);
    assert_eq!(image.height, 18);
    assert_eq!(image.generate_header(), "P3\n32 18\n255\n");
    let wide = Image::new(480, 116508);
    assert_eq!(wide.height, 270);
    assert_eq!(wide.generate_header(), "P3\n480 270\n255\n");
}

#[test]
fn camera_default_matches_reference_framing() {
    let cam = Camera::default();
    assert_eq!(cam.samples_per_pixel, 100);
    assert_eq!(cam.max_ray_bounces, 10);
    assert_eq!(cam.image_width, 1280);
    assert_eq!(cam.image_height, 720);
}

// End to end: one small sphere before the camera, a huge ground
// sphere below, a 90-degree camera looking down -z.  The output has
// the exact header, one line per pixel, every channel displayable, and
// the top of the frame is bluer than the horizon.
#[test]
fn render_small_scene_produces_valid_ppm() {
    let params = CameraParameters::new(116508, 32, 5898240, 1, 1, 0, SCALE);
    let frame = CameraFrame::new(
        Vec3::new(0, 0, 0),
        Vec3::new(0, 0, -SCALE),
        Vec3::new(0, SCALE, 0),
    );
    let camera = Camera::new(params, frame);
    let image = Image::new(32, 116508);
    let renderer = Renderer::new(camera, image);
    let mut world = HittableList::new();
    world.push(Sphere::new(Vec3::new(0, 0, -SCALE), 32768, Material::Lambertian(grey())));
    world.push(Sphere::new(
        Vec3::new(0, -6586368, -SCALE),
        6553600,
        Material::Lambertian(grey()),
    ));
    let mut rng = rng_with(42);
    let lines = renderer.render(&world, &mut rng);
    assert_eq!(lines.len(), 32 * 18);
    assert_eq!(renderer.image.generate_header(), "P3\n32 18\n255\n");
    let mut parsed: Vec<[u32; 3]> = Vec::new();
    for line in &lines {
        let parts: Vec<u32> = line.split(' ').map(|t| t.parse().unwrap()).collect();
        assert_eq!(parts.len(), 3);
        assert!(parts.iter().all(|&v| v <= 255));
        parsed.push([parts[0], parts[1], parts[2]]);
    }
    // Top-center is sky; compare its red channel with the horizon
    // row's: more blue-dominant means less red at the top.
    let top = parsed[2];
    let horizon = parsed[8 * 32 + 2];
    assert!(top[0] < horizon[0], "top {:?} vs horizon {:?}", top, horizon);
    // Sky pixels keep full blue after gamma and quantization.
    assert_eq!(top[2], 255);
}

// The renderer goes through the dielectric and metal paths too.
#[test]
fn render_mixed_materials_terminates_with_valid_lines() {
    let params = CameraParameters::new(116508, 16, 5898240, 2, 4, 39322, SCALE);
    let frame = CameraFrame::new(
        Vec3::new(0, 0, 0),
        Vec3::new(0, 0, -SCALE),
        Vec3::new(0, SCALE, 0),
    );
    let camera = Camera::new(params, frame);
    let image = Image::new(16, 116508);
    let renderer = Renderer::new(camera, image);
    let mut world = HittableList::new();
    world.push(Sphere::new(Vec3::new(-65536, 0, -131072), 32768, Material::Dielectric(98304)));
    world.push(Sphere::new(Vec3::new(65536, 0, -131072), 32768, Material::Metal(grey(), 6554)));
    world.push(Sphere::new(Vec3::new(0, 0, -131072), -16384, Material::Dielectric(98304)));
    let mut rng = rng_with(5);
    let lines = renderer.render(&world, &mut rng);
    assert_eq!(lines.len(), 16 * 9);
    for line in &lines {
        let parts: Vec<u32> = line.split(' ').map(|t| t.parse().unwrap()).collect();
        assert_eq!(parts.len(), 3);
        assert!(parts.iter().all(|&v| v <= 255));
    }
}
