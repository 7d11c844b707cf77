//! The camera, the estimator, the pixel assembly and the byte image.

use ray_tracing::camera::{assemble_image, Camera};
use ray_tracing::image::image_rgb8;
use ray_tracing::object::hit::{BVHNode, Hittable, HittableVec};
use ray_tracing::object::material::{Empty, Lambertian, Light, Material};
use ray_tracing::object::medium::Medium;
use ray_tracing::object::sphere::Sphere;
use ray_tracing::ray::{Interval, Ray, FX_INF};
use ray_tracing::rng::Prng;
use ray_tracing::vec3d::{Color, Vec3d};

const S: i128 = 65536;

#[test]
fn test_prng_deterministic() {
    let mut a = Prng::from_seed(42);
    let mut b = Prng::from_seed(42);
    for _ in 0..8 {
        assert_eq!(a.next_u64(), b.next_u64());
    }
}

#[test]
fn test_prng_entropy_nonzero_state() {
    let rng = Prng::from_entropy();
    assert!(rng.state != 0);
}

#[test]
fn test_ray_color_depth_zero_is_black() {
    let world = Hittable::List(HittableVec::new());
    let ray = Ray::new(Vec3d::new(0, 0, 0), Vec3d::new(0, 0, -S), 0);
    let mut rng = Prng::from_seed(1);
    let c = Camera::ray_color(&ray, &world, 0, &Vec3d::new(S, S, S), &mut rng);
    assert_eq!(c, Vec3d::new(0, 0, 0));
}

#[test]
fn test_ray_color_miss_is_background() {
    let world = Hittable::List(HittableVec::new());
    let ray = Ray::new(Vec3d::new(0, 0, 0), Vec3d::new(0, 0, -S), 0);
    let mut rng = Prng::from_seed(1);
    let background = Vec3d::new(S / 4, S / 2, S);
    let c = Camera::ray_color(&ray, &world, 8, &background, &mut rng);
    assert_eq!(c, background);
}

#[test]
fn test_ray_color_sees_emission() {
    let mut world = HittableVec::new();
    world.add(Hittable::Sphere(Sphere::static_sphere(
        Vec3d::new(0, 0, -5 * S),
        S,
        Material::Light(Light::new(Vec3d::new(S, S / 2, S / 4))),
    )));
    let world = Hittable::List(world);
    let ray = Ray::new(Vec3d::new(0, 0, 0), Vec3d::new(0, 0, -S), 0);
    let mut rng = Prng::from_seed(1);
    let c = Camera::ray_color(&ray, &world, 8, &Vec3d::new(0, 0, 0), &mut rng);
    assert_eq!(c, Vec3d::new(S, S / 2, S / 4));
}

#[test]
fn test_ray_color_sees_bright_emission() {
    // Emitters may be brighter than one; the byte image clamps them.
    let mut world = HittableVec::new();
    world.add(Hittable::Sphere(Sphere::static_sphere(
        Vec3d::new(0, 0, -5 * S),
        S,
        Material::Light(Light::new(Vec3d::new(15 * S, 15 * S, 15 * S))),
    )));
    let world = Hittable::List(world);
    let ray = Ray::new(Vec3d::new(0, 0, 0), Vec3d::new(0, 0, -S), 0);
    let mut rng = Prng::from_seed(1);
    let c = Camera::ray_color(&ray, &world, 8, &Vec3d::new(0, 0, 0), &mut rng);
    assert_eq!(c, Vec3d::new(15 * S, 15 * S, 15 * S));
    let bytes = image_rgb8(&vec![c]);
    assert_eq!(bytes[0], 255);
}

#[test]
fn test_camera_defaults() {
    let cam = Camera::new();
    assert_eq!(cam.resolution_width(), 1080);
    assert_eq!(cam.resolution_height(), 607);
    assert_eq!(cam.samples_per_pixel, 1);
    assert_eq!(cam.max_depth, 10);
}

#[test]
fn test_camera_set_samples_scale() {
    let mut cam = Camera::new();
    cam.set_samples_per_pixel(4);
    assert_eq!(cam.samples_per_pixel, 4);
    assert_eq!(cam.samples_scale, S / 4);
}

#[test]
fn test_render_small_image_has_one_color_per_pixel() {
    let mut cam = Camera::new();
    cam.set_resolution_width(8);
    cam.set_aspect_ratio(2 * S);
    cam.set_samples_per_pixel(1);
    cam.set_depth(4);
    cam.set_background_color(Vec3d::new(S / 2, S / 2, S / 2));
    let mut world = HittableVec::new();
    world.add(Hittable::Sphere(Sphere::static_sphere(
        Vec3d::new(0, 0, -10 * S),
        2 * S,
        Material::Lambertian(Lambertian::new(Vec3d::new(S / 2, S / 4, S / 8))),
    )));
    let world = Hittable::List(world);
    let image = cam.render(&world);
    assert_eq!(
        image.len(),
        (cam.resolution_width() * cam.resolution_height()) as usize
    );
}

#[test]
fn test_assemble_image_order_independent() {
    let width = 3usize;
    let height = 2usize;
    let mut forward: Vec<(usize, usize, Color)> = Vec::new();
    let mut backward: Vec<(usize, usize, Color)> = Vec::new();
    let mut y = 0usize;
    while y < height {
        let mut x = 0usize;
        while x < width {
            let color = Color::new((x as i128) * S, (y as i128) * S, S);
            forward.push((x, y, color));
            x += 1;
        }
        y += 1;
    }
    let mut k = forward.len();
    while k > 0 {
        k -= 1;
        backward.push(forward[k]);
    }
    let a = assemble_image(width, height, &forward);
    let b = assemble_image(width, height, &backward);
    assert_eq!(a.len(), width * height);
    assert_eq!(a, b);
    let mut y = 0usize;
    while y < height {
        let mut x = 0usize;
        while x < width {
            assert_eq!(a[y * width + x], Color::new((x as i128) * S, (y as i128) * S, S));
            x += 1;
        }
        y += 1;
    }
}

#[test]
fn test_image_rgb8_values() {
    let pixels = vec![
        Color::new(0, S / 4, S),
        Color::new(-S, S, 2 * S),
    ];
    let bytes = image_rgb8(&pixels);
    assert_eq!(bytes.len(), 6);
    // Zero stays zero; a quarter gamma-corrects to one half, and one
    // half of the byte range is 128.
    assert_eq!(bytes[0], 0);
    assert_eq!(bytes[1], 128);
    // Full brightness clamps just under one: 255.
    assert_eq!(bytes[2], 255);
    // Negative light is clamped to black.
    assert_eq!(bytes[3], 0);
    assert_eq!(bytes[4], 255);
    assert_eq!(bytes[5], 255);
}

#[test]
fn test_medium_scatters_or_passes() {
    let boundary = Hittable::Sphere(Sphere::static_sphere(
        Vec3d::new(0, 0, -10 * S),
        4 * S,
        Material::Empty(Empty {}),
    ));
    let medium = Medium::from_color(boundary, S / 16, Vec3d::new(S / 2, S / 2, S / 2));
    let ray = Ray::new(Vec3d::new(0, 0, 0), Vec3d::new(0, 0, -S), 0);
    let mut rng = Prng::from_seed(77);
    let mut scattered = 0u32;
    let mut passed = 0u32;
    for _ in 0..64 {
        match medium.hit(&ray, &Interval { min: 1, max: FX_INF }, &mut rng) {
            Some(rec) => {
                assert!(rec.t >= 1);
                assert_eq!(rec.front_face, true);
                assert_eq!(rec.normal, Vec3d::new(S, 0, 0));
                scattered += 1;
            }
            None => {
                passed += 1;
            }
        }
    }
    // With density one half over an eight-unit passage, both outcomes
    // appear over 64 draws.
    assert!(scattered > 0);
    assert!(passed > 0);
}

#[test]
fn test_scatter_same_seed_same_outcome() {
    // Every scatter is a pure function of the hit and the generator
    // state: equal seeds give equal rays.
    let material = Material::Lambertian(Lambertian::new(Vec3d::new(S / 2, S / 4, S / 8)));
    let anchor = Material::Empty(Empty {});
    let mut rec = ray_tracing::object::hit::HitRecord::new(&anchor, S, 0, 0, Vec3d::new(0, 0, 0));
    let ray_in = Ray::new(Vec3d::new(0, 0, 5 * S), Vec3d::new(0, 0, -S), 0);
    rec.set_face_normal(&ray_in, Vec3d::new(0, 0, S));
    let mut rng_a = Prng::from_seed(123);
    let mut rng_b = Prng::from_seed(123);
    let out_a = material.scatter(&ray_in, &rec, &mut rng_a);
    let out_b = material.scatter(&ray_in, &rec, &mut rng_b);
    match (out_a, out_b) {
        (Some((Some(ra), ca)), Some((Some(rb), cb))) => {
            assert_eq!(ra.origin, rb.origin);
            assert_eq!(ra.direction, rb.direction);
            assert_eq!(ca, cb);
        }
        _ => panic!("a diffuse surface always scatters"),
    }
    assert_eq!(rng_a.state, rng_b.state);
}

#[test]
fn test_sample_ray_same_seed_same_ray() {
    let cam = Camera::new();
    let mut rng_a = Prng::from_seed(7);
    let mut rng_b = Prng::from_seed(7);
    let ra = cam.sample_ray(3, 5, &mut rng_a);
    let rb = cam.sample_ray(3, 5, &mut rng_b);
    assert_eq!(ra.origin, rb.origin);
    assert_eq!(ra.direction, rb.direction);
    assert_eq!(ra.time, rb.time);
}

#[test]
fn test_render_with_seed_deterministic() {
    // Two renders with the same base seed are bit-identical, and a
    // deterministic scene the rays all miss yields the background at
    // every pixel with one sample per pixel.
    let world = Hittable::List(HittableVec::new());
    let background = Vec3d::new(S / 4, S / 2, S);
    let mut cam_a = Camera::new();
    cam_a.set_resolution_width(6);
    cam_a.set_aspect_ratio(2 * S);
    cam_a.set_samples_per_pixel(1);
    cam_a.set_depth(4);
    cam_a.set_background_color(background);
    let mut cam_b = Camera::new();
    cam_b.set_resolution_width(6);
    cam_b.set_aspect_ratio(2 * S);
    cam_b.set_samples_per_pixel(1);
    cam_b.set_depth(4);
    cam_b.set_background_color(background);
    let image_a = cam_a.render_with_seed(&world, 99);
    let image_b = cam_b.render_with_seed(&world, 99);
    assert_eq!(image_a, image_b);
    for pixel in image_a.iter() {
        assert_eq!(*pixel, background);
    }
}

#[test]
fn test_bvh_render_world() {
    // A small end-to-end render against an indexed scene.
    let mut world = HittableVec::new();
    let mut k: i128 = 0;
    while k < 4 {
        world.add(Hittable::Sphere(Sphere::static_sphere(
            Vec3d::new((2 * k - 3) * S, 0, -(8 + k) * S),
            S,
            Material::Lambertian(Lambertian::new(Vec3d::new(S / 2, S / 2, S / 2))),
        )));
        k += 1;
    }
    let node = BVHNode::from_hittable_vec(world);
    let world = Hittable::Node(node);
    let mut cam = Camera::new();
    cam.set_resolution_width(4);
    cam.set_aspect_ratio(S);
    cam.set_samples_per_pixel(2);
    cam.set_depth(3);
    cam.set_background_color(Vec3d::new(S / 2, S / 2, S));
    let image = cam.render(&world);
    assert_eq!(image.len(), 16);
}
