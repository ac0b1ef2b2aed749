use raytrace_rs::tracer::{background, radiance, render, to_pixel, Pixel, MAX_DEPTH};
use raytrace_rs::{Camera, HitableList, Lambertian, Material, Ray, Sphere, Vec3, SCALE};

fn grey() -> Material {
    Material::Lambertian(Lambertian { albedo: Vec3::new(500_000, 500_000, 500_000) })
}

#[test]
fn background_boundaries() {
    // Straight up is pure sky blue, straight down pure white.
    let up = Ray::new(Vec3::zero(), Vec3::new(0, SCALE, 0));
    assert_eq!(background(&up), Vec3::new(500_000, 700_000, SCALE));
    let down = Ray::new(Vec3::zero(), Vec3::new(0, -SCALE, 0));
    assert_eq!(background(&down), Vec3::new(SCALE, SCALE, SCALE));
}

#[test]
fn radiance_background_when_nothing_is_hit() {
    let world = HitableList { list: vec![] };
    let mut rng = rand::thread_rng();
    let up = Ray::new(Vec3::zero(), Vec3::new(0, SCALE, 0));
    assert_eq!(
        radiance(&mut rng, &up, &world, 0),
        Vec3::new(500_000, 700_000, SCALE)
    );
}

#[test]
fn radiance_depth_cap() {
    // Two diffuse spheres forming an endless inter-reflection: the
    // recursion terminates, and at the cap a hit contributes no energy.
    let world = HitableList {
        list: vec![
            Sphere::new(Vec3::new(0, 0, 2 * SCALE), SCALE, grey()),
            Sphere::new(Vec3::new(0, 0, -2 * SCALE), SCALE, grey()),
        ],
    };
    let mut rng = rand::thread_rng();
    let r = Ray::new(Vec3::zero(), Vec3::new(0, 0, SCALE));
    assert_eq!(radiance(&mut rng, &r, &world, MAX_DEPTH), Vec3::zero());
    assert_eq!(radiance(&mut rng, &r, &world, MAX_DEPTH + 7), Vec3::zero());
    // From the top of the recursion the evaluation still terminates and
    // yields a bounded color.
    for _ in 0..20 {
        let c = radiance(&mut rng, &r, &world, 0);
        assert!(c.x() >= -SCALE && c.x() <= 2 * SCALE);
        assert!(c.y() >= -SCALE && c.y() <= 2 * SCALE);
        assert!(c.z() >= -SCALE && c.z() <= 2 * SCALE);
    }
}

#[test]
fn camera_axis_aligned_geometry() {
    // half_height = tan(45 degrees) = 1, aspect 2, no aperture, focus 1.
    let mut cam = Camera::new(
        Vec3::zero(),
        Vec3::new(0, 0, -SCALE),
        Vec3::new(0, SCALE, 0),
        SCALE,
        2 * SCALE,
        0,
        SCALE,
    );
    assert_eq!(cam.origin, Vec3::zero());
    assert_eq!(cam.u, Vec3::new(SCALE, 0, 0));
    assert_eq!(cam.v, Vec3::new(0, SCALE, 0));
    assert_eq!(cam.w, Vec3::new(0, 0, SCALE));
    assert_eq!(cam.lower_left_corner, Vec3::new(-2 * SCALE, -SCALE, -SCALE));
    assert_eq!(cam.horizontal, Vec3::new(4 * SCALE, 0, 0));
    assert_eq!(cam.vertical, Vec3::new(0, 2 * SCALE, 0));
    assert_eq!(cam.lens_radius, 0);
    // With a zero lens radius the jitter vanishes: the center ray looks
    // straight down the axis.
    let r = cam.get_ray(500_000, 500_000);
    assert_eq!(r.a, Vec3::zero());
    assert_eq!(r.b, Vec3::new(0, 0, -SCALE));
}

#[test]
fn pixel_conversion() {
    // Square-root gamma then 255.99 scaling, truncated.
    let p = to_pixel(&Vec3::new(SCALE, 250_000, 0));
    assert_eq!(p, Pixel { r: 255, g: 127, b: 0 });
    let black = to_pixel(&Vec3::zero());
    assert_eq!(black, Pixel { r: 0, g: 0, b: 0 });
}

#[test]
fn render_black_albedo_gives_black_pixels() {
    // Inside a huge sphere of albedo zero every sample is tinted to
    // nothing, so every pixel is exactly black.
    let world = HitableList {
        list: vec![Sphere::new(
            Vec3::zero(),
            100 * SCALE,
            Material::Lambertian(Lambertian { albedo: Vec3::zero() }),
        )],
    };
    let mut cam = Camera::new(
        Vec3::zero(),
        Vec3::new(0, 0, -SCALE),
        Vec3::new(0, SCALE, 0),
        SCALE,
        SCALE,
        0,
        SCALE,
    );
    let mut rng = rand::thread_rng();
    let pixels = render(&mut cam, &mut rng, &world, 2, 2, 3);
    assert_eq!(pixels.len(), 4);
    for p in pixels {
        assert_eq!(p, Pixel { r: 0, g: 0, b: 0 });
    }
}

#[test]
fn render_sky_saturates_blue_channel() {
    // An empty world: every sample is the background gradient, whose blue
    // channel is exactly one whatever the blend, so the averaged,
    // gamma-corrected blue channel is exactly 255.
    let world = HitableList { list: vec![] };
    let mut cam = Camera::new(
        Vec3::zero(),
        Vec3::new(0, SCALE, 0),
        Vec3::new(0, 0, SCALE),
        SCALE,
        SCALE,
        0,
        SCALE,
    );
    let mut rng = rand::thread_rng();
    let pixels = render(&mut cam, &mut rng, &world, 3, 2, 4);
    assert_eq!(pixels.len(), 6);
    for p in pixels {
        assert_eq!(p.b, 255);
        assert!(p.r >= 0 && p.g >= 0);
    }
}

#[test]
fn render_emits_one_entry_per_pixel() {
    let mut cam = Camera::new(
        Vec3::new(0, 0, 5 * SCALE),
        Vec3::zero(),
        Vec3::new(0, SCALE, 0),
        SCALE,
        SCALE,
        0,
        5 * SCALE,
    );
    let world = HitableList { list: vec![Sphere::new(Vec3::zero(), SCALE, grey())] };
    let mut rng = rand::thread_rng();
    let pixels = render(&mut cam, &mut rng, &world, 4, 3, 2);
    assert_eq!(pixels.len(), 12);
    for p in pixels {
        assert!(p.r >= 0 && p.g >= 0 && p.b >= 0);
    }
}
