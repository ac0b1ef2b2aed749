use raytrace_rs::material::{reflect, refract, schlick};
use raytrace_rs::{Dielectric, HitRecord, Lambertian, Material, Metal, Ray, Vec3, SCALE};

fn record_at_origin_normal_z() -> HitRecord {
    HitRecord {
        t: 4 * SCALE,
        p: Vec3::new(0, 0, SCALE),
        normal: Vec3::new(0, 0, SCALE),
        material: Material::Lambertian(Lambertian { albedo: Vec3::zero() }),
    }
}

#[test]
fn lambertian_always_scatters() {
    // Attenuation is exactly the albedo and the outgoing ray starts at
    // the hit point; the bounce direction is normal plus a point of the
    // unit ball.
    let albedo = Vec3::new(700_000, 300_000, 100_000);
    let lam = Lambertian { albedo };
    let rec = record_at_origin_normal_z();
    let r_in = Ray::new(Vec3::new(0, 0, 5 * SCALE), Vec3::new(0, 0, -SCALE));
    let mut rng = rand::thread_rng();
    for _ in 0..100 {
        let (att, sc) = lam
            .scatter(&mut rng, &r_in, &rec)
            .expect("diffuse scatter always succeeds");
        assert_eq!(att, albedo);
        assert_eq!(sc.a, rec.p);
        let sample = sc.b.sub(&rec.normal);
        assert!(sample.squared_length() < SCALE);
    }
}

#[test]
fn metal_mirror_law_at_fuzz_zero() {
    // fuzz = 0: the outgoing direction is the exact specular reflection of
    // the unit incoming direction, whatever perturbation was drawn.
    let m = Metal::new(Vec3::new(900_000, 900_000, 900_000), 0);
    let rec = record_at_origin_normal_z();
    let r_in = Ray::new(Vec3::new(0, 0, 5 * SCALE), Vec3::new(0, 0, -SCALE));
    let sample = Vec3::new(500_000, 500_000, 0);
    let (att, sc) = m
        .scatter_with(&r_in, &rec, &sample)
        .expect("reflection leaves on the normal's side");
    assert_eq!(att, m.albedo);
    assert_eq!(sc.a, rec.p);
    assert_eq!(sc.b, Vec3::new(0, 0, SCALE));
    // The same through the random entry point.
    let mut rng = rand::thread_rng();
    let (_, sc2) = m.scatter(&mut rng, &r_in, &rec).expect("must scatter");
    assert_eq!(sc2.b, Vec3::new(0, 0, SCALE));
}

#[test]
fn metal_oblique_reflection() {
    // Incoming (1,0,-1)/sqrt(2) onto normal (0,0,1) reflects into the
    // upper half space with the horizontal component kept.
    let m = Metal::new(Vec3::new(SCALE, SCALE, SCALE), 0);
    let rec = record_at_origin_normal_z();
    let r_in = Ray::new(Vec3::new(-SCALE, 0, 2 * SCALE), Vec3::new(SCALE, 0, -SCALE));
    let (_, sc) = m.scatter_with(&r_in, &rec, &Vec3::zero()).expect("must scatter");
    // unit incoming is (0.707106, 0, -0.707106), reflection flips z
    assert_eq!(sc.b.x(), sc.b.z().abs());
    assert!(sc.b.z() > 0);
}

#[test]
fn metal_grazing_rejection() {
    // The reflection points into the surface, so however the fuzz
    // perturbs it the scatter is absorbed.
    let m = Metal::new(Vec3::new(900_000, 900_000, 900_000), 500_000);
    let rec = record_at_origin_normal_z();
    // Incoming along the normal itself: the reflection is the exact
    // opposite, and a half-unit fuzz cannot bring it back.
    let r_in = Ray::new(Vec3::new(0, 0, 0), Vec3::new(0, 0, SCALE));
    assert!(m.scatter_with(&r_in, &rec, &Vec3::zero()).is_none());
    let mut rng = rand::thread_rng();
    for _ in 0..100 {
        assert!(m.scatter(&mut rng, &r_in, &rec).is_none());
    }
}

#[test]
fn dielectric_total_internal_reflection() {
    // Inside a medium of index 1.5, a grazing ray exceeds the critical
    // angle: refraction is impossible and every coin reflects.
    let d = Dielectric::new(1_500_000);
    let rec = record_at_origin_normal_z();
    let r_in = Ray::new(Vec3::zero(), Vec3::new(SCALE, 0, 200_000));
    // The refraction attempt itself reports total internal reflection.
    let outward = rec.normal.neg();
    assert!(refract(&r_in.b, &outward, 1_500_000).is_none());
    let mirrored = reflect(&r_in.b, &rec.normal);
    for coin in [0, 1, 500_000, SCALE - 1] {
        let (att, sc) = d.scatter_with(&r_in, &rec, coin);
        assert_eq!(att, Vec3::new(SCALE, SCALE, SCALE));
        assert_eq!(sc.a, rec.p);
        assert_eq!(sc.b, mirrored);
    }
}

#[test]
fn dielectric_normal_incidence() {
    // Entering head-on: the Schlick reflectance is (0.5/2.5)^2 = 0.04, so
    // a coin below 0.04 reflects and any other refracts straight through.
    let d = Dielectric::new(1_500_000);
    let rec = record_at_origin_normal_z();
    let r_in = Ray::new(Vec3::new(0, 0, 5 * SCALE), Vec3::new(0, 0, -SCALE));
    assert_eq!(schlick(SCALE, 1_500_000), 40_000);
    let (_, through) = d.scatter_with(&r_in, &rec, 500_000);
    assert_eq!(through.b, Vec3::new(0, 0, -SCALE));
    let (_, bounced) = d.scatter_with(&r_in, &rec, 10_000);
    assert_eq!(bounced.b, Vec3::new(0, 0, SCALE));
    // The random entry point always scatters.
    let mut rng = rand::thread_rng();
    for _ in 0..100 {
        assert!(d.scatter(&mut rng, &r_in, &rec).is_some());
    }
}

#[test]
fn metal_fuzz_is_clamped() {
    let m = Metal::new(Vec3::zero(), 3 * SCALE);
    assert_eq!(m.fuzz, SCALE);
    let m2 = Metal::new(Vec3::zero(), 250_000);
    assert_eq!(m2.fuzz, 250_000);
}

#[test]
fn reflect_formula() {
    let v = Vec3::new(SCALE, 0, -SCALE);
    let n = Vec3::new(0, 0, SCALE);
    assert_eq!(reflect(&v, &n), Vec3::new(SCALE, 0, SCALE));
}

#[test]
fn material_enum_dispatch() {
    let rec = record_at_origin_normal_z();
    let r_in = Ray::new(Vec3::new(0, 0, 5 * SCALE), Vec3::new(0, 0, -SCALE));
    let mut rng = rand::thread_rng();
    let albedo = Vec3::new(100_000, 200_000, 300_000);
    let m = Material::Lambertian(Lambertian { albedo });
    let (att, _) = m.scatter(&mut rng, &r_in, &rec).expect("diffuse always scatters");
    assert_eq!(att, albedo);
}
