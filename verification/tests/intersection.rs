use raytrace_rs::{
    HitableList, Hitable, Lambertian, Material, Ray, Sphere, Vec3, SCALE,
};

fn grey() -> Material {
    Material::Lambertian(Lambertian { albedo: Vec3::new(500_000, 500_000, 500_000) })
}

fn unit_sphere_at_origin() -> Sphere {
    Sphere::new(Vec3::zero(), SCALE, grey())
}

#[test]
fn sphere_hit_head_on() {
    // Unit sphere at the origin, ray from (0,0,5) toward (0,0,-1):
    // hit at t = 4, point (0,0,1), normal (0,0,1).
    let s = unit_sphere_at_origin();
    let r = Ray::new(Vec3::new(0, 0, 5 * SCALE), Vec3::new(0, 0, -SCALE));
    let h = s.hit(&r, 0, i64::MAX).expect("must hit");
    assert_eq!(h.t, 4 * SCALE);
    assert_eq!(h.p, Vec3::new(0, 0, SCALE));
    assert_eq!(h.normal, Vec3::new(0, 0, SCALE));
}

#[test]
fn sphere_miss() {
    // Same sphere, ray from (0,0,5) along (1,0,0): no hit.
    let s = unit_sphere_at_origin();
    let r = Ray::new(Vec3::new(0, 0, 5 * SCALE), Vec3::new(SCALE, 0, 0));
    assert!(s.hit(&r, 0, i64::MAX).is_none());
}

#[test]
fn sphere_range_exclusion() {
    // The geometric intersections at t = 4 and t = 6 are rejected when the
    // window excludes them.
    let s = unit_sphere_at_origin();
    let r = Ray::new(Vec3::new(0, 0, 5 * SCALE), Vec3::new(0, 0, -SCALE));
    assert!(s.hit(&r, 0, 3 * SCALE).is_none());
    assert!(s.hit(&r, 7 * SCALE, i64::MAX).is_none());
    // With the nearer root excluded by t_min, the farther root at t = 6
    // is reported.
    let far = s.hit(&r, 4 * SCALE + 1, i64::MAX).expect("second root");
    assert_eq!(far.t, 6 * SCALE);
    assert_eq!(far.normal, Vec3::new(0, 0, -SCALE));
}

#[test]
fn collection_nearest_hit() {
    // Two overlapping spheres along one ray: the hit with the smaller t
    // wins, in either list order.
    let near = Sphere::new(Vec3::new(0, 0, 2 * SCALE), SCALE, grey());
    let far = unit_sphere_at_origin();
    let r = Ray::new(Vec3::new(0, 0, 5 * SCALE), Vec3::new(0, 0, -SCALE));
    let ab = HitableList { list: vec![far, near] };
    let ba = HitableList { list: vec![near, far] };
    let h1 = ab.hit(&r, 0, i64::MAX).expect("must hit");
    let h2 = ba.hit(&r, 0, i64::MAX).expect("must hit");
    assert_eq!(h1.t, 2 * SCALE);
    assert_eq!(h2.t, 2 * SCALE);
    assert_eq!(h1.p, Vec3::new(0, 0, 3 * SCALE));
}

#[test]
fn empty_collection_misses() {
    let world = HitableList { list: vec![] };
    let r = Ray::new(Vec3::zero(), Vec3::new(0, 0, -SCALE));
    assert!(world.hit(&r, 0, i64::MAX).is_none());
}
