use raytrace_rs::{Ray, Vec3, SCALE};

#[test]
fn vector_arithmetic() {
    let a = Vec3::new(1_000_000, 2_000_000, -500_000);
    let b = Vec3::new(500_000, -1_000_000, 250_000);
    assert_eq!(a.add(&b), Vec3::new(1_500_000, 1_000_000, -250_000));
    assert_eq!(a.sub(&b), Vec3::new(500_000, 3_000_000, -750_000));
    assert_eq!(a.neg(), Vec3::new(-1_000_000, -2_000_000, 500_000));
    assert_eq!(a.mul(&b), Vec3::new(500_000, -2_000_000, -125_000));
    assert_eq!(a.scale(2 * SCALE), Vec3::new(2_000_000, 4_000_000, -1_000_000));
    assert_eq!(a.div_s(2 * SCALE), Vec3::new(500_000, 1_000_000, -250_000));
}

#[test]
fn dot_and_cross() {
    let a = Vec3::new(1_000_000, 0, 0);
    let b = Vec3::new(0, 1_000_000, 0);
    assert_eq!(Vec3::dot(&a, &b), 0);
    assert_eq!(Vec3::dot(&a, &a), SCALE);
    assert_eq!(Vec3::cross(&a, &b), Vec3::new(0, 0, SCALE));
    assert_eq!(Vec3::cross(&b, &a), Vec3::new(0, 0, -SCALE));
}

#[test]
fn lengths_and_units() {
    let v = Vec3::new(3_000_000, 4_000_000, 0);
    assert_eq!(v.squared_length(), 25 * SCALE);
    assert_eq!(v.length(), 5 * SCALE);
    assert_eq!(Vec3::unit_vector(&v), Vec3::new(600_000, 800_000, 0));
    let mut w = Vec3::new(0, 0, 2_000_000);
    w.make_unit_vector();
    assert_eq!(w, Vec3::new(0, 0, SCALE));
}

#[test]
fn accessors() {
    let v = Vec3::new(1, 2, 3);
    assert_eq!(v.x(), 1);
    assert_eq!(v.y(), 2);
    assert_eq!(v.z(), 3);
    assert_eq!(v.r(), 1);
    assert_eq!(v.g(), 2);
    assert_eq!(v.b(), 3);
    assert_eq!(Vec3::zero(), Vec3::new(0, 0, 0));
}

#[test]
fn ray_point_at_parameter() {
    let r = Ray::new(Vec3::new(0, 0, 5 * SCALE), Vec3::new(0, 0, -SCALE));
    assert_eq!(r.point_at_parameter(4 * SCALE), Vec3::new(0, 0, SCALE));
    assert_eq!(*r.origin(), Vec3::new(0, 0, 5 * SCALE));
    assert_eq!(*r.direction(), Vec3::new(0, 0, -SCALE));
}
