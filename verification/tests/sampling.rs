use raytrace_rs::camera::random_in_unit_disk;
use raytrace_rs::material::{random_in_cube, random_in_unit_sphere};
use raytrace_rs::{Vec3, SCALE};

#[test]
fn unit_sphere_samples_lie_inside() {
    let mut rng = rand::thread_rng();
    for _ in 0..1000 {
        let p = random_in_unit_sphere(&mut rng);
        assert!(p.squared_length() < SCALE);
    }
}

#[test]
fn unit_disk_samples_lie_inside() {
    let mut rng = rand::thread_rng();
    for _ in 0..1000 {
        let p = random_in_unit_disk(&mut rng);
        assert_eq!(p.z(), 0);
        assert!(Vec3::dot(&p, &p) < SCALE);
    }
}

#[test]
fn cube_samples_span_the_cube() {
    let mut rng = rand::thread_rng();
    for _ in 0..1000 {
        let p = random_in_cube(&mut rng);
        assert!(-SCALE <= p.x() && p.x() < SCALE);
        assert!(-SCALE <= p.y() && p.y() < SCALE);
        assert!(-SCALE <= p.z() && p.z() < SCALE);
    }
}

#[test]
fn rejection_acceptance_rates_match_theory() {
    // A single-shot candidate lands in the unit ball with probability
    // (4 pi / 3) / 8, and its xy-projection in the unit disk with
    // probability pi / 4.
    let mut rng = rand::thread_rng();
    let n = 200_000;
    let mut in_ball = 0u32;
    let mut in_disk = 0u32;
    for _ in 0..n {
        let p = random_in_cube(&mut rng);
        if p.squared_length() < SCALE {
            in_ball += 1;
        }
        let q = Vec3::new(p.x(), p.y(), 0);
        if Vec3::dot(&q, &q) < SCALE {
            in_disk += 1;
        }
    }
    let ball_rate = in_ball as f64 / n as f64;
    let disk_rate = in_disk as f64 / n as f64;
    let ball_expected = std::f64::consts::PI / 6.0;
    let disk_expected = std::f64::consts::PI / 4.0;
    assert!((ball_rate - ball_expected).abs() < 0.01, "ball rate {}", ball_rate);
    assert!((disk_rate - disk_expected).abs() < 0.01, "disk rate {}", disk_rate);
}
