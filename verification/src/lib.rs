//! A small path-tracing core over saturating fixed-point arithmetic:
//! vector math, sphere intersection, material scattering, camera rays,
//! and recursive radiance evaluation with a fixed depth bound.

pub mod fixed;
pub mod vec3;
pub mod ray;
pub mod hitable;
pub mod material;
pub mod sphere;
pub mod hitable_list;
pub mod rng;
pub mod camera;
pub mod tracer;

pub use camera::Camera;
pub use fixed::SCALE;
pub use hitable::{HitRecord, Hitable};
pub use material::{Dielectric, Lambertian, Material, Metal};
pub use ray::Ray;
pub use sphere::Sphere;
pub use hitable_list::HitableList;
pub use vec3::Vec3;
