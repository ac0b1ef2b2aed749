//! The intersection record and the capability of being testable for
//! intersection.

use vstd::prelude::*;
use crate::material::Material;
use crate::ray::{Ray, RayV};
use crate::vec3::{V3, Vec3};

verus! {

/// Mathematical view of an intersection record.
pub ghost struct HitV {
    pub t: int,
    pub p: V3,
    pub normal: V3,
    pub material: Material,
}

/// Where a ray met a surface: the ray parameter, the point, the surface
/// normal there (pointing outward from the shape, not adjusted toward the
/// ray), and the surface's material.
#[derive(Clone, Copy, PartialEq, Eq, Structural, Debug)]
pub struct HitRecord {
    pub t: i64,
    pub p: Vec3,
    pub normal: Vec3,
    pub material: Material,
}

impl View for HitRecord {
    type V = HitV;

    open spec fn view(&self) -> HitV {
        HitV { t: self.t as int, p: self.p@, normal: self.normal@, material: self.material }
    }
}

/// The view of an optional record.
pub open spec fn opt_hit_view(o: Option<HitRecord>) -> Option<HitV> {
    match o {
        Some(h) => Some(h@),
        None => None,
    }
}

/// Testable for intersection. `hit_spec` says exactly which record a shape
/// reports for a ray within the open parameter interval `(t_min, t_max)`,
/// and `hit` computes it.
pub trait Hitable {
    spec fn hit_spec(&self, r: RayV, t_min: int, t_max: int) -> Option<HitV>;

    fn hit(&self, r: &Ray, t_min: i64, t_max: i64) -> (res: Option<HitRecord>)
        ensures
            opt_hit_view(res) == self.hit_spec(r@, t_min as int, t_max as int),
    ;
}

} // verus!
