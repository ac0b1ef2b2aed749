//! Rays: an origin and a direction, with the point reached at a parameter.

use vstd::prelude::*;
use crate::vec3::{v_add, v_scale, V3, Vec3};

verus! {

/// Mathematical view of a ray.
pub ghost struct RayV {
    pub a: V3,
    pub b: V3,
}

/// The point reached at parameter `t`: `origin + t * direction`.
pub open spec fn ray_at(r: RayV, t: int) -> V3 {
    v_add(r.a, v_scale(r.b, t))
}

/// A ray with origin `a` and direction `b`; the direction need not be a
/// unit vector.
#[derive(Clone, Copy, PartialEq, Eq, Structural, Debug)]
pub struct Ray {
    pub a: Vec3,
    pub b: Vec3,
}

impl View for Ray {
    type V = RayV;

    open spec fn view(&self) -> RayV {
        RayV { a: self.a@, b: self.b@ }
    }
}

impl Ray {
    pub fn new(a: Vec3, b: Vec3) -> (r: Ray)
        ensures
            r@ == (RayV { a: a@, b: b@ }),
    {
        Ray { a, b }
    }

    pub fn origin(&self) -> (r: &Vec3)
        ensures
            r@ == self@.a,
    {
        &self.a
    }

    pub fn direction(&self) -> (r: &Vec3)
        ensures
            r@ == self@.b,
    {
        &self.b
    }

    pub fn point_at_parameter(&self, t: i64) -> (p: Vec3)
        ensures
            p@ == ray_at(self@, t as int),
    {
        self.a.add(&self.b.scale(t))
    }
}

} // verus!
