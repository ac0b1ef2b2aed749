//! Spheres, intersected by the closed-form quadratic.

use vstd::prelude::*;
use crate::fixed::{add_fp, div_fp, fadd, fdiv, fmul, fneg, fsqrt, fsub, mul_fp, neg_fp, sub_fp};
use crate::hitable::{Hitable, HitRecord, HitV};
use crate::material::Material;
use crate::ray::{ray_at, Ray, RayV};
use crate::vec3::{v_div_s, v_dot, v_sub, Vec3};

verus! {

/// A sphere bound to a material.
#[derive(Clone, Copy, PartialEq, Eq, Structural, Debug)]
pub struct Sphere {
    pub center: Vec3,
    pub radius: i64,
    pub material: Material,
}

impl Sphere {
    pub fn new(cen: Vec3, r: i64, material: Material) -> (s: Sphere)
        ensures
            s.center == cen,
            s.radius == r,
            s.material == material,
    {
        Sphere { center: cen, radius: r, material }
    }

    /// The record reported for an accepted root `t`: the point along the
    /// ray, and the outward normal `(p - center) / radius`.
    pub open spec fn record_at(&self, r: RayV, t: int) -> HitV {
        let p = ray_at(r, t);
        HitV {
            t,
            p,
            normal: v_div_s(v_sub(p, self.center@), self.radius as int),
            material: self.material,
        }
    }

    /// Quadratic coefficient `a = d . d`.
    pub open spec fn coef_a(&self, r: RayV) -> int {
        v_dot(r.b, r.b)
    }

    /// Quadratic coefficient `b = oc . d`, with `oc = origin - center`.
    pub open spec fn coef_b(&self, r: RayV) -> int {
        v_dot(v_sub(r.a, self.center@), r.b)
    }

    /// Quadratic coefficient `c = oc . oc - R^2`.
    pub open spec fn coef_c(&self, r: RayV) -> int {
        fsub(
            v_dot(v_sub(r.a, self.center@), v_sub(r.a, self.center@)),
            fmul(self.radius as int, self.radius as int),
        )
    }

    /// The discriminant `b^2 - a c`.
    pub open spec fn disc(&self, r: RayV) -> int {
        fsub(fmul(self.coef_b(r), self.coef_b(r)), fmul(self.coef_a(r), self.coef_c(r)))
    }

    /// The nearer root `(-b - sqrt(disc)) / a`.
    pub open spec fn root_near(&self, r: RayV) -> int {
        fdiv(fsub(fneg(self.coef_b(r)), fsqrt(self.disc(r))), self.coef_a(r))
    }

    /// The farther root `(-b + sqrt(disc)) / a`.
    pub open spec fn root_far(&self, r: RayV) -> int {
        fdiv(fadd(fneg(self.coef_b(r)), fsqrt(self.disc(r))), self.coef_a(r))
    }
}

impl Hitable for Sphere {
    /// The quadratic intersection: with `oc = origin - center`,
    /// coefficients `a = d.d`, `b = oc.d`, `c = oc.oc - R^2` and
    /// discriminant `b^2 - a c`, the nearer root is tried first and the
    /// first root strictly inside `(t_min, t_max)` is reported.
    open spec fn hit_spec(&self, r: RayV, t_min: int, t_max: int) -> Option<HitV> {
        if self.disc(r) > 0 {
            let t1 = self.root_near(r);
            if t_min < t1 && t1 < t_max {
                Some(self.record_at(r, t1))
            } else {
                let t2 = self.root_far(r);
                if t_min < t2 && t2 < t_max {
                    Some(self.record_at(r, t2))
                } else {
                    None
                }
            }
        } else {
            None
        }
    }

    fn hit(&self, r: &Ray, t_min: i64, t_max: i64) -> (res: Option<HitRecord>) {
        let oc = r.origin().sub(&self.center);
        let a = Vec3::dot(r.direction(), r.direction());
        let b = Vec3::dot(&oc, r.direction());
        let c = sub_fp(Vec3::dot(&oc, &oc), mul_fp(self.radius, self.radius));
        let delta = sub_fp(mul_fp(b, b), mul_fp(a, c));
        if delta > 0 {
            let s = crate::fixed::sqrt_fp(delta);
            let t1 = div_fp(sub_fp(neg_fp(b), s), a);
            if t_min < t1 && t1 < t_max {
                return Some(self.record_exec(r, t1));
            }
            let t2 = div_fp(add_fp(neg_fp(b), s), a);
            if t_min < t2 && t2 < t_max {
                return Some(self.record_exec(r, t2));
            }
            None
        } else {
            None
        }
    }
}

impl Sphere {
    /// Builds the record that `record_at` describes.
    fn record_exec(&self, r: &Ray, t: i64) -> (rec: HitRecord)
        ensures
            rec@ == self.record_at(r@, t as int),
    {
        let p = r.point_at_parameter(t);
        HitRecord { t, p, normal: p.sub(&self.center).div_s(self.radius), material: self.material }
    }
}

/// The leading coefficient, a squared length, is never negative.
pub proof fn lemma_coef_a_nonneg(s: Sphere, r: RayV)
    ensures
        s.coef_a(r) >= 0,
{
    crate::fixed::lemma_fmul_square_nonneg(r.b.x);
    crate::fixed::lemma_fmul_square_nonneg(r.b.y);
    crate::fixed::lemma_fmul_square_nonneg(r.b.z);
}

/// The nearer root never exceeds the farther one.
pub proof fn lemma_sphere_roots_ordered(s: Sphere, r: RayV)
    ensures
        s.root_near(r) <= s.root_far(r),
{
    lemma_coef_a_nonneg(s, r);
    crate::fixed::lemma_fsqrt_nonneg(s.disc(r));
    crate::fixed::lemma_fdiv_monotone(
        fsub(fneg(s.coef_b(r)), fsqrt(s.disc(r))),
        fadd(fneg(s.coef_b(r)), fsqrt(s.disc(r))),
        s.coef_a(r),
    );
}

/// A sphere reports a hit only with its parameter strictly inside the
/// search window: a geometric intersection outside `(t_min, t_max)` is
/// rejected.
pub proof fn lemma_sphere_range_exclusion(s: Sphere, r: RayV, t_min: int, t_max: int)
    ensures
        s.hit_spec(r, t_min, t_max) is Some ==> t_min < s.hit_spec(r, t_min, t_max)->Some_0.t
            < t_max,
{
}

/// Narrowing the window's far end keeps exactly the hits that fall short
/// of the cut: the search window behaves as a clip.
pub proof fn lemma_sphere_hit_narrow(s: Sphere, r: RayV, t_min: int, tcut: int, t_max: int)
    requires
        tcut <= t_max,
    ensures
        s.hit_spec(r, t_min, tcut) == (match s.hit_spec(r, t_min, t_max) {
            Some(h) => if h.t < tcut {
                Some(h)
            } else {
                None
            },
            None => None,
        }),
{
    lemma_sphere_roots_ordered(s, r);
}

} // verus!
