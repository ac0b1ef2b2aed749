//! The thin-lens camera: an orthonormal basis and an image-plane
//! rectangle, with a lens-disk jitter for depth of field.

use vstd::prelude::*;
use crate::fixed::{div_fp, fdiv, fmul, mul_fp, SCALE, TWO_FP};
use crate::material::random_in_cube;
use crate::ray::{Ray, RayV};
use crate::rng::new_rng;
use crate::vec3::{v_add, v_cross, v_dot, v_scale, v_sub, v_unit, V3, Vec3};

verus! {

/// A point strictly inside the unit disk of the xy-plane.
pub open spec fn in_disk(p: V3) -> bool {
    v_dot(p, p) < SCALE && p.z == 0
}

/// Mathematical view of the camera's geometry; the random source is not
/// part of it.
pub ghost struct CameraV {
    pub origin: V3,
    pub lower_left_corner: V3,
    pub horizontal: V3,
    pub vertical: V3,
    pub lens_radius: int,
    pub u: V3,
    pub v: V3,
    pub w: V3,
}

/// The geometry built from the viewing parameters. `half_height` is the
/// tangent of half the vertical field of view, handed in directly as a
/// scalar since the trigonometric conversion from degrees is a caller
/// concern.
pub open spec fn camera_setup(
    lookfrom: V3,
    lookat: V3,
    vup: V3,
    half_height: int,
    aspect: int,
    aperture: int,
    focus_dist: int,
) -> CameraV {
    let half_width = fmul(aspect, half_height);
    let w = v_unit(v_sub(lookfrom, lookat));
    let u = v_unit(v_cross(vup, w));
    let v = v_cross(w, u);
    CameraV {
        lower_left_corner: v_sub(
            v_sub(
                v_sub(lookfrom, v_scale(v_scale(u, focus_dist), half_width)),
                v_scale(v_scale(v, focus_dist), half_height),
            ),
            v_scale(w, focus_dist),
        ),
        horizontal: v_scale(v_scale(v_scale(u, half_width), TWO_FP as int), focus_dist),
        vertical: v_scale(v_scale(v_scale(v, half_height), TWO_FP as int), focus_dist),
        origin: lookfrom,
        lens_radius: fdiv(aperture as int, TWO_FP as int),
        u,
        v,
        w,
    }
}

/// The ray aimed from the jittered lens point `rd` through the image
/// plane at normalized coordinates `(s, t)`.
pub open spec fn camera_ray(c: CameraV, rd: V3, s: int, t: int) -> RayV {
    let offset = v_add(
        v_scale(c.u, fmul(rd.x, c.lens_radius)),
        v_scale(c.v, fmul(rd.y, c.lens_radius)),
    );
    RayV {
        a: v_add(c.origin, offset),
        b: v_sub(
            v_sub(
                v_add(v_add(c.lower_left_corner, v_scale(c.horizontal, s)), v_scale(c.vertical, t)),
                c.origin,
            ),
            offset,
        ),
    }
}

/// Rejection-samples the open unit disk of the xy-plane; the retry budget
/// and its center-point fallback are as for the unit ball.
pub fn random_in_unit_disk(rng: &mut rand::rngs::ThreadRng) -> (p: Vec3)
    ensures
        in_disk(p@),
{
    let mut budget: u32 = 1_000_000_000;
    while budget > 0
        invariant
            true,
        decreases budget,
    {
        let c = random_in_cube(rng);
        let p = Vec3::new(c.x, c.y, 0);
        if Vec3::dot(&p, &p) < SCALE {
            return p;
        }
        budget = budget - 1;
    }
    Vec3::zero()
}

pub struct Camera {
    pub origin: Vec3,
    pub lower_left_corner: Vec3,
    pub horizontal: Vec3,
    pub vertical: Vec3,
    pub lens_radius: i64,
    pub rng: rand::rngs::ThreadRng,
    pub u: Vec3,
    pub v: Vec3,
    pub w: Vec3,
}

impl View for Camera {
    type V = CameraV;

    open spec fn view(&self) -> CameraV {
        CameraV {
            origin: self.origin@,
            lower_left_corner: self.lower_left_corner@,
            horizontal: self.horizontal@,
            vertical: self.vertical@,
            lens_radius: self.lens_radius as int,
            u: self.u@,
            v: self.v@,
            w: self.w@,
        }
    }
}

impl Camera {
    /// Builds the viewing geometry; `half_height` is the tangent of half
    /// the vertical field of view as a scalar.
    pub fn new(
        lookfrom: Vec3,
        lookat: Vec3,
        vup: Vec3,
        half_height: i64,
        aspect: i64,
        aperture: i64,
        focus_dist: i64,
    ) -> (c: Camera)
        ensures
            c@ == camera_setup(
                lookfrom@,
                lookat@,
                vup@,
                half_height as int,
                aspect as int,
                aperture as int,
                focus_dist as int,
            ),
    {
        let half_width = mul_fp(aspect, half_height);
        let w = Vec3::unit_vector(&lookfrom.sub(&lookat));
        let u = Vec3::unit_vector(&Vec3::cross(&vup, &w));
        let v = Vec3::cross(&w, &u);
        Camera {
            lower_left_corner: lookfrom
                .sub(&u.scale(focus_dist).scale(half_width))
                .sub(&v.scale(focus_dist).scale(half_height))
                .sub(&w.scale(focus_dist)),
            horizontal: u.scale(half_width).scale(TWO_FP).scale(focus_dist),
            vertical: v.scale(half_height).scale(TWO_FP).scale(focus_dist),
            origin: lookfrom,
            lens_radius: div_fp(aperture, TWO_FP),
            rng: new_rng(),
            u,
            v,
            w,
        }
    }

    /// The deterministic core of ray generation, for a given lens-disk
    /// point.
    pub fn ray_with(&self, rd: &Vec3, s: i64, t: i64) -> (r: Ray)
        ensures
            r@ == camera_ray(self@, rd@, s as int, t as int),
    {
        let offset = self.u.scale(mul_fp(rd.x, self.lens_radius)).add(
            &self.v.scale(mul_fp(rd.y, self.lens_radius)),
        );
        Ray::new(
            self.origin.add(&offset),
            self
                .lower_left_corner
                .add(&self.horizontal.scale(s))
                .add(&self.vertical.scale(t))
                .sub(&self.origin)
                .sub(&offset),
        )
    }

    /// A ray for normalized image coordinates `(s, t)`, its origin
    /// jittered across the lens disk; only the random source advances.
    pub fn get_ray(&mut self, s: i64, t: i64) -> (r: Ray)
        ensures
            exists|rd: V3| in_disk(rd) && r@ == camera_ray(old(self)@, rd, s as int, t as int),
            final(self)@ == old(self)@,
    {
        let rd = random_in_unit_disk(&mut self.rng);
        let r = self.ray_with(&rd, s, t);
        proof {
            assert(in_disk(rd@) && r@ == camera_ray(self@, rd@, s as int, t as int));
        }
        r
    }
}

} // verus!
