//! The scattering model: diffuse, reflective and refractive materials,
//! each producing an attenuation color and an outgoing ray, or signalling
//! absorption.

use vstd::prelude::*;
use vstd::arithmetic::div_mod::lemma_div_multiples_vanish;
use crate::fixed::{
    div_fp, fadd, fdiv, fmul, fneg, fsqrt, fsub, mul_fp, neg_fp, SCALE, TWO_FP,
};
use crate::hitable::{HitRecord, HitV};
use crate::ray::{Ray, RayV};
use crate::rng::rand_unit;
use crate::vec3::{
    v3, v_add, v_dot, v_neg, v_scale, v_sqlen, v_sub, v_unit, V3, Vec3,
};

verus! {

/// A point strictly inside the unit ball.
pub open spec fn in_ball(s: V3) -> bool {
    v_sqlen(s) < SCALE
}

/// The incoming direction mirrored about the normal:
/// `v - (n * dot(v, n)) * 2`.
pub open spec fn spec_reflect(v: V3, n: V3) -> V3 {
    v_sub(v, v_scale(v_scale(n, v_dot(v, n)), TWO_FP as int))
}

/// Snell refraction in vector form; `None` when the discriminant is not
/// positive (total internal reflection).
pub open spec fn spec_refract(v: V3, n: V3, ni_over_nt: int) -> Option<V3> {
    let uv = v_unit(v);
    let dt = v_dot(uv, n);
    let disc = fsub(
        SCALE as int,
        fmul(fmul(ni_over_nt, ni_over_nt), fsub(SCALE as int, fmul(dt, dt))),
    );
    if disc > 0 {
        Some(v_sub(v_scale(v_sub(uv, v_scale(n, dt)), ni_over_nt), v_scale(n, fsqrt(disc))))
    } else {
        None
    }
}

/// Fifth power, multiplied out left to right.
pub open spec fn spec_pow5(x: int) -> int {
    fmul(fmul(fmul(fmul(x, x), x), x), x)
}

/// The Schlick reflectance approximation
/// `r0 + (1 - r0) * (1 - cosine)^5` with `r0 = ((1 - n) / (1 + n))^2`.
pub open spec fn spec_schlick(cosine: int, ref_idx: int) -> int {
    let r0 = fdiv(fsub(SCALE as int, ref_idx), fadd(SCALE as int, ref_idx));
    let r0s = fmul(r0, r0);
    fadd(r0s, fmul(fsub(SCALE as int, r0s), spec_pow5(fsub(SCALE as int, cosine))))
}

pub fn reflect(v: &Vec3, n: &Vec3) -> (r: Vec3)
    ensures
        r@ == spec_reflect(v@, n@),
{
    v.sub(&n.scale(Vec3::dot(v, n)).scale(TWO_FP))
}

/// The view of an optional refracted direction.
pub open spec fn opt_vec_view(o: Option<Vec3>) -> Option<V3> {
    match o {
        Some(v) => Some(v@),
        None => None,
    }
}

pub fn refract(v: &Vec3, n: &Vec3, ni_over_nt: i64) -> (r: Option<Vec3>)
    ensures
        opt_vec_view(r) == spec_refract(v@, n@, ni_over_nt as int),
{
    let uv = Vec3::unit_vector(v);
    let dt = Vec3::dot(&uv, n);
    let disc = sub_scalar_one(mul_fp(mul_fp(ni_over_nt, ni_over_nt), sub_scalar_one(mul_fp(dt, dt))));
    if disc > 0 {
        Some(uv.sub(&n.scale(dt)).scale(ni_over_nt).sub(&n.scale(sqrt_exec(disc))))
    } else {
        None
    }
}

/// `1 - x` in fixed point.
fn sub_scalar_one(x: i64) -> (r: i64)
    ensures
        r as int == fsub(SCALE as int, x as int),
{
    crate::fixed::sub_fp(SCALE, x)
}

fn sqrt_exec(x: i64) -> (r: i64)
    ensures
        r as int == fsqrt(x as int),
{
    crate::fixed::sqrt_fp(x)
}

pub fn schlick(cosine: i64, ref_idx: i64) -> (r: i64)
    ensures
        r as int == spec_schlick(cosine as int, ref_idx as int),
{
    let r0 = div_fp(sub_scalar_one(ref_idx), crate::fixed::add_fp(SCALE, ref_idx));
    let r0s = mul_fp(r0, r0);
    let om = sub_scalar_one(cosine);
    let p5 = mul_fp(mul_fp(mul_fp(mul_fp(om, om), om), om), om);
    crate::fixed::add_fp(r0s, mul_fp(sub_scalar_one(r0s), p5))
}

/// `2 g - 1`: one uniform draw carried from `[0, 1)` onto `[-1, 1)`.
fn unit_span(g: i64) -> (r: i64)
    requires
        0 <= g < SCALE,
    ensures
        r as int == 2 * g - SCALE,
{
    proof {
        lemma_div_multiples_vanish(2 * (g as int), SCALE as int);
        assert((g as int) * (TWO_FP as int) == (SCALE as int) * (2 * (g as int)));
    }
    crate::fixed::sub_fp(mul_fp(g, TWO_FP), SCALE)
}

/// One uniform draw in the half-open cube `[-1, 1)^3`.
pub fn random_in_cube(rng: &mut rand::rngs::ThreadRng) -> (p: Vec3)
    ensures
        -SCALE <= p@.x < SCALE,
        -SCALE <= p@.y < SCALE,
        -SCALE <= p@.z < SCALE,
{
    let x = unit_span(rand_unit(rng));
    let y = unit_span(rand_unit(rng));
    let z = unit_span(rand_unit(rng));
    Vec3::new(x, y, z)
}

/// Rejection-samples the open unit ball: candidates are drawn from the
/// cube until one falls inside. The retry budget is astronomically beyond
/// what rejection sampling can consume, and on its exhaustion the center
/// point is reported, which also lies in the ball.
pub fn random_in_unit_sphere(rng: &mut rand::rngs::ThreadRng) -> (p: Vec3)
    ensures
        in_ball(p@),
{
    let mut budget: u32 = 1_000_000_000;
    while budget > 0
        invariant
            true,
        decreases budget,
    {
        let p = random_in_cube(rng);
        if p.squared_length() < SCALE {
            return p;
        }
        budget = budget - 1;
    }
    Vec3::zero()
}

/// A diffusely scattering surface tinted by its albedo.
#[derive(Clone, Copy, PartialEq, Eq, Structural, Debug)]
pub struct Lambertian {
    pub albedo: Vec3,
}

/// A reflecting surface: albedo tint and a fuzz radius in `[0, 1]`.
#[derive(Clone, Copy, PartialEq, Eq, Structural, Debug)]
pub struct Metal {
    pub albedo: Vec3,
    pub fuzz: i64,
}

/// A refracting surface with the given refractive index.
#[derive(Clone, Copy, PartialEq, Eq, Structural, Debug)]
pub struct Dielectric {
    pub ref_idx: i64,
}

/// The closed set of material kinds.
#[derive(Clone, Copy, PartialEq, Eq, Structural, Debug)]
pub enum Material {
    Lambertian(Lambertian),
    Metal(Metal),
    Dielectric(Dielectric),
}

/// The view of a scatter outcome.
pub open spec fn opt_scatter_view(o: Option<(Vec3, Ray)>) -> Option<(V3, RayV)> {
    match o {
        Some((a, s)) => Some((a@, s@)),
        None => None,
    }
}

/// The diffuse bounce direction for a drawn perturbation `s`:
/// `(p + normal + s) - p`.
pub open spec fn lambertian_dir(rec: HitV, s: V3) -> V3 {
    v_sub(v_add(v_add(rec.p, rec.normal), s), rec.p)
}

/// What a diffuse scatter reports: always a ray from the hit point, with
/// the albedo as attenuation.
pub open spec fn lambertian_post(m: Lambertian, rec: HitV, res: Option<(Vec3, Ray)>) -> bool {
    match res {
        Some((att, sc)) => att@ == m.albedo@ && sc@.a == rec.p && (exists|s: V3|
            in_ball(s) && sc@.b == lambertian_dir(rec, s)),
        None => false,
    }
}

/// The fuzzy reflection direction for a drawn perturbation `s`.
pub open spec fn metal_dir(m: Metal, r_in: RayV, rec: HitV, s: V3) -> V3 {
    v_add(spec_reflect(v_unit(r_in.b), rec.normal), v_scale(s, m.fuzz as int))
}

/// What a metal scatter reports for a drawn perturbation `s`: the fuzzy
/// reflection when it leaves on the normal's side, absorption otherwise.
pub open spec fn metal_scatter(m: Metal, r_in: RayV, rec: HitV, s: V3) -> Option<(V3, RayV)> {
    let d = metal_dir(m, r_in, rec, s);
    if v_dot(d, rec.normal) > 0 {
        Some((m.albedo@, RayV { a: rec.p, b: d }))
    } else {
        None
    }
}

/// The normal oriented against the incoming ray's side.
pub open spec fn dielectric_outward(r_in: RayV, rec: HitV) -> V3 {
    if v_dot(r_in.b, rec.normal) > 0 {
        v_neg(rec.normal)
    } else {
        rec.normal
    }
}

/// The ratio of refractive indices along the crossing.
pub open spec fn dielectric_ratio(m: Dielectric, r_in: RayV, rec: HitV) -> int {
    if v_dot(r_in.b, rec.normal) > 0 {
        m.ref_idx as int
    } else {
        fdiv(SCALE as int, m.ref_idx as int)
    }
}

/// The cosine term handed to the Schlick approximation.
pub open spec fn dielectric_cosine(m: Dielectric, r_in: RayV, rec: HitV) -> int {
    let d = v_dot(r_in.b, rec.normal);
    let len = crate::vec3::v_len(r_in.b);
    if d > 0 {
        fdiv(fmul(d, m.ref_idx as int), len)
    } else {
        fdiv(fneg(d), len)
    }
}

/// The probability of reflecting rather than refracting; forced to one
/// when refraction is impossible.
pub open spec fn dielectric_reflect_prob(m: Dielectric, r_in: RayV, rec: HitV) -> int {
    match spec_refract(r_in.b, dielectric_outward(r_in, rec), dielectric_ratio(m, r_in, rec)) {
        Some(rf) => spec_schlick(dielectric_cosine(m, r_in, rec), m.ref_idx as int),
        None => SCALE as int,
    }
}

/// What a dielectric scatter reports for a drawn coin: full transmission
/// color, and the reflected or refracted ray as the coin falls against the
/// reflectance probability.
pub open spec fn dielectric_scatter(m: Dielectric, r_in: RayV, rec: HitV, coin: int) -> (
    V3,
    RayV,
) {
    let refl = spec_reflect(r_in.b, rec.normal);
    let dir = if coin < dielectric_reflect_prob(m, r_in, rec) {
        refl
    } else {
        match spec_refract(
            r_in.b,
            dielectric_outward(r_in, rec),
            dielectric_ratio(m, r_in, rec),
        ) {
            Some(rf) => rf,
            None => refl,
        }
    };
    (v3(SCALE as int, SCALE as int, SCALE as int), RayV { a: rec.p, b: dir })
}

/// What `Material::scatter` guarantees of every outcome: the drawn
/// perturbation or coin is existentially bound, everything else is exact.
pub open spec fn scatter_post(m: Material, r_in: RayV, rec: HitV, res: Option<(Vec3, Ray)>) -> bool {
    match m {
        Material::Lambertian(l) => lambertian_post(l, rec, res),
        Material::Metal(mt) => exists|s: V3|
            in_ball(s) && opt_scatter_view(res) == metal_scatter(mt, r_in, rec, s),
        Material::Dielectric(d) => exists|coin: int|
            0 <= coin < SCALE && opt_scatter_view(res) == Some(
                dielectric_scatter(d, r_in, rec, coin),
            ),
    }
}

impl Lambertian {
    /// The deterministic core of a diffuse scatter, for a given
    /// perturbation.
    pub fn scatter_with(&self, rec: &HitRecord, sample: &Vec3) -> (r: (Vec3, Ray))
        ensures
            r.0@ == self.albedo@,
            r.1@ == (RayV { a: rec@.p, b: lambertian_dir(rec@, sample@) }),
    {
        let target = rec.p.add(&rec.normal).add(sample);
        (self.albedo, Ray::new(rec.p, target.sub(&rec.p)))
    }

    /// Diffuse scatter: always succeeds, bouncing toward the normal
    /// perturbed by a point of the unit ball.
    pub fn scatter(
        &self,
        rng: &mut rand::rngs::ThreadRng,
        _r_in: &Ray,
        rec: &HitRecord,
    ) -> (res: Option<(Vec3, Ray)>)
        ensures
            lambertian_post(*self, rec@, res),
    {
        let sample = random_in_unit_sphere(rng);
        let (att, sc) = self.scatter_with(rec, &sample);
        proof {
            assert(in_ball(sample@) && sc@.b == lambertian_dir(rec@, sample@));
        }
        Some((att, sc))
    }
}

impl Metal {
    /// The fuzz radius is clamped to at most one.
    pub fn new(albedo: Vec3, f: i64) -> (m: Metal)
        ensures
            m.albedo == albedo,
            m.fuzz == if f < SCALE {
                f
            } else {
                SCALE
            },
    {
        Metal { albedo, fuzz: if f < SCALE { f } else { SCALE } }
    }

    /// The deterministic core of a metal scatter, for a given
    /// perturbation.
    pub fn scatter_with(&self, r_in: &Ray, rec: &HitRecord, sample: &Vec3) -> (res: Option<
        (Vec3, Ray),
    >)
        ensures
            opt_scatter_view(res) == metal_scatter(*self, r_in@, rec@, sample@),
    {
        let reflected = reflect(&Vec3::unit_vector(&r_in.b), &rec.normal);
        let dir = reflected.add(&sample.scale(self.fuzz));
        if Vec3::dot(&dir, &rec.normal) > 0 {
            Some((self.albedo, Ray::new(rec.p, dir)))
        } else {
            None
        }
    }

    /// Glossy reflection: the mirrored direction perturbed inside a ball
    /// of radius `fuzz`; absorbed when the perturbed ray leaves on the
    /// wrong side of the surface.
    pub fn scatter(
        &self,
        rng: &mut rand::rngs::ThreadRng,
        r_in: &Ray,
        rec: &HitRecord,
    ) -> (res: Option<(Vec3, Ray)>)
        ensures
            exists|s: V3| in_ball(s) && opt_scatter_view(res) == metal_scatter(*self, r_in@, rec@, s),
    {
        let sample = random_in_unit_sphere(rng);
        let res = self.scatter_with(r_in, rec, &sample);
        proof {
            assert(in_ball(sample@) && opt_scatter_view(res) == metal_scatter(
                *self,
                r_in@,
                rec@,
                sample@,
            ));
        }
        res
    }
}

impl Dielectric {
    pub fn new(ref_idx: i64) -> (m: Dielectric)
        ensures
            m.ref_idx == ref_idx,
    {
        Dielectric { ref_idx }
    }

    /// The deterministic core of a dielectric scatter, for a given coin.
    pub fn scatter_with(&self, r_in: &Ray, rec: &HitRecord, coin: i64) -> (res: (Vec3, Ray))
        ensures
            res.0@ == dielectric_scatter(*self, r_in@, rec@, coin as int).0,
            res.1@ == dielectric_scatter(*self, r_in@, rec@, coin as int).1,
    {
        let reflected = reflect(&r_in.b, &rec.normal);
        let dirdot = Vec3::dot(&r_in.b, &rec.normal);
        let outward: Vec3;
        let ratio: i64;
        let cosine: i64;
        if dirdot > 0 {
            outward = rec.normal.neg();
            ratio = self.ref_idx;
            cosine = div_fp(mul_fp(dirdot, self.ref_idx), r_in.b.length());
        } else {
            outward = rec.normal;
            ratio = div_fp(SCALE, self.ref_idx);
            cosine = div_fp(neg_fp(dirdot), r_in.b.length());
        }
        let refr_opt = refract(&r_in.b, &outward, ratio);
        let reflect_prob: i64 = match refr_opt {
            Some(_) => schlick(cosine, self.ref_idx),
            None => SCALE,
        };
        let dir: Vec3 = if coin < reflect_prob {
            reflected
        } else {
            match refr_opt {
                Some(rf) => rf,
                None => reflected,
            }
        };
        (Vec3::new(SCALE, SCALE, SCALE), Ray::new(rec.p, dir))
    }

    /// Refractive scatter: never absorbs; reflects or refracts as a drawn
    /// coin falls against the Schlick reflectance, and reflects always
    /// under total internal reflection.
    pub fn scatter(
        &self,
        rng: &mut rand::rngs::ThreadRng,
        r_in: &Ray,
        rec: &HitRecord,
    ) -> (res: Option<(Vec3, Ray)>)
        ensures
            exists|coin: int|
                0 <= coin < SCALE && opt_scatter_view(res) == Some(
                    dielectric_scatter(*self, r_in@, rec@, coin),
                ),
    {
        let coin = rand_unit(rng);
        let (att, sc) = self.scatter_with(r_in, rec, coin);
        let res = Some((att, sc));
        proof {
            assert(0 <= coin < SCALE && opt_scatter_view(res) == Some(
                dielectric_scatter(*self, r_in@, rec@, coin as int),
            ));
        }
        res
    }
}

impl Material {
    /// Scatter by the material's kind; see `scatter_post` for the exact
    /// guarantee of each kind.
    pub fn scatter(
        &self,
        rng: &mut rand::rngs::ThreadRng,
        r_in: &Ray,
        rec: &HitRecord,
    ) -> (res: Option<(Vec3, Ray)>)
        ensures
            scatter_post(*self, r_in@, rec@, res),
    {
        match self {
            Material::Lambertian(l) => l.scatter(rng, r_in, rec),
            Material::Metal(m) => m.scatter(rng, r_in, rec),
            Material::Dielectric(d) => d.scatter(rng, r_in, rec),
        }
    }
}

/// A perfectly polished metal scatters into the exact specular reflection:
/// with fuzz zero the drawn perturbation cannot move the direction.
pub proof fn lemma_metal_mirror(m: Metal, r_in: RayV, rec: HitV, s: V3)
    requires
        m.fuzz == 0,
    ensures
        metal_dir(m, r_in, rec, s) == spec_reflect(v_unit(r_in.b), rec.normal),
        metal_scatter(m, r_in, rec, s) is Some ==> metal_scatter(m, r_in, rec, s)->Some_0.1.b
            == spec_reflect(v_unit(r_in.b), rec.normal),
{
    let refl = spec_reflect(v_unit(r_in.b), rec.normal);
    assert(v_scale(s, 0) == v3(0, 0, 0));
    assert(metal_dir(m, r_in, rec, s) == v_add(refl, v3(0, 0, 0)));
    assert(v_add(refl, v3(0, 0, 0)) == refl);
}

/// Under total internal reflection a dielectric always reflects, whatever
/// the coin: the reflectance probability is forced to one.
pub proof fn lemma_dielectric_total_internal_reflection(
    m: Dielectric,
    r_in: RayV,
    rec: HitV,
    coin: int,
)
    requires
        coin < SCALE,
        spec_refract(r_in.b, dielectric_outward(r_in, rec), dielectric_ratio(m, r_in, rec))
            is None,
    ensures
        dielectric_scatter(m, r_in, rec, coin).1.b == spec_reflect(r_in.b, rec.normal),
{
}

} // verus!
