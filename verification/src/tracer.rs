//! The radiance evaluator and the render driver: recursive light
//! transport with a hard depth cap, a background gradient, and the
//! gamma-corrected pixel conversion.

use vstd::prelude::*;
use crate::camera::{camera_ray, in_disk, Camera, CameraV};
use vstd::arithmetic::div_mod::{lemma_div_multiples_vanish, lemma_div_pos_is_pos};
use crate::fixed::{
    add_fp, div_fp, fadd, fdiv, fint, fmul, fsqrt, fsub, int_fp, lemma_fmul_unit_bounds,
    lemma_tdiv_monotone, mul_fp, sqrt_fp, sub_fp, tdiv, trunc_fp, HALF_FP, SCALE,
};
use crate::hitable::Hitable;
use crate::hitable_list::HitableList;
use crate::material::{in_ball, metal_scatter, opt_scatter_view};
use crate::ray::{Ray, RayV};
use crate::rng::rand_unit;
use crate::vec3::{v3, v_add, v_div_s, v_in_unit, v_mul, v_scale, v_unit, V3, Vec3};

verus! {

/// The hard recursion cap on scattering generations.
pub const MAX_DEPTH: i32 = 50;

/// The lower bound of the hit search window, just above zero to avoid
/// re-intersecting the surface a ray has just left.
pub const T_MIN_HIT: i64 = 1000;

/// The sky-blue end of the background gradient.
pub open spec fn sky_color() -> V3 {
    v3(HALF_FP as int, 700_000, SCALE as int)
}

/// The background gradient: white blended toward sky blue by the unit
/// direction's vertical component mapped from `[-1, 1]` onto `[0, 1]`.
pub open spec fn spec_background(r: RayV) -> V3 {
    let u = v_unit(r.b);
    let t = fmul(HALF_FP as int, fadd(u.y, SCALE as int));
    v_add(
        v_scale(v3(SCALE as int, SCALE as int, SCALE as int), fsub(SCALE as int, t)),
        v_scale(sky_color(), t),
    )
}

/// The background gradient is a convex blend of white and sky blue, so
/// its components lie in `[0, 1]` — provided the fixed-point unit
/// direction is a genuine unit value in its vertical component. (A
/// direction shorter than the fixed-point quantum has length zero and
/// saturates instead, the documented analogue of unguarded normalization.)
pub proof fn lemma_background_in_range(r: RayV)
    requires
        -(SCALE as int) <= v_unit(r.b).y <= SCALE as int,
    ensures
        v_in_unit(spec_background(r)),
{
    let u = v_unit(r.b);
    let blend = fadd(u.y, SCALE as int);
    assert(blend == u.y + SCALE);
    let t = fmul(HALF_FP as int, blend);
    assert((HALF_FP as int) * blend <= (SCALE as int) * (SCALE as int)
        && 0 <= (HALF_FP as int) * blend) by (nonlinear_arith)
        requires
            0 <= blend <= 2 * (SCALE as int),
    ;
    lemma_div_pos_is_pos((HALF_FP as int) * blend, SCALE as int);
    lemma_tdiv_monotone(
        (HALF_FP as int) * blend,
        (SCALE as int) * (SCALE as int),
        SCALE as int,
    );
    lemma_div_multiples_vanish(SCALE as int, SCALE as int);
    assert(0 <= t <= SCALE);
    let s = fsub(SCALE as int, t);
    lemma_fmul_unit_bounds(SCALE as int, s);
    lemma_fmul_unit_bounds(SCALE as int, t);
    lemma_fmul_unit_bounds(HALF_FP as int, t);
    lemma_fmul_unit_bounds(700_000, t);
}

/// The light a ray gathers when it escapes the scene.
pub fn background(r: &Ray) -> (c: Vec3)
    ensures
        c@ == spec_background(r@),
{
    let u = Vec3::unit_vector(&r.b);
    let t = mul_fp(HALF_FP, add_fp(u.y, SCALE));
    Vec3::new(SCALE, SCALE, SCALE).scale(sub_fp(SCALE, t)).add(
        &Vec3::new(HALF_FP, 700_000, SCALE).scale(t),
    )
}

/// What the radiance evaluator guarantees of its result `c` for a ray
/// `r` at recursion depth `depth`: the background exactly when nothing is
/// hit; no energy at the depth cap; and for a hit below the cap the
/// material's tint law — black only by absorption (so never for the
/// always-scattering kinds), otherwise the material's attenuation times
/// the light gathered along the scattered path.
pub open spec fn radiance_post(world: HitableList, r: RayV, depth: int, c: V3) -> bool {
    let h = world.hit_spec(r, T_MIN_HIT as int, i64::MAX as int);
    &&& (h is None ==> c == spec_background(r))
    &&& (h is Some && depth >= MAX_DEPTH ==> c == v3(0, 0, 0))
    &&& (h is Some && depth < MAX_DEPTH && h->Some_0.material is Lambertian ==> exists|rest: V3|
        c == v_mul(h->Some_0.material->Lambertian_0.albedo@, rest))
    &&& (h is Some && depth < MAX_DEPTH && h->Some_0.material is Metal ==> (c == v3(0, 0, 0)
        || exists|rest: V3| c == v_mul(h->Some_0.material->Metal_0.albedo@, rest)))
    &&& (h is Some && depth < MAX_DEPTH && h->Some_0.material is Dielectric ==> exists|rest: V3|
        c == v_mul(v3(SCALE as int, SCALE as int, SCALE as int), rest))
}

/// Recursive radiance: the nearest hit's material scatters and the
/// gathered light is tinted by its attenuation, until a ray escapes into
/// the background, is absorbed, or the depth cap is reached; the last two
/// contribute no energy.
pub fn radiance(
    rng: &mut rand::rngs::ThreadRng,
    r: &Ray,
    world: &HitableList,
    depth: i32,
) -> (c: Vec3)
    ensures
        radiance_post(*world, r@, depth as int, c@),
    decreases MAX_DEPTH - depth,
{
    match world.hit(r, T_MIN_HIT, i64::MAX) {
        Some(rec) => {
            if depth < MAX_DEPTH {
                let res = rec.material.scatter(rng, r, &rec);
                match res {
                    Some((attenuation, scattered)) => {
                        let gathered = radiance(rng, &scattered, world, depth + 1);
                        let out = attenuation.mul(&gathered);
                        proof {
                            assert(out@ == v_mul(attenuation@, gathered@));
                            if rec.material is Metal {
                                let m = rec.material->Metal_0;
                                let s = choose|s: V3|
                                    in_ball(s) && opt_scatter_view(res)
                                        == metal_scatter(m, r@, rec@, s);
                                assert(metal_scatter(m, r@, rec@, s) == Some(
                                    (attenuation@, scattered@),
                                ));
                                assert(attenuation@ == m.albedo@);
                            }
                        }
                        out
                    },
                    None => {
                        proof {
                            assert(!(rec.material is Lambertian));
                            assert(!(rec.material is Dielectric));
                        }
                        Vec3::zero()
                    },
                }
            } else {
                Vec3::zero()
            }
        },
        None => background(r),
    }
}

/// One output channel: square-root gamma, scaled by 255.99 and truncated
/// toward zero.
pub open spec fn spec_channel(x: int) -> int {
    tdiv(fmul(fsqrt(x), 255_990_000), SCALE as int)
}

/// A gamma-corrected output pixel.
#[derive(Clone, Copy, PartialEq, Eq, Structural, Debug)]
pub struct Pixel {
    pub r: i64,
    pub g: i64,
    pub b: i64,
}

/// Converts an averaged color to its output channels.
pub fn to_pixel(c: &Vec3) -> (p: Pixel)
    ensures
        p.r as int == spec_channel(c@.x),
        p.g as int == spec_channel(c@.y),
        p.b as int == spec_channel(c@.z),
{
    Pixel {
        r: trunc_fp(mul_fp(sqrt_fp(c.x), 255_990_000)),
        g: trunc_fp(mul_fp(sqrt_fp(c.y), 255_990_000)),
        b: trunc_fp(mul_fp(sqrt_fp(c.z), 255_990_000)),
    }
}

/// The row-major position of pixel `(i, j)` in the output, top row
/// first.
pub open spec fn pixel_index(nx: int, ny: int, i: int, j: int) -> int {
    (ny - 1 - j) * nx + i
}

/// `r` is a ray the camera geometry `c` can produce for pixel `(i, j)`
/// of an `nx` by `ny` image: normalized coordinates jittered inside the
/// pixel, and an origin jittered across the lens disk.
pub open spec fn pixel_sample_ray(c: CameraV, nx: int, ny: int, i: int, j: int, r: RayV) -> bool {
    exists|du: int, dv: int, rd: V3|
        0 <= du < SCALE && 0 <= dv < SCALE && in_disk(rd) && r == camera_ray(
            c,
            rd,
            fdiv(fadd(fint(i), du), fint(nx)),
            fdiv(fadd(fint(j), dv), fint(ny)),
        )
}

/// `col` is a color the radiance evaluator can report for one sample of
/// pixel `(i, j)`: some camera ray of that pixel whose evaluation at
/// depth zero guarantees `radiance_post`.
pub open spec fn pixel_sample(
    world: HitableList,
    c: CameraV,
    nx: int,
    ny: int,
    i: int,
    j: int,
    col: V3,
) -> bool {
    exists|r: RayV| pixel_sample_ray(c, nx, ny, i, j, r) && radiance_post(world, r, 0, col)
}

/// Sample colors summed in accumulation order.
pub open spec fn accumulate(samples: Seq<V3>) -> V3
    decreases samples.len(),
{
    if samples.len() == 0 {
        v3(0, 0, 0)
    } else {
        v_add(accumulate(samples.drop_last()), samples.last())
    }
}

/// The pixel is the truncating average of `ns` sample colors — each one a
/// possible radiance evaluation for a camera ray of pixel `(i, j)` —
/// carried through the square-root gamma and the 255.99 scaling.
pub open spec fn pixel_post(
    world: HitableList,
    c: CameraV,
    nx: int,
    ny: int,
    ns: int,
    i: int,
    j: int,
    p: Pixel,
) -> bool {
    exists|samples: Seq<V3>|
        {
            let avg = v_div_s(#[trigger] accumulate(samples), fint(ns));
            &&& samples.len() == ns
            &&& (forall|k: int|
                0 <= k < samples.len() ==> pixel_sample(world, c, nx, ny, i, j, #[trigger] samples[k]))
            &&& p.r == spec_channel(avg.x)
            &&& p.g == spec_channel(avg.y)
            &&& p.b == spec_channel(avg.z)
        }
}

/// Renders the scene: for every pixel, top row first, `ns` jittered
/// samples are averaged, gamma-corrected and converted; one entry per
/// pixel in row-major order, each meeting `pixel_post` for its
/// coordinates. Only the camera's random source advances.
#[verifier::rlimit(100)]
pub fn render(
    cam: &mut Camera,
    rng: &mut rand::rngs::ThreadRng,
    world: &HitableList,
    nx: u32,
    ny: u32,
    ns: u32,
) -> (pixels: Vec<Pixel>)
    requires
        ns >= 1,
    ensures
        pixels.len() == (nx as int) * (ny as int),
        final(cam)@ == old(cam)@,
        forall|i: int, j: int|
            0 <= i < nx && 0 <= j < ny ==> pixel_post(
                *world,
                old(cam)@,
                nx as int,
                ny as int,
                ns as int,
                i,
                j,
                #[trigger] pixels[pixel_index(nx as int, ny as int, i, j)],
            ),
{
    let mut pixels: Vec<Pixel> = Vec::new();
    let mut j: u32 = ny;
    while j > 0
        invariant
            j <= ny,
            ns >= 1,
            cam@ == old(cam)@,
            pixels.len() == (nx as int) * ((ny - j) as int),
            forall|a: int, b: int|
                0 <= a < nx && j <= b < ny ==> pixel_post(
                    *world,
                    old(cam)@,
                    nx as int,
                    ny as int,
                    ns as int,
                    a,
                    b,
                    #[trigger] pixels[pixel_index(nx as int, ny as int, a, b)],
                ),
        decreases j,
    {
        j = j - 1;
        let mut i: u32 = 0;
        while i < nx
            invariant
                i <= nx,
                j < ny,
                ns >= 1,
                cam@ == old(cam)@,
                pixels.len() == (nx as int) * ((ny - j - 1) as int) + i as int,
                forall|a: int, b: int|
                    0 <= a < nx && j < b < ny ==> pixel_post(
                        *world,
                        old(cam)@,
                        nx as int,
                        ny as int,
                        ns as int,
                        a,
                        b,
                        #[trigger] pixels[pixel_index(nx as int, ny as int, a, b)],
                    ),
                forall|a: int|
                    0 <= a < i ==> pixel_post(
                        *world,
                        old(cam)@,
                        nx as int,
                        ny as int,
                        ns as int,
                        a,
                        j as int,
                        #[trigger] pixels[pixel_index(nx as int, ny as int, a, j as int)],
                    ),
            decreases nx - i,
        {
            let mut col = Vec3::zero();
            let ghost mut samples: Seq<V3> = Seq::empty();
            let mut s: u32 = 0;
            while s < ns
                invariant
                    s <= ns,
                    j < ny,
                    i < nx,
                    cam@ == old(cam)@,
                    samples.len() == s as int,
                    col@ == accumulate(samples),
                    forall|k: int|
                        0 <= k < samples.len() ==> pixel_sample(
                            *world,
                            old(cam)@,
                            nx as int,
                            ny as int,
                            i as int,
                            j as int,
                            #[trigger] samples[k],
                        ),
                decreases ns - s,
            {
                let du = rand_unit(rng);
                let dv = rand_unit(rng);
                let u = div_fp(add_fp(int_fp(i as i64), du), int_fp(nx as i64));
                let v = div_fp(add_fp(int_fp(j as i64), dv), int_fp(ny as i64));
                let ray = cam.get_ray(u, v);
                let sample = radiance(rng, &ray, world, 0);
                proof {
                    let rd = choose|rd: V3|
                        in_disk(rd) && ray@ == camera_ray(old(cam)@, rd, u as int, v as int);
                    assert(u as int == fdiv(fadd(fint(i as int), du as int), fint(nx as int)));
                    assert(v as int == fdiv(fadd(fint(j as int), dv as int), fint(ny as int)));
                    assert(pixel_sample_ray(old(cam)@, nx as int, ny as int, i as int, j as int, ray@));
                    assert(pixel_sample(
                        *world,
                        old(cam)@,
                        nx as int,
                        ny as int,
                        i as int,
                        j as int,
                        sample@,
                    ));
                    let ghost prev = samples;
                    samples = samples.push(sample@);
                    assert(samples.drop_last() =~= prev);
                    assert(samples.last() == sample@);
                    assert(accumulate(samples) == v_add(accumulate(prev), sample@));
                }
                col = col.add(&sample);
                s = s + 1;
            }
            col = col.div_s(int_fp(ns as i64));
            let px = to_pixel(&col);
            proof {
                assert(col@ == v_div_s(accumulate(samples), fint(ns as int)));
                assert(pixel_post(
                    *world,
                    old(cam)@,
                    nx as int,
                    ny as int,
                    ns as int,
                    i as int,
                    j as int,
                    px,
                ));
                assert(pixel_index(nx as int, ny as int, i as int, j as int) == (nx as int) * ((
                ny - j - 1) as int) + i as int) by (nonlinear_arith);
            }
            pixels.push(px);
            proof {
                assert forall|a: int, b: int|
                    0 <= a < nx && (j as int) < b < ny implies #[trigger] pixel_index(
                    nx as int,
                    ny as int,
                    a,
                    b,
                ) < (nx as int) * ((ny - j - 1) as int) + i as int by {
                    assert((ny - 1 - b) * (nx as int) <= ((ny - j - 2) as int) * (nx as int))
                        by (nonlinear_arith)
                        requires
                            (j as int) < b < ny,
                            nx >= 1,
                    ;
                    assert(((ny - j - 2) as int) * (nx as int) + (nx as int) == (nx as int) * ((ny
                        - j - 1) as int)) by (nonlinear_arith);
                }
                assert forall|a: int|
                    0 <= a < i implies #[trigger] pixel_index(nx as int, ny as int, a, j as int)
                    < (nx as int) * ((ny - j - 1) as int) + i as int by {
                    assert(pixel_index(nx as int, ny as int, a, j as int) == (nx as int) * ((ny - j
                        - 1) as int) + a) by (nonlinear_arith);
                }
            }
            i = i + 1;
        }
        proof {
            assert((nx as int) * (ny - j - 1) + (nx as int) == (nx as int) * (ny - j))
                by (nonlinear_arith);
        }
    }
    pixels
}

} // verus!

