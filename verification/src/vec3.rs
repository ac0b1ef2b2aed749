//! Three-component fixed-point vectors, used for points, directions and
//! colors alike. Every operation is specified exactly by a mirror function
//! over the mathematical view `V3`.

use vstd::prelude::*;
use crate::fixed::{
    add_fp, div_fp, fadd, fdiv, fmul, fneg, fsqrt, fsub, mul_fp, neg_fp, sqrt_fp, sub_fp, SCALE,
};

verus! {

/// Mathematical view of a vector: three unbounded integer components in the
/// fixed-point encoding.
pub ghost struct V3 {
    pub x: int,
    pub y: int,
    pub z: int,
}

/// Shorthand for building a view.
pub open spec fn v3(x: int, y: int, z: int) -> V3 {
    V3 { x, y, z }
}

pub open spec fn v_add(a: V3, b: V3) -> V3 {
    V3 { x: fadd(a.x, b.x), y: fadd(a.y, b.y), z: fadd(a.z, b.z) }
}

pub open spec fn v_sub(a: V3, b: V3) -> V3 {
    V3 { x: fsub(a.x, b.x), y: fsub(a.y, b.y), z: fsub(a.z, b.z) }
}

pub open spec fn v_neg(a: V3) -> V3 {
    V3 { x: fneg(a.x), y: fneg(a.y), z: fneg(a.z) }
}

/// Componentwise product.
pub open spec fn v_mul(a: V3, b: V3) -> V3 {
    V3 { x: fmul(a.x, b.x), y: fmul(a.y, b.y), z: fmul(a.z, b.z) }
}

/// Scalar product.
pub open spec fn v_scale(a: V3, k: int) -> V3 {
    V3 { x: fmul(a.x, k), y: fmul(a.y, k), z: fmul(a.z, k) }
}

/// Componentwise quotient.
pub open spec fn v_div(a: V3, b: V3) -> V3 {
    V3 { x: fdiv(a.x, b.x), y: fdiv(a.y, b.y), z: fdiv(a.z, b.z) }
}

/// Scalar quotient.
pub open spec fn v_div_s(a: V3, k: int) -> V3 {
    V3 { x: fdiv(a.x, k), y: fdiv(a.y, k), z: fdiv(a.z, k) }
}

pub open spec fn v_dot(a: V3, b: V3) -> int {
    fadd(fadd(fmul(a.x, b.x), fmul(a.y, b.y)), fmul(a.z, b.z))
}

pub open spec fn v_sqlen(a: V3) -> int {
    v_dot(a, a)
}

pub open spec fn v_len(a: V3) -> int {
    fsqrt(v_sqlen(a))
}

pub open spec fn v_cross(a: V3, b: V3) -> V3 {
    V3 {
        x: fsub(fmul(a.y, b.z), fmul(a.z, b.y)),
        y: fneg(fsub(fmul(a.x, b.z), fmul(a.z, b.x))),
        z: fsub(fmul(a.x, b.y), fmul(a.y, b.x)),
    }
}

/// The vector divided by its own length, component by component.
pub open spec fn v_unit(a: V3) -> V3 {
    v_div_s(a, v_len(a))
}

/// The vector scaled by the reciprocal of its own length; this is how
/// in-place normalization rounds, as opposed to `v_unit`.
pub open spec fn v_unit_scaled(a: V3) -> V3 {
    v_scale(a, fdiv(SCALE as int, v_len(a)))
}

/// All three components lie in the unit interval `[0, 1]`; for a color,
/// no negative and no amplified energy.
pub open spec fn v_in_unit(a: V3) -> bool {
    &&& 0 <= a.x <= SCALE
    &&& 0 <= a.y <= SCALE
    &&& 0 <= a.z <= SCALE
}

/// Tinting conserves energy: the componentwise product of colors in
/// `[0, 1]` stays in `[0, 1]`, and never exceeds either factor.
pub proof fn lemma_tint_in_unit(a: V3, b: V3)
    requires
        v_in_unit(a),
        v_in_unit(b),
    ensures
        v_in_unit(v_mul(a, b)),
        v_mul(a, b).x <= b.x && v_mul(a, b).y <= b.y && v_mul(a, b).z <= b.z,
{
    crate::fixed::lemma_fmul_unit_bounds(a.x, b.x);
    crate::fixed::lemma_fmul_unit_bounds(a.y, b.y);
    crate::fixed::lemma_fmul_unit_bounds(a.z, b.z);
}

/// A point, direction or color with fixed-point components.
#[derive(Clone, Copy, PartialEq, Eq, Structural, Debug)]
pub struct Vec3 {
    pub x: i64,
    pub y: i64,
    pub z: i64,
}

impl View for Vec3 {
    type V = V3;

    open spec fn view(&self) -> V3 {
        V3 { x: self.x as int, y: self.y as int, z: self.z as int }
    }
}

impl Vec3 {
    pub fn new(e1: i64, e2: i64, e3: i64) -> (r: Vec3)
        ensures
            r@ == v3(e1 as int, e2 as int, e3 as int),
    {
        Vec3 { x: e1, y: e2, z: e3 }
    }

    pub fn zero() -> (r: Vec3)
        ensures
            r@ == v3(0, 0, 0),
    {
        Vec3 { x: 0, y: 0, z: 0 }
    }

    pub fn x(&self) -> (r: i64)
        ensures
            r as int == self@.x,
    {
        self.x
    }

    pub fn y(&self) -> (r: i64)
        ensures
            r as int == self@.y,
    {
        self.y
    }

    pub fn z(&self) -> (r: i64)
        ensures
            r as int == self@.z,
    {
        self.z
    }

    pub fn r(&self) -> (r: i64)
        ensures
            r as int == self@.x,
    {
        self.x
    }

    pub fn g(&self) -> (r: i64)
        ensures
            r as int == self@.y,
    {
        self.y
    }

    pub fn b(&self) -> (r: i64)
        ensures
            r as int == self@.z,
    {
        self.z
    }

    pub fn squared_length(&self) -> (r: i64)
        ensures
            r as int == v_sqlen(self@),
    {
        let xx = mul_fp(self.x, self.x);
        let yy = mul_fp(self.y, self.y);
        let zz = mul_fp(self.z, self.z);
        add_fp(add_fp(xx, yy), zz)
    }

    pub fn length(&self) -> (r: i64)
        ensures
            r as int == v_len(self@),
            r >= 0,
    {
        sqrt_fp(self.squared_length())
    }

    /// Scales the vector by the reciprocal of its own length in place.
    pub fn make_unit_vector(&mut self)
        ensures
            final(self)@ == v_unit_scaled(old(self)@),
    {
        let k = div_fp(SCALE, self.length());
        self.x = mul_fp(self.x, k);
        self.y = mul_fp(self.y, k);
        self.z = mul_fp(self.z, k);
    }

    pub fn dot(v1: &Vec3, v2: &Vec3) -> (r: i64)
        ensures
            r as int == v_dot(v1@, v2@),
    {
        let xx = mul_fp(v1.x, v2.x);
        let yy = mul_fp(v1.y, v2.y);
        let zz = mul_fp(v1.z, v2.z);
        add_fp(add_fp(xx, yy), zz)
    }

    pub fn cross(v1: &Vec3, v2: &Vec3) -> (r: Vec3)
        ensures
            r@ == v_cross(v1@, v2@),
    {
        Vec3 {
            x: sub_fp(mul_fp(v1.y, v2.z), mul_fp(v1.z, v2.y)),
            y: neg_fp(sub_fp(mul_fp(v1.x, v2.z), mul_fp(v1.z, v2.x))),
            z: sub_fp(mul_fp(v1.x, v2.y), mul_fp(v1.y, v2.x)),
        }
    }

    /// The vector divided by its own length.
    pub fn unit_vector(v: &Vec3) -> (r: Vec3)
        ensures
            r@ == v_unit(v@),
    {
        let len = v.length();
        v.div_s(len)
    }

    pub fn add(&self, other: &Vec3) -> (r: Vec3)
        ensures
            r@ == v_add(self@, other@),
    {
        Vec3 {
            x: add_fp(self.x, other.x),
            y: add_fp(self.y, other.y),
            z: add_fp(self.z, other.z),
        }
    }

    pub fn sub(&self, other: &Vec3) -> (r: Vec3)
        ensures
            r@ == v_sub(self@, other@),
    {
        Vec3 {
            x: sub_fp(self.x, other.x),
            y: sub_fp(self.y, other.y),
            z: sub_fp(self.z, other.z),
        }
    }

    pub fn neg(&self) -> (r: Vec3)
        ensures
            r@ == v_neg(self@),
    {
        Vec3 { x: neg_fp(self.x), y: neg_fp(self.y), z: neg_fp(self.z) }
    }

    /// Componentwise product.
    pub fn mul(&self, other: &Vec3) -> (r: Vec3)
        ensures
            r@ == v_mul(self@, other@),
    {
        Vec3 {
            x: mul_fp(self.x, other.x),
            y: mul_fp(self.y, other.y),
            z: mul_fp(self.z, other.z),
        }
    }

    /// Scalar product.
    pub fn scale(&self, k: i64) -> (r: Vec3)
        ensures
            r@ == v_scale(self@, k as int),
    {
        Vec3 { x: mul_fp(self.x, k), y: mul_fp(self.y, k), z: mul_fp(self.z, k) }
    }

    /// Componentwise quotient.
    pub fn div(&self, other: &Vec3) -> (r: Vec3)
        ensures
            r@ == v_div(self@, other@),
    {
        Vec3 {
            x: div_fp(self.x, other.x),
            y: div_fp(self.y, other.y),
            z: div_fp(self.z, other.z),
        }
    }

    /// Scalar quotient.
    pub fn div_s(&self, k: i64) -> (r: Vec3)
        ensures
            r@ == v_div_s(self@, k as int),
    {
        Vec3 { x: div_fp(self.x, k), y: div_fp(self.y, k), z: div_fp(self.z, k) }
    }
}

} // verus!
