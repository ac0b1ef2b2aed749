//! Saturating fixed-point scalars.
//!
//! A scalar is an `i64` holding `SCALE` times its real value, so one whole
//! unit is `SCALE`. Multiplication and division truncate toward zero, as
//! machine division does, and every operation saturates at the `i64` range
//! instead of overflowing: saturation is this library's documented analogue
//! of the reference arithmetic's permissive out-of-range behaviour, and
//! division by zero yields the saturated extreme of the dividend's sign.

use vstd::prelude::*;
use vstd::arithmetic::div_mod::{
    lemma_div_is_ordered, lemma_div_multiples_vanish, lemma_div_nonincreasing,
    lemma_div_pos_is_pos,
};

verus! {

/// One whole unit: a scalar `x` stands for the real number `x / SCALE`.
pub const SCALE: i64 = 1_000_000;

/// The scalar two.
pub const TWO_FP: i64 = 2 * SCALE;

/// The scalar one half.
pub const HALF_FP: i64 = 500_000;

/// Magnitude of an integer.
pub open spec fn iabs(x: int) -> int {
    if x < 0 {
        -x
    } else {
        x
    }
}

/// Division truncated toward zero, as `i64`/`i128` division behaves.
pub open spec fn tdiv(a: int, b: int) -> int
    recommends
        b != 0,
{
    if (a < 0) != (b < 0) {
        -(iabs(a) / iabs(b))
    } else {
        iabs(a) / iabs(b)
    }
}

/// Clamp an integer into the `i64` range.
pub open spec fn sat64(x: int) -> int {
    if x > i64::MAX {
        i64::MAX as int
    } else if x < i64::MIN {
        i64::MIN as int
    } else {
        x
    }
}

/// Fixed-point addition.
pub open spec fn fadd(a: int, b: int) -> int {
    sat64(a + b)
}

/// Fixed-point subtraction.
pub open spec fn fsub(a: int, b: int) -> int {
    sat64(a - b)
}

/// Fixed-point negation.
pub open spec fn fneg(a: int) -> int {
    sat64(-a)
}

/// Fixed-point multiplication: the doubled-precision product scaled back
/// down, truncating toward zero.
pub open spec fn fmul(a: int, b: int) -> int {
    sat64(tdiv(a * b, SCALE as int))
}

/// Fixed-point division; a zero divisor saturates by the dividend's sign.
pub open spec fn fdiv(a: int, b: int) -> int {
    if b == 0 {
        if a > 0 {
            i64::MAX as int
        } else if a < 0 {
            i64::MIN as int
        } else {
            0
        }
    } else {
        sat64(tdiv(a * (SCALE as int), b))
    }
}

/// `r` is the integer square root of `x`.
pub open spec fn is_isqrt(r: int, x: int) -> bool {
    0 <= r && r * r <= x && x < (r + 1) * (r + 1)
}

/// Fixed-point square root: the integer square root of `a * SCALE`, which
/// represents the truncated real square root of `a / SCALE`. A negative
/// argument is taken to zero.
pub open spec fn fsqrt(a: int) -> int {
    if a <= 0 {
        0
    } else {
        choose|r: int| #[trigger] is_isqrt(r, a * (SCALE as int))
    }
}

/// A whole number carried into the fixed-point encoding.
pub open spec fn fint(n: int) -> int {
    sat64(n * (SCALE as int))
}

/// Every nonnegative integer has an integer square root.
pub proof fn lemma_isqrt_exists(x: int)
    requires
        x >= 0,
    ensures
        exists|r: int| is_isqrt(r, x),
    decreases x,
{
    if x == 0 {
        assert(is_isqrt(0, 0));
    } else {
        lemma_isqrt_exists(x - 1);
        let r = choose|r: int| #[trigger] is_isqrt(r, x - 1);
        if x < (r + 1) * (r + 1) {
            assert(is_isqrt(r, x));
        } else {
            assert(x == (r + 1) * (r + 1));
            assert((r + 1) * (r + 1) < (r + 2) * (r + 2)) by (nonlinear_arith)
                requires
                    r >= 0,
            ;
            assert(is_isqrt(r + 1, x));
        }
    }
}

/// The fixed-point square root is never negative.
pub proof fn lemma_fsqrt_nonneg(a: int)
    ensures
        fsqrt(a) >= 0,
{
    if a > 0 {
        assert(a * (SCALE as int) >= 0) by (nonlinear_arith)
            requires
                a > 0,
        ;
        lemma_isqrt_exists(a * (SCALE as int));
        assert(is_isqrt(fsqrt(a), a * (SCALE as int)));
    }
}

/// Truncated division is monotone in the dividend, for a positive
/// divisor.
pub proof fn lemma_tdiv_monotone(x: int, y: int, d: int)
    requires
        x <= y,
        d > 0,
    ensures
        tdiv(x, d) <= tdiv(y, d),
{
    if x >= 0 {
        lemma_div_is_ordered(x, y, d);
    } else if y < 0 {
        lemma_div_is_ordered(-y, -x, d);
    } else {
        lemma_div_pos_is_pos(-x, d);
        lemma_div_pos_is_pos(y, d);
    }
}

/// Saturating fixed-point division is monotone in the dividend, for a
/// nonnegative divisor.
pub proof fn lemma_fdiv_monotone(x: int, y: int, d: int)
    requires
        x <= y,
        d >= 0,
    ensures
        fdiv(x, d) <= fdiv(y, d),
{
    if d > 0 {
        lemma_tdiv_monotone(x * (SCALE as int), y * (SCALE as int), d);
    }
}

/// A product with a factor in `[0, 1]` neither leaves `[0, 1]` nor
/// exceeds the other factor.
pub proof fn lemma_fmul_unit_bounds(c: int, t: int)
    requires
        0 <= c <= SCALE,
        0 <= t <= SCALE,
    ensures
        0 <= fmul(c, t) <= t,
{
    assert(0 <= c * t <= (SCALE as int) * t) by (nonlinear_arith)
        requires
            0 <= c <= SCALE,
            0 <= t,
    ;
    lemma_div_pos_is_pos(c * t, SCALE as int);
    lemma_tdiv_monotone(c * t, (SCALE as int) * t, SCALE as int);
    lemma_div_multiples_vanish(t, SCALE as int);
}

/// A fixed-point square is never negative.
pub proof fn lemma_fmul_square_nonneg(x: int)
    ensures
        fmul(x, x) >= 0,
{
    assert(x * x >= 0) by (nonlinear_arith);
    lemma_div_pos_is_pos(x * x, SCALE as int);
}

/// The integer square root is unique.
pub proof fn lemma_isqrt_unique(r1: int, r2: int, x: int)
    requires
        is_isqrt(r1, x),
        is_isqrt(r2, x),
    ensures
        r1 == r2,
{
    assert(r1 == r2) by (nonlinear_arith)
        requires
            0 <= r1,
            0 <= r2,
            r1 * r1 <= x,
            x < (r1 + 1) * (r1 + 1),
            r2 * r2 <= x,
            x < (r2 + 1) * (r2 + 1),
    ;
}

/// Clamp a doubled-precision value into an `i64`.
fn sat_i128(x: i128) -> (r: i64)
    ensures
        r as int == sat64(x as int),
{
    if x > i64::MAX as i128 {
        i64::MAX
    } else if x < i64::MIN as i128 {
        i64::MIN
    } else {
        x as i64
    }
}

/// Doubled-precision division truncated toward zero.
fn tdiv_i128(a: i128, b: i128) -> (q: i128)
    requires
        b != 0,
        a != i128::MIN,
        b != i128::MIN,
    ensures
        q as int == tdiv(a as int, b as int),
        iabs(q as int) <= iabs(a as int),
{
    let ma: u128 = if a < 0 {
        (-a) as u128
    } else {
        a as u128
    };
    let mb: u128 = if b < 0 {
        (-b) as u128
    } else {
        b as u128
    };
    let mq: u128 = ma / mb;
    proof {
        assert(ma as int == iabs(a as int));
        assert(mb as int == iabs(b as int));
        lemma_div_nonincreasing(ma as int, mb as int);
        assert(mq as int <= ma as int);
    }
    if (a < 0) != (b < 0) {
        -(mq as i128)
    } else {
        mq as i128
    }
}

/// Saturating fixed-point addition.
pub fn add_fp(a: i64, b: i64) -> (r: i64)
    ensures
        r as int == fadd(a as int, b as int),
{
    sat_i128((a as i128) + (b as i128))
}

/// Saturating fixed-point subtraction.
pub fn sub_fp(a: i64, b: i64) -> (r: i64)
    ensures
        r as int == fsub(a as int, b as int),
{
    sat_i128((a as i128) - (b as i128))
}

/// Saturating fixed-point negation.
pub fn neg_fp(a: i64) -> (r: i64)
    ensures
        r as int == fneg(a as int),
{
    sat_i128(-(a as i128))
}

/// Saturating fixed-point multiplication.
pub fn mul_fp(a: i64, b: i64) -> (r: i64)
    ensures
        r as int == fmul(a as int, b as int),
{
    proof {
        assert((a as int) * (b as int) < i128::MAX && i128::MIN < (a as int) * (b as int))
            by (nonlinear_arith)
            requires
                i64::MIN <= a <= i64::MAX,
                i64::MIN <= b <= i64::MAX,
        ;
    }
    let p: i128 = (a as i128) * (b as i128);
    let q: i128 = tdiv_i128(p, SCALE as i128);
    sat_i128(q)
}

/// Saturating fixed-point division; a zero divisor saturates by the
/// dividend's sign.
pub fn div_fp(a: i64, b: i64) -> (r: i64)
    ensures
        r as int == fdiv(a as int, b as int),
{
    if b == 0 {
        if a > 0 {
            i64::MAX
        } else if a < 0 {
            i64::MIN
        } else {
            0
        }
    } else {
        proof {
            assert((a as int) * (SCALE as int) < i128::MAX && i128::MIN < (a as int) * (
            SCALE as int)) by (nonlinear_arith)
                requires
                    i64::MIN <= a <= i64::MAX,
            ;
        }
        let n: i128 = (a as i128) * (SCALE as i128);
        let q: i128 = tdiv_i128(n, b as i128);
        sat_i128(q)
    }
}

/// Fixed-point square root by bisection.
pub fn sqrt_fp(a: i64) -> (r: i64)
    ensures
        r as int == fsqrt(a as int),
        r >= 0,
{
    if a <= 0 {
        return 0;
    }
    proof {
        assert((a as int) * (SCALE as int) < 8796093022208 * 8796093022208) by (nonlinear_arith)
            requires
                0 < a <= i64::MAX,
        ;
    }
    let n: u128 = (a as u128) * (SCALE as u128);
    let mut lo: u128 = 0;
    let mut hi: u128 = 8796093022208;
    while lo + 1 < hi
        invariant
            (lo as int) * (lo as int) <= n as int,
            (n as int) < (hi as int) * (hi as int),
            lo < hi,
            hi <= 8796093022208,
        decreases hi - lo,
    {
        let mid: u128 = lo + (hi - lo) / 2;
        proof {
            assert((mid as int) * (mid as int) < i128::MAX) by (nonlinear_arith)
                requires
                    0 <= mid < 8796093022208,
            ;
        }
        if mid * mid <= n {
            lo = mid;
        } else {
            hi = mid;
        }
    }
    proof {
        assert(is_isqrt(lo as int, (a as int) * (SCALE as int)));
        let picked = choose|r: int| #[trigger] is_isqrt(r, (a as int) * (SCALE as int));
        lemma_isqrt_unique(picked, lo as int, (a as int) * (SCALE as int));
    }
    lo as i64
}

/// Truncate a fixed-point scalar to its whole-number part.
pub fn trunc_fp(a: i64) -> (r: i64)
    ensures
        r as int == tdiv(a as int, SCALE as int),
{
    let q: i128 = tdiv_i128(a as i128, SCALE as i128);
    q as i64
}

/// Carry a whole number into the fixed-point encoding, saturating.
pub fn int_fp(n: i64) -> (r: i64)
    ensures
        r as int == fint(n as int),
{
    proof {
        assert((n as int) * (SCALE as int) < i128::MAX && i128::MIN < (n as int) * (SCALE as int))
            by (nonlinear_arith)
            requires
                i64::MIN <= n <= i64::MAX,
        ;
    }
    sat_i128((n as i128) * (SCALE as i128))
}

} // verus!
