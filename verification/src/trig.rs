//! Fixed-point trigonometry.
//!
//! `fx_sin` reduces its argument modulo 2π and evaluates Bhaskara's rational
//! approximation on each half period; the result is clamped to `[-1, 1]`.
//! `fx_atan2` folds into the first octant and applies a one-term polynomial
//! approximation of the arctangent; `fx_asin` is derived from it. These drive
//! the checker and marble textures, the camera's field of view and the
//! spherical surface coordinates; each is specified exactly by its mirror.

use vstd::prelude::*;
use crate::fixed::{FX_ONE, FX_BOUND, clip, fadd, fsub, fmul, fdiv, fsqrt, tdiv};
use crate::fixed::{fx_add, fx_sub, fx_mul, fx_div, fx_sqrt, fx_neg};

verus! {

/// π scaled by `FX_ONE`.
pub const PI_FX: i64 = 205887;

/// 2π scaled by `FX_ONE`; exactly twice `PI_FX` so the two half periods of
/// the sine reduction have equal length.
pub const TWO_PI_FX: i64 = 411774;

/// π/2 scaled by `FX_ONE`.
pub const HALF_PI_FX: i64 = 102944;

/// π/4 scaled by `FX_ONE`.
pub const QUARTER_PI_FX: i64 = 51472;

/// 5π² scaled by `FX_ONE`, the constant of Bhaskara's denominator.
pub const FIVE_PI_SQ_FX: i64 = 3233967;

/// 0.273 scaled by `FX_ONE`, the constant of the arctangent polynomial.
pub const ATAN_K_FX: i64 = 17892;

/// π/180 scaled by `FX_ONE`: degrees to radians.
pub const DEG_TO_RAD_FX: i64 = 1144;

/// Euclidean remainder: the unique representative in `[0, m)`.
pub open spec fn emod(a: int, m: int) -> int
    recommends
        m > 0,
{
    a % m
}

/// Bhaskara's approximation of the sine on `[0, π]`, clamped to one.
pub open spec fn sin_half(t: int) -> int {
    let d = fmul(t, PI_FX - t);
    let q = fdiv(16 * d, FIVE_PI_SQ_FX - 4 * d);
    if q > FX_ONE {
        FX_ONE as int
    } else {
        q
    }
}

pub open spec fn fsin(x: int) -> int {
    let m = emod(x, TWO_PI_FX as int);
    if m < PI_FX {
        sin_half(m)
    } else {
        -sin_half(m - PI_FX)
    }
}

pub open spec fn fcos(x: int) -> int {
    fsin(fadd(x, HALF_PI_FX as int))
}

pub open spec fn ftan(x: int) -> int {
    fdiv(fsin(x), fcos(x))
}

/// Arctangent of a ratio in `[0, 1]`: `q * (pi/4 + 0.273 * (1 - q))`.
pub open spec fn atan01(q: int) -> int {
    fmul(q, fadd(QUARTER_PI_FX as int, fmul(ATAN_K_FX as int, fsub(FX_ONE as int, q))))
}

/// Angle of the point `(x, z)` measured from the positive x axis, in
/// `(-pi, pi]`, by octant folding of `atan01`.
pub open spec fn fatan2(z: int, x: int) -> int {
    let ax = if x >= 0 {
        x
    } else {
        clip(-x)
    };
    let az = if z >= 0 {
        z
    } else {
        clip(-z)
    };
    let base = if az <= ax {
        if ax == 0 {
            0
        } else {
            atan01(fdiv(az, ax))
        }
    } else {
        fsub(HALF_PI_FX as int, atan01(fdiv(ax, az)))
    };
    if x >= 0 && z >= 0 {
        base
    } else if x < 0 && z >= 0 {
        fsub(PI_FX as int, base)
    } else if x < 0 {
        clip(-fsub(PI_FX as int, base))
    } else {
        clip(-base)
    }
}

/// Arcsine on `[-1, 1]` (the argument is clamped there first).
pub open spec fn fasin(y: int) -> int {
    let yc = if y > FX_ONE {
        FX_ONE as int
    } else if y < -FX_ONE {
        -FX_ONE as int
    } else {
        y
    };
    fatan2(yc, fsqrt(fsub(FX_ONE as int, fmul(yc, yc))))
}

/// The argument of Bhaskara's formula stays in a narrow band, which keeps
/// the denominator positive.
proof fn lemma_bhaskara_domain(t: int)
    requires
        0 <= t <= PI_FX,
    ensures
        0 <= fmul(t, PI_FX - t) <= 161702,
{
    let p = t * (PI_FX - t);
    assert(0 <= p <= 10597364192) by (nonlinear_arith)
        requires
            0 <= t <= PI_FX,
            p == t * (PI_FX - t),
    ;
    assert(fmul(t, PI_FX - t) == tdiv(p, 65536));
}

pub proof fn lemma_sin_half_range(t: int)
    requires
        0 <= t <= PI_FX,
    ensures
        0 <= sin_half(t) <= FX_ONE,
{
    lemma_bhaskara_domain(t);
}

/// The sine approximation is bounded by one in magnitude.
pub proof fn lemma_fsin_range(x: int)
    ensures
        -FX_ONE <= fsin(x) <= FX_ONE,
{
    let m = emod(x, TWO_PI_FX as int);
    if m < PI_FX {
        lemma_sin_half_range(m);
    } else {
        lemma_sin_half_range(m - PI_FX);
    }
}

fn emod_2pi(x: i64) -> (r: i64)
    ensures
        r as int == emod(x as int, TWO_PI_FX as int),
{
    let m = x % TWO_PI_FX;
    if m < 0 {
        m + TWO_PI_FX
    } else {
        m
    }
}

fn sin_half_exec(t: i64) -> (r: i64)
    requires
        0 <= t <= PI_FX,
    ensures
        r as int == sin_half(t as int),
{
    proof {
        lemma_bhaskara_domain(t as int);
    }
    let d = fx_mul(t, PI_FX - t);
    let q = fx_div(16 * d, FIVE_PI_SQ_FX - 4 * d);
    if q > FX_ONE {
        FX_ONE
    } else {
        q
    }
}

pub fn fx_sin(x: i64) -> (r: i64)
    ensures
        r as int == fsin(x as int),
        -FX_ONE <= r <= FX_ONE,
{
    proof {
        lemma_fsin_range(x as int);
    }
    let m = emod_2pi(x);
    if m < PI_FX {
        sin_half_exec(m)
    } else {
        let s = sin_half_exec(m - PI_FX);
        -s
    }
}

pub fn fx_cos(x: i64) -> (r: i64)
    ensures
        r as int == fcos(x as int),
        -FX_ONE <= r <= FX_ONE,
{
    fx_sin(fx_add(x, HALF_PI_FX))
}

pub fn fx_tan(x: i64) -> (r: i64)
    ensures
        r as int == ftan(x as int),
{
    let s = fx_sin(x);
    let c = fx_cos(x);
    fx_div(s, c)
}

fn atan01_exec(q: i64) -> (r: i64)
    requires
        0 <= q <= FX_ONE,
    ensures
        r as int == atan01(q as int),
{
    fx_mul(q, fx_add(QUARTER_PI_FX, fx_mul(ATAN_K_FX, fx_sub(FX_ONE, q))))
}

/// The truncated quotient of `|a| / |b|` is at most one when `|a| <= |b|`.
proof fn lemma_fdiv_ratio_le_one(a: int, b: int)
    requires
        0 <= a <= b,
        0 < b,
    ensures
        0 <= fdiv(a, b) <= FX_ONE,
{
    let p = a * 65536;
    assert(p <= b * 65536) by (nonlinear_arith)
        requires
            a <= b,
            p == a * 65536,
    ;
    assert(p / b <= (b * 65536) / b) by (nonlinear_arith)
        requires
            p <= b * 65536,
            b > 0,
    ;
    assert((b * 65536) / b == 65536) by (nonlinear_arith)
        requires
            b > 0,
    ;
    assert(p / b >= 0) by (nonlinear_arith)
        requires
            p >= 0,
            b > 0,
    ;
}

pub fn fx_atan2(z: i64, x: i64) -> (r: i64)
    ensures
        r as int == fatan2(z as int, x as int),
{
    let ax = if x >= 0 {
        x
    } else {
        fx_neg(x)
    };
    let az = if z >= 0 {
        z
    } else {
        fx_neg(z)
    };
    let base = if az <= ax {
        if ax == 0 {
            0
        } else {
            proof {
                lemma_fdiv_ratio_le_one(az as int, ax as int);
            }
            atan01_exec(fx_div(az, ax))
        }
    } else {
        proof {
            lemma_fdiv_ratio_le_one(ax as int, az as int);
        }
        fx_sub(HALF_PI_FX, atan01_exec(fx_div(ax, az)))
    };
    if x >= 0 && z >= 0 {
        base
    } else if x < 0 && z >= 0 {
        fx_sub(PI_FX, base)
    } else if x < 0 {
        let s = fx_sub(PI_FX, base);
        fx_neg(s)
    } else {
        fx_neg(base)
    }
}

pub fn fx_asin(y: i64) -> (r: i64)
    ensures
        r as int == fasin(y as int),
{
    let yc = if y > FX_ONE {
        FX_ONE
    } else if y < -FX_ONE {
        -FX_ONE
    } else {
        y
    };
    fx_atan2(yc, fx_sqrt(fx_sub(FX_ONE, fx_mul(yc, yc))))
}

} // verus!
