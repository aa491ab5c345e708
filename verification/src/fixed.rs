//! Fixed-point scalar kernel.
//!
//! Every coordinate, color channel and parametric distance in the renderer is
//! a signed 16.16 fixed-point number: an `i64` holding `value * FX_ONE`.
//! All operations are total: results saturate at `±FX_BOUND`, and division by
//! zero saturates in the direction of the numerator's sign, which is how
//! axis-parallel rays fall out of the bounding-box slab test without a branch.
//! Each executable operation is specified exactly by a spec-level mirror over
//! `int`, so the contracts of the geometry above are exact equations.

use vstd::prelude::*;

verus! {

/// One unit: values represent `v / FX_ONE`.
pub const FX_ONE: i64 = 65536;

/// Saturation bound (2^62); every result lies in `[-FX_BOUND, FX_BOUND]`.
pub const FX_BOUND: i64 = 0x4000_0000_0000_0000;

/// Saturate an unbounded integer into the representable range.
pub open spec fn clip(x: int) -> int {
    if x > FX_BOUND {
        FX_BOUND as int
    } else if x < -FX_BOUND {
        -FX_BOUND as int
    } else {
        x
    }
}

pub open spec fn in_range(x: int) -> bool {
    -FX_BOUND <= x <= FX_BOUND
}

/// Division truncated toward zero (the rounding used by every scaled
/// operation), defined for positive divisors.
pub open spec fn tdiv(a: int, b: int) -> int
    recommends
        b > 0,
{
    if a >= 0 {
        a / b
    } else {
        -((-a) / b)
    }
}

/// Truncated division with an arbitrary nonzero divisor.
pub open spec fn tdivs(a: int, b: int) -> int
    recommends
        b != 0,
{
    if b > 0 {
        tdiv(a, b)
    } else {
        -tdiv(a, -b)
    }
}

pub open spec fn fadd(a: int, b: int) -> int {
    clip(a + b)
}

pub open spec fn fsub(a: int, b: int) -> int {
    clip(a - b)
}

pub open spec fn fmul(a: int, b: int) -> int {
    clip(tdiv(a * b, FX_ONE as int))
}

/// Scaled division; a zero divisor saturates toward the numerator's sign.
pub open spec fn fdiv(a: int, b: int) -> int {
    if b == 0 {
        if a > 0 {
            FX_BOUND as int
        } else if a < 0 {
            -FX_BOUND as int
        } else {
            0
        }
    } else {
        clip(tdivs(a * FX_ONE, b))
    }
}

/// Clamp into `[-FX_ONE, FX_ONE]`, the fixed-point image of `[-1, 1]`.
pub open spec fn clamp_one(x: int) -> int {
    if x > FX_ONE {
        FX_ONE as int
    } else if x < -FX_ONE {
        -FX_ONE as int
    } else {
        x
    }
}

pub open spec fn fmin(a: int, b: int) -> int {
    if a <= b {
        a
    } else {
        b
    }
}

pub open spec fn fmax(a: int, b: int) -> int {
    if a >= b {
        a
    } else {
        b
    }
}

/// Integer square root, rounded down.
pub open spec fn sqrt_floor(n: int) -> int
    decreases n,
{
    if n < 1 {
        0
    } else {
        let r = sqrt_floor(n - 1);
        if (r + 1) * (r + 1) <= n {
            r + 1
        } else {
            r
        }
    }
}

/// Square root of a fixed-point value, zero on non-positive input.
pub open spec fn fsqrt(a: int) -> int {
    if a <= 0 {
        0
    } else {
        sqrt_floor(a * FX_ONE)
    }
}

pub proof fn lemma_sqrt_floor_bounds(n: int)
    requires
        n >= 0,
    ensures
        sqrt_floor(n) >= 0,
        sqrt_floor(n) * sqrt_floor(n) <= n,
        n < (sqrt_floor(n) + 1) * (sqrt_floor(n) + 1),
    decreases n,
{
    if n < 1 {
    } else {
        lemma_sqrt_floor_bounds(n - 1);
        let r = sqrt_floor(n - 1);
        if (r + 1) * (r + 1) <= n {
            assert(n < (r + 2) * (r + 2)) by (nonlinear_arith)
                requires
                    n - 1 < (r + 1) * (r + 1),
                    r >= 0,
            ;
        }
    }
}

pub proof fn lemma_sqrt_floor_unique(n: int, r: int)
    requires
        n >= 0,
        r >= 0,
        r * r <= n,
        n < (r + 1) * (r + 1),
    ensures
        r == sqrt_floor(n),
{
    lemma_sqrt_floor_bounds(n);
    let s = sqrt_floor(n);
    if r < s {
        assert(s * s > n) by (nonlinear_arith)
            requires
                r >= 0,
                s > r,
                n < (r + 1) * (r + 1),
        ;
    }
    if r > s {
        assert(r * r > n) by (nonlinear_arith)
            requires
                s >= 0,
                r > s,
                n < (s + 1) * (s + 1),
        ;
    }
}

/// Truncated division by a positive divisor is monotone.
pub proof fn lemma_tdiv_mono(a: int, b: int, d: int)
    requires
        a <= b,
        0 < d,
    ensures
        tdiv(a, d) <= tdiv(b, d),
{
    if a >= 0 {
        vstd::arithmetic::div_mod::lemma_div_is_ordered(a, b, d);
    } else if b < 0 {
        vstd::arithmetic::div_mod::lemma_div_is_ordered(-b, -a, d);
    } else {
        vstd::arithmetic::div_mod::lemma_div_pos_is_pos(-a, d);
        vstd::arithmetic::div_mod::lemma_div_pos_is_pos(b, d);
    }
}

/// Truncated scaling drops less than one scale unit.
pub proof fn lemma_tdiv_rem(q: int)
    ensures
        -65535 <= q - 65536 * tdiv(q, 65536) <= 65535,
        q >= 0 ==> 0 <= q - 65536 * tdiv(q, 65536),
        q <= 0 ==> q - 65536 * tdiv(q, 65536) <= 0,
{
    if q >= 0 {
        vstd::arithmetic::div_mod::lemma_fundamental_div_mod(q, 65536);
        vstd::arithmetic::div_mod::lemma_mod_bound(q, 65536);
    } else {
        vstd::arithmetic::div_mod::lemma_fundamental_div_mod(-q, 65536);
        vstd::arithmetic::div_mod::lemma_mod_bound(-q, 65536);
    }
}

/// Scaling down two nonnegative values separately loses at least as much
/// as scaling down their sum.
pub proof fn lemma_floor_add(a: int, b: int)
    requires
        0 <= a,
        0 <= b,
    ensures
        tdiv(a, 65536) + tdiv(b, 65536) <= tdiv(a + b, 65536),
{
    vstd::arithmetic::div_mod::lemma_fundamental_div_mod(a, 65536);
    vstd::arithmetic::div_mod::lemma_fundamental_div_mod(b, 65536);
    vstd::arithmetic::div_mod::lemma_fundamental_div_mod(a + b, 65536);
    vstd::arithmetic::div_mod::lemma_mod_bound(a, 65536);
    vstd::arithmetic::div_mod::lemma_mod_bound(b, 65536);
    vstd::arithmetic::div_mod::lemma_mod_bound(a + b, 65536);
    assert(tdiv(a, 65536) + tdiv(b, 65536) <= tdiv(a + b, 65536)) by (nonlinear_arith)
        requires
            a == 65536 * (a / 65536) + a % 65536,
            b == 65536 * (b / 65536) + b % 65536,
            a + b == 65536 * ((a + b) / 65536) + (a + b) % 65536,
            0 <= a % 65536 < 65536,
            0 <= b % 65536 < 65536,
            0 <= (a + b) % 65536 < 65536,
            0 <= a,
            0 <= b,
            tdiv(a, 65536) == a / 65536,
            tdiv(b, 65536) == b / 65536,
            tdiv(a + b, 65536) == (a + b) / 65536,
    ;
}

/// Scaling a whole multiple back down is exact.
pub proof fn lemma_tdiv_scale_exact(b: int)
    requires
        0 <= b,
    ensures
        tdiv(65536 * b, 65536) == b,
{
    vstd::arithmetic::div_mod::lemma_fundamental_div_mod(65536 * b, 65536);
    vstd::arithmetic::div_mod::lemma_mod_bound(65536 * b, 65536);
    assert(65536 * b >= 0) by (nonlinear_arith)
        requires
            0 <= b,
    ;
    assert(tdiv(65536 * b, 65536) == b) by (nonlinear_arith)
        requires
            0 <= b,
            65536 * b == 65536 * ((65536 * b) / 65536) + (65536 * b) % 65536,
            0 <= (65536 * b) % 65536 < 65536,
            tdiv(65536 * b, 65536) == (65536 * b) / 65536,
    ;
}

fn clamp_wide(x: i128) -> (r: i64)
    ensures
        r as int == clip(x as int),
{
    if x > FX_BOUND as i128 {
        FX_BOUND
    } else if x < -(FX_BOUND as i128) {
        -FX_BOUND
    } else {
        x as i64
    }
}

pub fn fx_add(a: i64, b: i64) -> (r: i64)
    ensures
        r as int == fadd(a as int, b as int),
{
    clamp_wide(a as i128 + b as i128)
}

pub fn fx_sub(a: i64, b: i64) -> (r: i64)
    ensures
        r as int == fsub(a as int, b as int),
{
    clamp_wide(a as i128 - b as i128)
}

/// Truncated division of a double-width value by a positive divisor.
fn tdiv_wide(p: i128, d: i128) -> (r: i128)
    requires
        d > 0,
        -0x4000_0000_0000_0000_0000_0000_0000_0000 < p,
    ensures
        r as int == tdiv(p as int, d as int),
{
    if p >= 0 {
        let q = (p as u128) / (d as u128);
        q as i128
    } else {
        let q = ((-p) as u128) / (d as u128);
        -(q as i128)
    }
}

pub fn fx_mul(a: i64, b: i64) -> (r: i64)
    ensures
        r as int == fmul(a as int, b as int),
{
    proof {
        assert(-0x4000_0000_0000_0000_0000_0000_0000_0000 < (a as int) * (b as int)
            <= 0x4000_0000_0000_0000_0000_0000_0000_0000) by (nonlinear_arith)
            requires
                -0x8000_0000_0000_0000 <= a as int <= 0x7FFF_FFFF_FFFF_FFFF,
                -0x8000_0000_0000_0000 <= b as int <= 0x7FFF_FFFF_FFFF_FFFF,
        ;
    }
    let p: i128 = (a as i128) * (b as i128);
    let q = tdiv_wide(p, FX_ONE as i128);
    clamp_wide(q)
}

pub fn fx_div(a: i64, b: i64) -> (r: i64)
    ensures
        r as int == fdiv(a as int, b as int),
{
    if b == 0 {
        if a > 0 {
            FX_BOUND
        } else if a < 0 {
            -FX_BOUND
        } else {
            0
        }
    } else {
        proof {
            assert((a as int) * (FX_ONE as int) == (a as int) * 65536);
        }
        let n: i128 = (a as i128) * 65536;
        let q = if b > 0 {
            tdiv_wide(n, b as i128)
        } else {
            let q0 = tdiv_wide(n, -(b as i128));
            -q0
        };
        assert(q as int == tdivs(a as int * FX_ONE, b as int));
        clamp_wide(q)
    }
}

pub fn fx_min(a: i64, b: i64) -> (r: i64)
    ensures
        r as int == fmin(a as int, b as int),
{
    if a <= b {
        a
    } else {
        b
    }
}

pub fn fx_max(a: i64, b: i64) -> (r: i64)
    ensures
        r as int == fmax(a as int, b as int),
{
    if a >= b {
        a
    } else {
        b
    }
}

pub fn fx_clamp_one(a: i64) -> (r: i64)
    ensures
        r as int == clamp_one(a as int),
{
    if a > FX_ONE {
        FX_ONE
    } else if a < -FX_ONE {
        -FX_ONE
    } else {
        a
    }
}

pub fn fx_neg(a: i64) -> (r: i64)
    ensures
        r as int == clip(-(a as int)),
{
    clamp_wide(-(a as i128))
}

/// Binary search for the integer square root of a double-width value.
fn isqrt_wide(n: u128) -> (r: u128)
    requires
        n < 0x1_0000_0000_0000_0000_0000,
    ensures
        r * r <= n,
        n < (r + 1) * (r + 1),
{
    let mut lo: u128 = 0;
    let mut hi: u128 = 0x1_0000_0000_0000;
    assert(hi * hi > n) by (nonlinear_arith)
        requires
            hi == 0x1_0000_0000_0000,
            n < 0x1_0000_0000_0000_0000_0000,
    ;
    while lo + 1 < hi
        invariant
            lo < hi,
            hi <= 0x1_0000_0000_0000,
            lo * lo <= n,
            n < hi * hi,
        decreases hi - lo,
    {
        let mid = lo + (hi - lo) / 2;
        proof {
            assert(mid * mid < 0x1_0000_0000_0000_0000_0000_0000) by (nonlinear_arith)
                requires
                    0 <= mid < 0x1_0000_0000_0000,
            ;
        }
        if mid * mid <= n {
            lo = mid;
        } else {
            hi = mid;
        }
    }
    lo
}

pub fn fx_sqrt(a: i64) -> (r: i64)
    ensures
        r as int == fsqrt(a as int),
{
    if a <= 0 {
        0
    } else {
        let n: u128 = (a as u128) * 65536;
        let r = isqrt_wide(n);
        proof {
            lemma_sqrt_floor_unique(n as int, r as int);
            assert(r * r <= n);
            assert(r < 0x1_0000_0000_0000) by (nonlinear_arith)
                requires
                    r * r <= n,
                    n < 0x1_0000_0000_0000_0000_0000,
            ;
        }
        r as i64
    }
}

} // verus!
