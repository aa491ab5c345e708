//! Perlin noise: a table of 256 random gradient vectors, indexed through
//! three independently shuffled permutation tables, blended by a smoothed
//! trilinear interpolation. The tables are an explicit immutable value,
//! built once at scene-setup time and threaded through every evaluation, so
//! `noise` and `turbulence` are pure functions of the tables and the point.

use vstd::prelude::*;
use crate::fixed::{FX_ONE, FX_BOUND, fadd, fsub, fmul, fdiv, clip, clamp_one};
use crate::fixed::{fx_add, fx_sub, fx_mul, fx_neg, fx_clamp_one};
use crate::rng::{fx_rand01, shuffle_values};
use crate::vec3::{Vec3, V3, v_dot, v_scale, v_sqlen, v_unit};

verus! {

/// The precomputed noise tables.
pub struct Perlin {
    pub ranvec: Vec<Vec3>,
    pub perm_x: Vec<i32>,
    pub perm_y: Vec<i32>,
    pub perm_z: Vec<i32>,
}

/// A permutation table: 256 entries, each an index below 256.
pub open spec fn perm_wf(p: Seq<i32>) -> bool {
    &&& p.len() == 256
    &&& forall|i: int| 0 <= i < 256 ==> 0 <= #[trigger] p[i] < 256
}

/// A gradient table: 256 vectors with every component in `[-1, 1]`.
pub open spec fn ranvec_wf(v: Seq<Vec3>) -> bool {
    &&& v.len() == 256
    &&& forall|i: int|
        0 <= i < 256 ==> {
            &&& -FX_ONE <= (#[trigger] v[i])@.x <= FX_ONE
            &&& -FX_ONE <= v[i]@.y <= FX_ONE
            &&& -FX_ONE <= v[i]@.z <= FX_ONE
        }
}

impl Perlin {
    pub open spec fn wf(&self) -> bool {
        &&& ranvec_wf(self.ranvec@)
        &&& perm_wf(self.perm_x@)
        &&& perm_wf(self.perm_y@)
        &&& perm_wf(self.perm_z@)
    }

    /// Build the tables: one shuffled identity permutation per axis and 256
    /// random near-unit gradients. Each permutation table holds every index
    /// below 256 exactly once, whatever the shuffle drew.
    pub fn new() -> (r: Perlin)
        ensures
            r.wf(),
            r.perm_x@.to_multiset() == identity_seq(256).to_multiset(),
            r.perm_y@.to_multiset() == identity_seq(256).to_multiset(),
            r.perm_z@.to_multiset() == identity_seq(256).to_multiset(),
            ranvec_near_unit(r.ranvec@),
    {
        Perlin {
            ranvec: perlin_generate(256),
            perm_x: perlin_permutation(256),
            perm_y: perlin_permutation(256),
            perm_z: perlin_permutation(256),
        }
    }
}

/// The identity sequence `0, 1, ..., n-1`.
pub open spec fn identity_seq(n: nat) -> Seq<i32> {
    Seq::new(n, |i: int| i as i32)
}

/// A shuffled copy of `0..n`: same multiset as the identity, so every entry
/// is an index below `n`.
pub fn perlin_permutation(n: usize) -> (r: Vec<i32>)
    requires
        n <= 0x7FFF_FFFF,
    ensures
        r@.len() == n,
        r@.to_multiset() == identity_seq(n as nat).to_multiset(),
        forall|i: int| 0 <= i < n ==> 0 <= #[trigger] r@[i] < n,
{
    let mut p: Vec<i32> = Vec::new();
    let mut i: usize = 0;
    while i < n
        invariant
            i <= n,
            n <= 0x7FFF_FFFF,
            p@.len() == i,
            forall|j: int| 0 <= j < i ==> #[trigger] p@[j] == j as i32,
        decreases n - i,
    {
        p.push(i as i32);
        i = i + 1;
    }
    proof {
        assert(p@ =~= identity_seq(n as nat));
    }
    let ghost init = p@;
    shuffle_values(&mut p);
    proof {
        broadcast use vstd::seq_lib::group_to_multiset_ensures;

        assert(p@.len() == p@.to_multiset().len());
        assert(init.len() == init.to_multiset().len());
        assert forall|k: int| 0 <= k < p@.len() implies 0 <= #[trigger] p@[k] < n by {
            let v = p@[k];
            assert(p@.contains(v));
            assert(p@.to_multiset().count(v) > 0);
            assert(init.contains(v));
            let j = choose|j: int| 0 <= j < init.len() && init[j] == v;
            assert(init[j] == j as i32);
        }
    }
    p
}

/// Squared length within a small band of one: a unit vector up to
/// fixed-point rounding.
pub open spec fn near_unit(g: V3) -> bool {
    FX_ONE - 256 <= v_sqlen(g) <= FX_ONE + 256
}

/// Every gradient in the table is a near-unit vector.
pub open spec fn ranvec_near_unit(v: Seq<Vec3>) -> bool {
    forall|i: int| 0 <= i < v.len() ==> near_unit((#[trigger] v[i])@)
}

/// One gradient: a direction drawn in `[-1, 1)^3`, redrawn while shorter
/// than one half (normalizing such a degenerate draw would not yield a
/// usable direction), then normalized and clamped componentwise into
/// `[-1, 1]`. The positive x axis is the fallback once the retry budget is
/// exhausted.
fn random_gradient() -> (g: Vec3)
    ensures
        -FX_ONE <= g@.x <= FX_ONE,
        -FX_ONE <= g@.y <= FX_ONE,
        -FX_ONE <= g@.z <= FX_ONE,
        near_unit(g@),
{
    let mut tries: usize = 0;
    while tries < 64
        invariant
            tries <= 64,
        decreases 64 - tries,
    {
        let x = 2 * fx_rand01() - FX_ONE;
        let y = 2 * fx_rand01() - FX_ONE;
        let z = 2 * fx_rand01() - FX_ONE;
        let v = Vec3::new(x, y, z);
        if v.squared_length() >= 16384 {
            let u = v.unit_vector();
            let g = Vec3::new(fx_clamp_one(u.x()), fx_clamp_one(u.y()), fx_clamp_one(u.z()));
            proof {
                lemma_normalized_near_unit(x as int, y as int, z as int);
            }
            return g;
        }
        tries = tries + 1;
    }
    let fallback = Vec3::new(FX_ONE, 0, 0);
    proof {
        assert(v_sqlen(fallback@) == FX_ONE);
    }
    fallback
}

/// 256 random gradients, each of near-unit length.
pub fn perlin_generate(n: usize) -> (r: Vec<Vec3>)
    ensures
        r@.len() == n,
        forall|i: int|
            0 <= i < n ==> {
                &&& -FX_ONE <= (#[trigger] r@[i])@.x <= FX_ONE
                &&& -FX_ONE <= r@[i]@.y <= FX_ONE
                &&& -FX_ONE <= r@[i]@.z <= FX_ONE
            },
        ranvec_near_unit(r@),
{
    let mut p: Vec<Vec3> = Vec::new();
    let mut i: usize = 0;
    while i < n
        invariant
            i <= n,
            p@.len() == i,
            forall|j: int|
                0 <= j < i ==> {
                    &&& -FX_ONE <= (#[trigger] p@[j])@.x <= FX_ONE
                    &&& -FX_ONE <= p@[j]@.y <= FX_ONE
                    &&& -FX_ONE <= p@[j]@.z <= FX_ONE
                },
            forall|j: int| 0 <= j < i ==> near_unit((#[trigger] p@[j])@),
        decreases n - i,
    {
        let g = random_gradient();
        p.push(g);
        i = i + 1;
    }
    p
}

/// Euclidean remainder modulo 256, the table-wrapping index.
pub open spec fn mask256(x: int) -> int {
    x % 256
}

fn emod256(x: i64) -> (r: usize)
    ensures
        r as int == mask256(x as int),
        r < 256,
{
    let m = x % 256;
    if m < 0 {
        (m + 256) as usize
    } else {
        m as usize
    }
}

/// The gradient at integer lattice corner `(i, j, k)`: the three permutation
/// tables, one per axis, are combined by exclusive-or.
pub open spec fn corner_gradient(pl: Perlin, i: int, j: int, k: int) -> Vec3
    recommends
        pl.wf(),
{
    let a = pl.perm_x@[mask256(i)];
    let b = pl.perm_y@[mask256(j)];
    let c = pl.perm_z@[mask256(k)];
    pl.ranvec@[(a ^ b ^ c) as int]
}

fn fetch_gradient(pl: &Perlin, i: i64, j: i64, k: i64) -> (g: Vec3)
    requires
        pl.wf(),
    ensures
        g == corner_gradient(*pl, i as int, j as int, k as int),
{
    let a = pl.perm_x[emod256(i)];
    let b = pl.perm_y[emod256(j)];
    let c = pl.perm_z[emod256(k)];
    proof {
        assert(0 <= (a ^ b ^ c) < 256) by (bit_vector)
            requires
                0 <= a < 256,
                0 <= b < 256,
                0 <= c < 256,
        ;
    }
    pl.ranvec[(a ^ b ^ c) as usize]
}

/// Hermite smoothing `t*t*(3 - 2*t)` of a cell offset.
pub open spec fn hermite(t: int) -> int {
    fmul(fmul(t, t), 196608 - 2 * t)
}

fn hermite_exec(t: i64) -> (r: i64)
    requires
        0 <= t < FX_ONE,
    ensures
        r as int == hermite(t as int),
{
    fx_mul(fx_mul(t, t), 196608 - 2 * t)
}

/// One corner's contribution: the trilinear weight for corner `(i, j, k)`
/// times the gradient's dot product with the offset from that corner.
pub open spec fn corner_term(
    g: V3,
    u: int,
    v: int,
    w: int,
    uu: int,
    vv: int,
    ww: int,
    i: int,
    j: int,
    k: int,
) -> int {
    let wx = if i == 1 {
        uu
    } else {
        fsub(FX_ONE as int, uu)
    };
    let wy = if j == 1 {
        vv
    } else {
        fsub(FX_ONE as int, vv)
    };
    let wz = if k == 1 {
        ww
    } else {
        fsub(FX_ONE as int, ww)
    };
    let off = V3 {
        x: fsub(u, i * (FX_ONE as int)),
        y: fsub(v, j * (FX_ONE as int)),
        z: fsub(w, k * (FX_ONE as int)),
    };
    fmul(fmul(fmul(wx, wy), wz), v_dot(g, off))
}

fn corner_term_exec(g: Vec3, u: i64, v: i64, w: i64, uu: i64, vv: i64, ww: i64, ci: i64, cj: i64, ck: i64) -> (r: i64)
    requires
        0 <= ci <= 1,
        0 <= cj <= 1,
        0 <= ck <= 1,
        -FX_BOUND <= u <= FX_BOUND,
        -FX_BOUND <= v <= FX_BOUND,
        -FX_BOUND <= w <= FX_BOUND,
    ensures
        r as int == corner_term(
            g@,
            u as int,
            v as int,
            w as int,
            uu as int,
            vv as int,
            ww as int,
            ci as int,
            cj as int,
            ck as int,
        ),
{
    let wx = if ci == 1 {
        uu
    } else {
        fx_sub(FX_ONE, uu)
    };
    let wy = if cj == 1 {
        vv
    } else {
        fx_sub(FX_ONE, vv)
    };
    let wz = if ck == 1 {
        ww
    } else {
        fx_sub(FX_ONE, ww)
    };
    let off = Vec3::new(fx_sub(u, ci * FX_ONE), fx_sub(v, cj * FX_ONE), fx_sub(w, ck * FX_ONE));
    fx_mul(fx_mul(fx_mul(wx, wy), wz), g.dot(&off))
}

/// Cell index and intra-cell offset of one coordinate: the Euclidean
/// quotient and remainder by one unit.
fn floor_unit(x: i64) -> (r: (i64, i64))
    ensures
        r.0 as int == (x as int) / 65536,
        r.1 as int == (x as int) % 65536,
{
    let q = x / 65536;
    let m = x % 65536;
    if m < 0 {
        (q - 1, m + 65536)
    } else {
        (q, m)
    }
}

/// The noise value at a point: smoothed trilinear blend of the eight corner
/// gradients of the unit cell containing it.
pub open spec fn spec_noise(pl: Perlin, p: V3) -> int
    recommends
        pl.wf(),
{
    let i = p.x / 65536;
    let j = p.y / 65536;
    let k = p.z / 65536;
    let u = p.x % 65536;
    let v = p.y % 65536;
    let w = p.z % 65536;
    let uu = hermite(u);
    let vv = hermite(v);
    let ww = hermite(w);
    let t0 = corner_term(corner_gradient(pl, i, j, k)@, u, v, w, uu, vv, ww, 0, 0, 0);
    let t1 = corner_term(corner_gradient(pl, i, j, k + 1)@, u, v, w, uu, vv, ww, 0, 0, 1);
    let t2 = corner_term(corner_gradient(pl, i, j + 1, k)@, u, v, w, uu, vv, ww, 0, 1, 0);
    let t3 = corner_term(corner_gradient(pl, i, j + 1, k + 1)@, u, v, w, uu, vv, ww, 0, 1, 1);
    let t4 = corner_term(corner_gradient(pl, i + 1, j, k)@, u, v, w, uu, vv, ww, 1, 0, 0);
    let t5 = corner_term(corner_gradient(pl, i + 1, j, k + 1)@, u, v, w, uu, vv, ww, 1, 0, 1);
    let t6 = corner_term(corner_gradient(pl, i + 1, j + 1, k)@, u, v, w, uu, vv, ww, 1, 1, 0);
    let t7 = corner_term(corner_gradient(pl, i + 1, j + 1, k + 1)@, u, v, w, uu, vv, ww, 1, 1, 1);
    fadd(fadd(fadd(fadd(fadd(fadd(fadd(fadd(0, t0), t1), t2), t3), t4), t5), t6), t7)
}

pub fn noise(pl: &Perlin, p: Vec3) -> (r: i64)
    requires
        pl.wf(),
    ensures
        r as int == spec_noise(*pl, p@),
{
    let (i, u) = floor_unit(p.x());
    let (j, v) = floor_unit(p.y());
    let (k, w) = floor_unit(p.z());
    let uu = hermite_exec(u);
    let vv = hermite_exec(v);
    let ww = hermite_exec(w);
    let mut acc: i64 = 0;
    acc = fx_add(acc, corner_term_exec(fetch_gradient(pl, i, j, k), u, v, w, uu, vv, ww, 0, 0, 0));
    acc = fx_add(
        acc,
        corner_term_exec(fetch_gradient(pl, i, j, k + 1), u, v, w, uu, vv, ww, 0, 0, 1),
    );
    acc = fx_add(
        acc,
        corner_term_exec(fetch_gradient(pl, i, j + 1, k), u, v, w, uu, vv, ww, 0, 1, 0),
    );
    acc = fx_add(
        acc,
        corner_term_exec(fetch_gradient(pl, i, j + 1, k + 1), u, v, w, uu, vv, ww, 0, 1, 1),
    );
    acc = fx_add(
        acc,
        corner_term_exec(fetch_gradient(pl, i + 1, j, k), u, v, w, uu, vv, ww, 1, 0, 0),
    );
    acc = fx_add(
        acc,
        corner_term_exec(fetch_gradient(pl, i + 1, j, k + 1), u, v, w, uu, vv, ww, 1, 0, 1),
    );
    acc = fx_add(
        acc,
        corner_term_exec(fetch_gradient(pl, i + 1, j + 1, k), u, v, w, uu, vv, ww, 1, 1, 0),
    );
    acc = fx_add(
        acc,
        corner_term_exec(fetch_gradient(pl, i + 1, j + 1, k + 1), u, v, w, uu, vv, ww, 1, 1, 1),
    );
    acc
}

/// One normalized component: its scaled remainder against the divisor, its
/// magnitude (one plus a few rounding units at most), and how little the
/// final clamp can take off its square.
proof fn lemma_norm_component(a: int, len: int)
    requires
        32768 <= len <= 113511,
        -65536 <= a <= 65536,
        a * a <= len * len + 2 * len + 196608,
    ensures
        -(len + 4) <= a <= len + 4,
        fdiv(a, len) == crate::fixed::tdivs(a * 65536, len),
        -(len - 1) <= a * 65536 - fdiv(a, len) * len <= len - 1,
        -65545 <= fdiv(a, len) <= 65545,
        0 <= fdiv(a, len) * fdiv(a, len) - clamp_one(fdiv(a, len)) * clamp_one(fdiv(a, len))
            <= 1179729,
        -65536 <= clamp_one(fdiv(a, len)) <= 65536,
        0 <= clamp_one(fdiv(a, len)) * clamp_one(fdiv(a, len)) <= 65536 * 65536,
{
    assert(a * a <= (len + 4) * (len + 4)) by (nonlinear_arith)
        requires
            a * a <= len * len + 2 * len + 196608,
            32768 <= len,
    ;
    assert(-(len + 4) <= a <= len + 4) by (nonlinear_arith)
        requires
            a * a <= (len + 4) * (len + 4),
            0 < len + 4,
    ;
    let u = crate::fixed::tdivs(a * 65536, len);
    if a >= 0 {
        vstd::arithmetic::div_mod::lemma_fundamental_div_mod(a * 65536, len);
        vstd::arithmetic::div_mod::lemma_mod_bound(a * 65536, len);
        assert(a * 65536 >= 0) by (nonlinear_arith)
            requires
                a >= 0,
        ;
        assert(u * len == a * 65536 - (a * 65536) % len) by (nonlinear_arith)
            requires
                a * 65536 == len * ((a * 65536) / len) + (a * 65536) % len,
                u == (a * 65536) / len,
        ;
    } else {
        vstd::arithmetic::div_mod::lemma_fundamental_div_mod(-(a * 65536), len);
        vstd::arithmetic::div_mod::lemma_mod_bound(-(a * 65536), len);
        assert(u * len == a * 65536 + (-(a * 65536)) % len) by (nonlinear_arith)
            requires
                -(a * 65536) == len * ((-(a * 65536)) / len) + (-(a * 65536)) % len,
                u == -((-(a * 65536)) / len),
        ;
    }
    assert(-(len - 1) <= a * 65536 - u * len <= len - 1);
    assert(-65545 <= u <= 65545) by (nonlinear_arith)
        requires
            -(len - 1) <= a * 65536 - u * len <= len - 1,
            -(len + 4) <= a <= len + 4,
            32768 <= len,
    ;
    assert(fdiv(a, len) == u);
    let c = clamp_one(u);
    if -65536 <= u <= 65536 {
        assert(c == u);
    } else {
        assert(0 <= u * u - c * c <= 1179729) by (nonlinear_arith)
            requires
                c == if u > 65536 {
                    65536int
                } else {
                    -65536int
                },
                -65545 <= u <= 65545,
                u > 65536 || u < -65536,
        ;
    }
    assert(0 <= c * c <= 65536 * 65536) by (nonlinear_arith)
        requires
            -65536 <= c <= 65536,
    ;
}

/// Normalizing a draw of length at least one half and clamping its
/// components yields a vector whose squared length is one, up to a small
/// band of rounding units.
#[verifier::rlimit(100)]
proof fn lemma_normalized_near_unit(x: int, y: int, z: int)
    requires
        -65536 <= x <= 65536,
        -65536 <= y <= 65536,
        -65536 <= z <= 65536,
        16384 <= v_sqlen(V3 { x, y, z }),
    ensures
        near_unit(
            V3 {
                x: clamp_one(v_unit(V3 { x, y, z }).x),
                y: clamp_one(v_unit(V3 { x, y, z }).y),
                z: clamp_one(v_unit(V3 { x, y, z }).z),
            },
        ),
{
    let v = V3 { x, y, z };
    let q = v_sqlen(v);
    let tx = crate::fixed::tdiv(x * x, 65536);
    let ty = crate::fixed::tdiv(y * y, 65536);
    let tz = crate::fixed::tdiv(z * z, 65536);
    crate::fixed::lemma_tdiv_rem(x * x);
    crate::fixed::lemma_tdiv_rem(y * y);
    crate::fixed::lemma_tdiv_rem(z * z);
    let px = x * x - 65536 * tx;
    let py = y * y - 65536 * ty;
    let pz = z * z - 65536 * tz;
    assert(0 <= x * x <= 65536 * 65536 && 0 <= y * y <= 65536 * 65536 && 0 <= z * z <= 65536
        * 65536) by (nonlinear_arith)
        requires
            -65536 <= x <= 65536,
            -65536 <= y <= 65536,
            -65536 <= z <= 65536,
    ;
    assert(0 <= tx <= 65536 && 0 <= ty <= 65536 && 0 <= tz <= 65536);
    assert(fmul(x, x) == tx && fmul(y, y) == ty && fmul(z, z) == tz);
    assert(q == tx + ty + tz);
    assert(65536 * q == x * x + y * y + z * z - (px + py + pz));
    assert(0 <= px + py + pz <= 196605);

    let len = crate::fixed::fsqrt(q);
    assert(len == crate::fixed::sqrt_floor(q * 65536));
    crate::fixed::lemma_sqrt_floor_bounds(q * 65536);
    assert(len * len <= q * 65536 < (len + 1) * (len + 1));
    assert(16384 * 65536 <= q * 65536 <= 196608 * 65536) by (nonlinear_arith)
        requires
            16384 <= q <= 196608,
    ;
    assert(len >= 32768) by (nonlinear_arith)
        requires
            (len + 1) * (len + 1) > 1073741824,
            len >= 0,
    ;
    assert(len <= 113511) by (nonlinear_arith)
        requires
            len * len <= 12884901888,
            len >= 0,
    ;
    assert(q * 65536 <= len * len + 2 * len) by (nonlinear_arith)
        requires
            q * 65536 < (len + 1) * (len + 1),
            0 <= len,
    ;
    // 65536 * q == Sum of squares - remainders, so each square is bounded.
    assert(x * x <= len * len + 2 * len + 196608);
    assert(y * y <= len * len + 2 * len + 196608);
    assert(z * z <= len * len + 2 * len + 196608);
    lemma_norm_component(x, len);
    lemma_norm_component(y, len);
    lemma_norm_component(z, len);
    let ux = fdiv(x, len);
    let uy = fdiv(y, len);
    let uz = fdiv(z, len);
    assert(v_unit(v).x == ux && v_unit(v).y == uy && v_unit(v).z == uz);
    let rx = x * 65536 - ux * len;
    let ry = y * 65536 - uy * len;
    let rz = z * 65536 - uz * len;
    assert(ux * ux * (len * len) == x * x * (65536 * 65536) - 2 * 65536 * (x * rx) + rx * rx)
        by (nonlinear_arith)
        requires
            ux * len == x * 65536 - rx,
    ;
    assert(uy * uy * (len * len) == y * y * (65536 * 65536) - 2 * 65536 * (y * ry) + ry * ry)
        by (nonlinear_arith)
        requires
            uy * len == y * 65536 - ry,
    ;
    assert(uz * uz * (len * len) == z * z * (65536 * 65536) - 2 * 65536 * (z * rz) + rz * rz)
        by (nonlinear_arith)
        requires
            uz * len == z * 65536 - rz,
    ;
    assert(-(len * len + 3 * len) <= x * rx <= len * len + 3 * len) by (nonlinear_arith)
        requires
            -(len + 4) <= x <= len + 4,
            -(len - 1) <= rx <= len - 1,
            32768 <= len,
    ;
    assert(-(len * len + 3 * len) <= y * ry <= len * len + 3 * len) by (nonlinear_arith)
        requires
            -(len + 4) <= y <= len + 4,
            -(len - 1) <= ry <= len - 1,
            32768 <= len,
    ;
    assert(-(len * len + 3 * len) <= z * rz <= len * len + 3 * len) by (nonlinear_arith)
        requires
            -(len + 4) <= z <= len + 4,
            -(len - 1) <= rz <= len - 1,
            32768 <= len,
    ;
    assert(0 <= rx * rx <= len * len && 0 <= ry * ry <= len * len && 0 <= rz * rz <= len * len)
        by (nonlinear_arith)
        requires
            -(len - 1) <= rx <= len - 1,
            -(len - 1) <= ry <= len - 1,
            -(len - 1) <= rz <= len - 1,
            0 < len,
    ;
    let uu = ux * ux + uy * uy + uz * uz;
    let l2 = len * len;
    assert(uu * l2 == (x * x + y * y + z * z) * 4294967296 - 131072 * (x * rx + y * ry + z * rz)
        + (rx * rx + ry * ry + rz * rz)) by (nonlinear_arith)
        requires
            uu == ux * ux + uy * uy + uz * uz,
            l2 == len * len,
            ux * ux * (len * len) == x * x * (65536 * 65536) - 2 * 65536 * (x * rx) + rx * rx,
            uy * uy * (len * len) == y * y * (65536 * 65536) - 2 * 65536 * (y * ry) + ry * ry,
            uz * uz * (len * len) == z * z * (65536 * 65536) - 2 * 65536 * (z * rz) + rz * rz,
    ;
    // Bound the dominant term by the length bracket.
    assert(x * x + y * y + z * z <= l2 + 2 * len + 196605);
    assert(x * x + y * y + z * z >= l2);
    assert((x * x + y * y + z * z) * 4294967296 <= l2 * 4294967296 + len * 8589934592
        + 844412045230080) by (nonlinear_arith)
        requires
            x * x + y * y + z * z <= l2 + 2 * len + 196605,
    ;
    assert((x * x + y * y + z * z) * 4294967296 >= l2 * 4294967296) by (nonlinear_arith)
        requires
            x * x + y * y + z * z >= l2,
    ;
    assert(-131072 * (x * rx + y * ry + z * rz) <= 393216 * l2 + 1179648 * len)
        by (nonlinear_arith)
        requires
            -(len * len + 3 * len) <= x * rx <= len * len + 3 * len,
            -(len * len + 3 * len) <= y * ry <= len * len + 3 * len,
            -(len * len + 3 * len) <= z * rz <= len * len + 3 * len,
            l2 == len * len,
    ;
    assert(-131072 * (x * rx + y * ry + z * rz) >= -(393216 * l2 + 1179648 * len))
        by (nonlinear_arith)
        requires
            -(len * len + 3 * len) <= x * rx <= len * len + 3 * len,
            -(len * len + 3 * len) <= y * ry <= len * len + 3 * len,
            -(len * len + 3 * len) <= z * rz <= len * len + 3 * len,
            l2 == len * len,
    ;
    assert(0 <= rx * rx + ry * ry + rz * rz <= 3 * l2);
    // Everything but the dominant term fits in forty rounding units of one.
    assert(uu * l2 <= l2 * 4294967296 + len * 8589934592 + 844412045230080 + 393216 * l2 + 1179648
        * len + 3 * l2);
    assert(uu * l2 >= l2 * 4294967296 - 393216 * l2 - 1179648 * len);
    assert(len * 8589934592 + 844412045230080 + 1179648 * len <= 2228221 * l2) by (nonlinear_arith)
        requires
            l2 == len * len,
            32768 <= len <= 113511,
    ;
    assert(393216 * l2 + 1179648 * len <= 458752 * l2) by (nonlinear_arith)
        requires
            l2 == len * len,
            32768 <= len,
    ;
    assert(uu * l2 <= 4297588736 * l2);
    assert(uu * l2 >= 4294508544 * l2);
    assert(uu <= 65536 * 65536 + 40 * 65536) by (nonlinear_arith)
        requires
            uu * l2 <= 4297588736 * l2,
            l2 >= 1,
    ;
    assert(uu >= 65536 * 65536 - 7 * 65536) by (nonlinear_arith)
        requires
            uu * l2 >= 4294508544 * l2,
            l2 >= 1,
    ;

    let cx = clamp_one(ux);
    let cy = clamp_one(uy);
    let cz = clamp_one(uz);
    let cc = cx * cx + cy * cy + cz * cz;
    assert(uu - 3 * 1179729 <= cc <= uu);
    let g = V3 { x: cx, y: cy, z: cz };
    let sx = crate::fixed::tdiv(cx * cx, 65536);
    let sy = crate::fixed::tdiv(cy * cy, 65536);
    let sz = crate::fixed::tdiv(cz * cz, 65536);
    crate::fixed::lemma_tdiv_rem(cx * cx);
    crate::fixed::lemma_tdiv_rem(cy * cy);
    crate::fixed::lemma_tdiv_rem(cz * cz);
    assert(0 <= sx <= 65536 && 0 <= sy <= 65536 && 0 <= sz <= 65536);
    assert(fmul(cx, cx) == sx && fmul(cy, cy) == sy && fmul(cz, cz) == sz);
    assert(v_sqlen(g) == sx + sy + sz);
    assert(65536 * (sx + sy + sz) >= cc - 196605);
    assert(65536 * (sx + sy + sz) <= cc);
    assert(sx + sy + sz >= 65536 - 256) by (nonlinear_arith)
        requires
            65536 * (sx + sy + sz) >= 65536 * 65536 - 7 * 65536 - 3 * 1179729 - 196605,
    ;
    assert(sx + sy + sz <= 65536 + 256) by (nonlinear_arith)
        requires
            65536 * (sx + sy + sz) <= 65536 * 65536 + 40 * 65536,
    ;
}

proof fn lemma_hermite_range(t: int)
    requires
        0 <= t < 65536,
    ensures
        0 <= hermite(t) <= 65536,
{
    let tt = t * t;
    assert(0 <= tt <= 4294967296) by (nonlinear_arith)
        requires
            tt == t * t,
            0 <= t <= 65536,
    ;
    crate::fixed::lemma_tdiv_mono(0, tt, 65536);
    crate::fixed::lemma_tdiv_mono(tt, (65536 * 65536) as int, 65536);
    crate::fixed::lemma_tdiv_scale_exact(65536);
    let a = crate::fixed::tdiv(tt, 65536);
    assert(0 <= a <= 65536);
    assert(fmul(t, t) == a);
    let b2 = 196608 - 2 * t;
    vstd::arithmetic::div_mod::lemma_fundamental_div_mod(tt, 65536);
    vstd::arithmetic::div_mod::lemma_mod_bound(tt, 65536);
    assert(65536 * a <= tt);
    assert(281474976710656 - tt * b2 == (65536 - t) * (65536 - t) * (65536 + 2 * t))
        by (nonlinear_arith)
        requires
            b2 == 196608 - 2 * t,
            tt == t * t,
    ;
    assert((65536 - t) * (65536 - t) * (65536 + 2 * t) >= 0) by (nonlinear_arith)
        requires
            0 <= t < 65536,
    ;
    assert(a * b2 <= 65536 * 65536) by (nonlinear_arith)
        requires
            65536 * a <= tt,
            tt * b2 <= 281474976710656,
            0 <= a,
            65536 < b2 <= 196608,
            0 <= tt,
    ;
    assert(a * b2 >= 0) by (nonlinear_arith)
        requires
            0 <= a,
            0 < b2,
    ;
    crate::fixed::lemma_tdiv_mono(0, a * b2, 65536);
    crate::fixed::lemma_tdiv_mono(a * b2, (65536 * 65536) as int, 65536);
}

/// The trilinear weight factors are unit fractions, and two that share the
/// remaining factors sum below that factor.
proof fn lemma_fmul_pair(a1: int, a2: int, b: int)
    requires
        0 <= a1,
        0 <= a2,
        a1 + a2 == 65536,
        0 <= b <= 65536,
    ensures
        0 <= fmul(a1, b),
        0 <= fmul(a2, b),
        fmul(a1, b) + fmul(a2, b) <= b,
        fmul(a1, b) <= 65536,
        fmul(a2, b) <= 65536,
{
    assert(0 <= a1 * b && 0 <= a2 * b && a1 * b + a2 * b == 65536 * b && a1 * b <= 65536 * 65536
        && a2 * b <= 65536 * 65536) by (nonlinear_arith)
        requires
            0 <= a1,
            0 <= a2,
            a1 + a2 == 65536,
            0 <= b <= 65536,
    ;
    crate::fixed::lemma_floor_add(a1 * b, a2 * b);
    crate::fixed::lemma_tdiv_scale_exact(b);
    crate::fixed::lemma_tdiv_mono(0, a1 * b, 65536);
    crate::fixed::lemma_tdiv_mono(0, a2 * b, 65536);
    crate::fixed::lemma_tdiv_mono(a1 * b, (65536 * 65536) as int, 65536);
    crate::fixed::lemma_tdiv_mono(a2 * b, (65536 * 65536) as int, 65536);
    crate::fixed::lemma_tdiv_scale_exact(65536);
}

/// Four nonnegative weights that sum below one keep their scaled sum below
/// the common factor.
proof fn lemma_fmul_sum4(m1: int, m2: int, m3: int, m4: int, b: int)
    requires
        0 <= m1,
        0 <= m2,
        0 <= m3,
        0 <= m4,
        m1 + m2 + m3 + m4 <= 65536,
        0 <= b <= 65536,
    ensures
        0 <= fmul(m1, b),
        0 <= fmul(m2, b),
        0 <= fmul(m3, b),
        0 <= fmul(m4, b),
        fmul(m1, b) + fmul(m2, b) + fmul(m3, b) + fmul(m4, b) <= b,
{
    assert(0 <= m1 * b && 0 <= m2 * b && 0 <= m3 * b && 0 <= m4 * b && m1 * b + m2 * b + m3 * b
        + m4 * b == (m1 + m2 + m3 + m4) * b && (m1 + m2 + m3 + m4) * b <= 65536 * b && m1 * b
        <= 65536 * 65536 && m2 * b <= 65536 * 65536 && m3 * b <= 65536 * 65536 && m4 * b <= 65536
        * 65536) by (nonlinear_arith)
        requires
            0 <= m1,
            0 <= m2,
            0 <= m3,
            0 <= m4,
            m1 + m2 + m3 + m4 <= 65536,
            0 <= b <= 65536,
    ;
    crate::fixed::lemma_floor_add(m1 * b, m2 * b);
    crate::fixed::lemma_floor_add(m3 * b, m4 * b);
    crate::fixed::lemma_floor_add(m1 * b + m2 * b, m3 * b + m4 * b);
    crate::fixed::lemma_tdiv_mono(m1 * b + m2 * b + m3 * b + m4 * b, 65536 * b, 65536);
    crate::fixed::lemma_tdiv_scale_exact(b);
    crate::fixed::lemma_tdiv_mono(0, m1 * b, 65536);
    crate::fixed::lemma_tdiv_mono(0, m2 * b, 65536);
    crate::fixed::lemma_tdiv_mono(0, m3 * b, 65536);
    crate::fixed::lemma_tdiv_mono(0, m4 * b, 65536);
    crate::fixed::lemma_tdiv_mono(m1 * b, (65536 * 65536) as int, 65536);
    crate::fixed::lemma_tdiv_mono(m2 * b, (65536 * 65536) as int, 65536);
    crate::fixed::lemma_tdiv_mono(m3 * b, (65536 * 65536) as int, 65536);
    crate::fixed::lemma_tdiv_mono(m4 * b, (65536 * 65536) as int, 65536);
    crate::fixed::lemma_tdiv_scale_exact(65536);
}

/// A unit-bounded product stays unit-bounded.
proof fn lemma_fmul_unit(a: int, b: int)
    requires
        -65536 <= a <= 65536,
        -65536 <= b <= 65536,
    ensures
        -65536 <= fmul(a, b) <= 65536,
{
    assert(-4294967296 <= a * b <= 4294967296) by (nonlinear_arith)
        requires
            -65536 <= a <= 65536,
            -65536 <= b <= 65536,
    ;
    crate::fixed::lemma_tdiv_mono(a * b, (65536 * 65536) as int, 65536);
    crate::fixed::lemma_tdiv_mono(-(65536 * 65536), a * b, 65536);
    crate::fixed::lemma_tdiv_scale_exact(65536);
    assert(crate::fixed::tdiv(-(65536 * 65536), 65536) == -65536);
}

/// A corner's weighted contribution is at most three times its weight in
/// magnitude.
proof fn lemma_term_bound(w: int, d: int)
    requires
        0 <= w <= 65536,
        -196608 <= d <= 196608,
    ensures
        -3 * w <= fmul(w, d) <= 3 * w,
{
    assert(-(196608 * w) <= w * d <= 196608 * w) by (nonlinear_arith)
        requires
            0 <= w,
            -196608 <= d <= 196608,
    ;
    assert(196608 * w == 65536 * (3 * w));
    crate::fixed::lemma_tdiv_scale_exact(3 * w);
    crate::fixed::lemma_tdiv_mono(w * d, 65536 * (3 * w), 65536);
    crate::fixed::lemma_tdiv_mono(-(65536 * (3 * w)), w * d, 65536);
    assert(crate::fixed::tdiv(-(65536 * (3 * w)), 65536) == -(3 * w));
}

/// The dot of a unit-bounded gradient with a unit-bounded offset.
proof fn lemma_dot_bound(g: V3, o: V3)
    requires
        -65536 <= g.x <= 65536,
        -65536 <= g.y <= 65536,
        -65536 <= g.z <= 65536,
        -65536 <= o.x <= 65536,
        -65536 <= o.y <= 65536,
        -65536 <= o.z <= 65536,
    ensures
        -196608 <= v_dot(g, o) <= 196608,
{
    lemma_fmul_unit(g.x, o.x);
    lemma_fmul_unit(g.y, o.y);
    lemma_fmul_unit(g.z, o.z);
}

/// The gradient fetched for any lattice corner is a table entry, so its
/// components are unit bounded.
proof fn lemma_gradient_bounds(pl: Perlin, i: int, j: int, k: int)
    requires
        pl.wf(),
    ensures
        -65536 <= corner_gradient(pl, i, j, k)@.x <= 65536,
        -65536 <= corner_gradient(pl, i, j, k)@.y <= 65536,
        -65536 <= corner_gradient(pl, i, j, k)@.z <= 65536,
{
    vstd::arithmetic::div_mod::lemma_mod_bound(i, 256);
    vstd::arithmetic::div_mod::lemma_mod_bound(j, 256);
    vstd::arithmetic::div_mod::lemma_mod_bound(k, 256);
    let a = pl.perm_x@[mask256(i)];
    let b = pl.perm_y@[mask256(j)];
    let c = pl.perm_z@[mask256(k)];
    assert(0 <= a < 256);
    assert(0 <= b < 256);
    assert(0 <= c < 256);
    assert(0 <= (a ^ b ^ c) < 256) by (bit_vector)
        requires
            0 <= a < 256,
            0 <= b < 256,
            0 <= c < 256,
    ;
}

/// The noise value lies in a fixed band: at most three units in magnitude,
/// whatever the point. (The empirical range is one unit. The bound here
/// goes componentwise through the corner dot products, which costs a
/// factor of three; the gradients' near-unit length would tighten it only
/// via a fixed-point Cauchy-Schwarz argument, and no further than the
/// diagonal of the unit cell.)
#[verifier::rlimit(100)]
pub proof fn lemma_noise_bounded(pl: Perlin, p: V3)
    requires
        pl.wf(),
    ensures
        -196608 <= spec_noise(pl, p) <= 196608,
{
    let i = p.x / 65536;
    let j = p.y / 65536;
    let k = p.z / 65536;
    let u = p.x % 65536;
    let v = p.y % 65536;
    let w = p.z % 65536;
    vstd::arithmetic::div_mod::lemma_mod_bound(p.x, 65536);
    vstd::arithmetic::div_mod::lemma_mod_bound(p.y, 65536);
    vstd::arithmetic::div_mod::lemma_mod_bound(p.z, 65536);
    let uu = hermite(u);
    let vv = hermite(v);
    let ww = hermite(w);
    lemma_hermite_range(u);
    lemma_hermite_range(v);
    lemma_hermite_range(w);
    let a0 = fsub(FX_ONE as int, uu);
    let a1 = uu;
    let b0 = fsub(FX_ONE as int, vv);
    let b1 = vv;
    let c0 = fsub(FX_ONE as int, ww);
    let c1 = ww;
    assert(a0 + a1 == 65536 && b0 + b1 == 65536 && c0 + c1 == 65536);

    let m00 = fmul(a0, b0);
    let m01 = fmul(a0, b1);
    let m10 = fmul(a1, b0);
    let m11 = fmul(a1, b1);
    lemma_fmul_pair(a0, a1, b0);
    lemma_fmul_pair(a0, a1, b1);
    assert(m00 + m10 <= b0);
    assert(m01 + m11 <= b1);
    assert(m00 + m01 + m10 + m11 <= 65536);

    let w000 = fmul(m00, c0);
    let w001 = fmul(m00, c1);
    let w010 = fmul(m01, c0);
    let w011 = fmul(m01, c1);
    let w100 = fmul(m10, c0);
    let w101 = fmul(m10, c1);
    let w110 = fmul(m11, c0);
    let w111 = fmul(m11, c1);
    lemma_fmul_sum4(m00, m01, m10, m11, c0);
    lemma_fmul_sum4(m00, m01, m10, m11, c1);
    assert(w000 + w010 + w100 + w110 <= c0);
    assert(w001 + w011 + w101 + w111 <= c1);
    lemma_fmul_unit(m00, c0);
    lemma_fmul_unit(m00, c1);
    lemma_fmul_unit(m01, c0);
    lemma_fmul_unit(m01, c1);
    lemma_fmul_unit(m10, c0);
    lemma_fmul_unit(m10, c1);
    lemma_fmul_unit(m11, c0);
    lemma_fmul_unit(m11, c1);

    let o0 = u;
    let o1 = fsub(u, 65536);
    let q0 = v;
    let q1 = fsub(v, 65536);
    let s0 = w;
    let s1 = fsub(w, 65536);
    assert(-65536 <= o1 <= 0 && -65536 <= q1 <= 0 && -65536 <= s1 <= 0);

    let g000 = corner_gradient(pl, i, j, k)@;
    let g001 = corner_gradient(pl, i, j, k + 1)@;
    let g010 = corner_gradient(pl, i, j + 1, k)@;
    let g011 = corner_gradient(pl, i, j + 1, k + 1)@;
    let g100 = corner_gradient(pl, i + 1, j, k)@;
    let g101 = corner_gradient(pl, i + 1, j, k + 1)@;
    let g110 = corner_gradient(pl, i + 1, j + 1, k)@;
    let g111 = corner_gradient(pl, i + 1, j + 1, k + 1)@;
    lemma_gradient_bounds(pl, i, j, k);
    lemma_gradient_bounds(pl, i, j, k + 1);
    lemma_gradient_bounds(pl, i, j + 1, k);
    lemma_gradient_bounds(pl, i, j + 1, k + 1);
    lemma_gradient_bounds(pl, i + 1, j, k);
    lemma_gradient_bounds(pl, i + 1, j, k + 1);
    lemma_gradient_bounds(pl, i + 1, j + 1, k);
    lemma_gradient_bounds(pl, i + 1, j + 1, k + 1);
    lemma_dot_bound(g000, V3 { x: o0, y: q0, z: s0 });
    lemma_dot_bound(g001, V3 { x: o0, y: q0, z: s1 });
    lemma_dot_bound(g010, V3 { x: o0, y: q1, z: s0 });
    lemma_dot_bound(g011, V3 { x: o0, y: q1, z: s1 });
    lemma_dot_bound(g100, V3 { x: o1, y: q0, z: s0 });
    lemma_dot_bound(g101, V3 { x: o1, y: q0, z: s1 });
    lemma_dot_bound(g110, V3 { x: o1, y: q1, z: s0 });
    lemma_dot_bound(g111, V3 { x: o1, y: q1, z: s1 });

    let t0 = corner_term(g000, u, v, w, uu, vv, ww, 0, 0, 0);
    let t1 = corner_term(g001, u, v, w, uu, vv, ww, 0, 0, 1);
    let t2 = corner_term(g010, u, v, w, uu, vv, ww, 0, 1, 0);
    let t3 = corner_term(g011, u, v, w, uu, vv, ww, 0, 1, 1);
    let t4 = corner_term(g100, u, v, w, uu, vv, ww, 1, 0, 0);
    let t5 = corner_term(g101, u, v, w, uu, vv, ww, 1, 0, 1);
    let t6 = corner_term(g110, u, v, w, uu, vv, ww, 1, 1, 0);
    let t7 = corner_term(g111, u, v, w, uu, vv, ww, 1, 1, 1);
    assert(t0 == fmul(w000, v_dot(g000, V3 { x: o0, y: q0, z: s0 })));
    assert(t1 == fmul(w001, v_dot(g001, V3 { x: o0, y: q0, z: s1 })));
    assert(t2 == fmul(w010, v_dot(g010, V3 { x: o0, y: q1, z: s0 })));
    assert(t3 == fmul(w011, v_dot(g011, V3 { x: o0, y: q1, z: s1 })));
    assert(t4 == fmul(w100, v_dot(g100, V3 { x: o1, y: q0, z: s0 })));
    assert(t5 == fmul(w101, v_dot(g101, V3 { x: o1, y: q0, z: s1 })));
    assert(t6 == fmul(w110, v_dot(g110, V3 { x: o1, y: q1, z: s0 })));
    assert(t7 == fmul(w111, v_dot(g111, V3 { x: o1, y: q1, z: s1 })));
    lemma_term_bound(w000, v_dot(g000, V3 { x: o0, y: q0, z: s0 }));
    lemma_term_bound(w001, v_dot(g001, V3 { x: o0, y: q0, z: s1 }));
    lemma_term_bound(w010, v_dot(g010, V3 { x: o0, y: q1, z: s0 }));
    lemma_term_bound(w011, v_dot(g011, V3 { x: o0, y: q1, z: s1 }));
    lemma_term_bound(w100, v_dot(g100, V3 { x: o1, y: q0, z: s0 }));
    lemma_term_bound(w101, v_dot(g101, V3 { x: o1, y: q0, z: s1 }));
    lemma_term_bound(w110, v_dot(g110, V3 { x: o1, y: q1, z: s0 }));
    lemma_term_bound(w111, v_dot(g111, V3 { x: o1, y: q1, z: s1 }));
    assert(-196608 <= t0 + t1 + t2 + t3 + t4 + t5 + t6 + t7 <= 196608);
    assert(spec_noise(pl, p) == fadd(
        fadd(fadd(fadd(fadd(fadd(fadd(fadd(0, t0), t1), t2), t3), t4), t5), t6),
        t7,
    ));
}

/// The running state of the octave sum: each octave adds the noise at `p`
/// weighted by `w`, then doubles the frequency and halves the weight.
pub open spec fn turb_iter(pl: Perlin, p: V3, w: int, acc: int, depth: nat) -> int
    recommends
        pl.wf(),
    decreases depth,
{
    if depth == 0 {
        acc
    } else {
        turb_iter(
            pl,
            v_scale(p, 131072),
            fmul(w, 32768),
            fadd(acc, fmul(spec_noise(pl, p), w)),
            (depth - 1) as nat,
        )
    }
}

/// Multi-octave turbulence: the absolute value of the octave sum.
pub open spec fn spec_turbulence(pl: Perlin, p: V3, depth: nat) -> int
    recommends
        pl.wf(),
{
    let t = turb_iter(pl, p, FX_ONE as int, 0, depth);
    if t >= 0 {
        t
    } else {
        clip(-t)
    }
}

pub fn turbulence(pl: &Perlin, p: Vec3, depth: usize) -> (r: i64)
    requires
        pl.wf(),
    ensures
        r as int == spec_turbulence(*pl, p@, depth as nat),
        r >= 0,
{
    let mut q = p;
    let mut weight: i64 = FX_ONE;
    let mut acc: i64 = 0;
    let mut oct: usize = 0;
    while oct < depth
        invariant
            pl.wf(),
            oct <= depth,
            turb_iter(*pl, p@, FX_ONE as int, 0, depth as nat) == turb_iter(
                *pl,
                q@,
                weight as int,
                acc as int,
                (depth - oct) as nat,
            ),
        decreases depth - oct,
    {
        acc = fx_add(acc, fx_mul(noise(pl, q), weight));
        weight = fx_mul(weight, 32768);
        q = q.scale(131072);
        oct = oct + 1;
    }
    if acc < 0 {
        fx_neg(acc)
    } else {
        acc
    }
}

} // verus!
