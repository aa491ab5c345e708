//! Rotation about the y axis: rays are rotated into the surface's local
//! frame by a fixed angle whose sine and cosine are computed once at
//! construction, and hit points and normals are rotated back. The box is
//! computed at construction by rotating all eight corners of the child's
//! box and enclosing them.

use vstd::prelude::*;
use crate::aabb::{AABB, AabbV};
use crate::fixed::{FX_ONE, fadd, fsub, fmul, fmin, fmax, clip};
use crate::fixed::{fx_add, fx_sub, fx_mul, fx_min, fx_max, fx_neg};
use crate::hittable::{Surface, spec_bbox, bbox_model};
use crate::trig::{DEG_TO_RAD_FX, fsin, fcos, fx_sin, fx_cos};
use crate::vec3::{Vec3, V3};

verus! {

pub struct RotateY {
    pub hittable: Box<Surface>,
    pub sin_theta: i64,
    pub cos_theta: i64,
    pub bbox: Option<AABB>,
}

/// Rotation about the y axis with the given cosine and sine.
pub open spec fn rot_y(cs: int, sn: int, v: V3) -> V3 {
    V3 {
        x: fsub(fmul(cs, v.x), fmul(sn, v.z)),
        y: v.y,
        z: fadd(fmul(sn, v.x), fmul(cs, v.z)),
    }
}

pub fn rot_y_exec(cs: i64, sn: i64, v: Vec3) -> (r: Vec3)
    ensures
        r@ == rot_y(cs as int, sn as int, v@),
{
    Vec3::new(
        fx_sub(fx_mul(cs, v.x()), fx_mul(sn, v.z())),
        v.y(),
        fx_add(fx_mul(sn, v.x()), fx_mul(cs, v.z())),
    )
}

pub open spec fn min8(a: int, b: int, c: int, d: int, e: int, f: int, g: int, h: int) -> int {
    fmin(a, fmin(b, fmin(c, fmin(d, fmin(e, fmin(f, fmin(g, h)))))))
}

pub open spec fn max8(a: int, b: int, c: int, d: int, e: int, f: int, g: int, h: int) -> int {
    fmax(a, fmax(b, fmax(c, fmax(d, fmax(e, fmax(f, fmax(g, h)))))))
}

/// The axis-aligned enclosure of a box rotated back into world frame: the
/// rotation by the angle's inverse applied to all eight corners.
pub open spec fn rotate_box(cs: int, sn: int, b: AabbV) -> AabbV {
    let nsn = clip(-sn);
    let c0 = rot_y(cs, nsn, V3 { x: b.min.x, y: b.min.y, z: b.min.z });
    let c1 = rot_y(cs, nsn, V3 { x: b.min.x, y: b.min.y, z: b.max.z });
    let c2 = rot_y(cs, nsn, V3 { x: b.min.x, y: b.max.y, z: b.min.z });
    let c3 = rot_y(cs, nsn, V3 { x: b.min.x, y: b.max.y, z: b.max.z });
    let c4 = rot_y(cs, nsn, V3 { x: b.max.x, y: b.min.y, z: b.min.z });
    let c5 = rot_y(cs, nsn, V3 { x: b.max.x, y: b.min.y, z: b.max.z });
    let c6 = rot_y(cs, nsn, V3 { x: b.max.x, y: b.max.y, z: b.min.z });
    let c7 = rot_y(cs, nsn, V3 { x: b.max.x, y: b.max.y, z: b.max.z });
    AabbV {
        min: V3 {
            x: min8(c0.x, c1.x, c2.x, c3.x, c4.x, c5.x, c6.x, c7.x),
            y: min8(c0.y, c1.y, c2.y, c3.y, c4.y, c5.y, c6.y, c7.y),
            z: min8(c0.z, c1.z, c2.z, c3.z, c4.z, c5.z, c6.z, c7.z),
        },
        max: V3 {
            x: max8(c0.x, c1.x, c2.x, c3.x, c4.x, c5.x, c6.x, c7.x),
            y: max8(c0.y, c1.y, c2.y, c3.y, c4.y, c5.y, c6.y, c7.y),
            z: max8(c0.z, c1.z, c2.z, c3.z, c4.z, c5.z, c6.z, c7.z),
        },
    }
}

fn fx_min8(a: i64, b: i64, c: i64, d: i64, e: i64, f: i64, g: i64, h: i64) -> (r: i64)
    ensures
        r as int == min8(
            a as int,
            b as int,
            c as int,
            d as int,
            e as int,
            f as int,
            g as int,
            h as int,
        ),
{
    fx_min(a, fx_min(b, fx_min(c, fx_min(d, fx_min(e, fx_min(f, fx_min(g, h)))))))
}

fn fx_max8(a: i64, b: i64, c: i64, d: i64, e: i64, f: i64, g: i64, h: i64) -> (r: i64)
    ensures
        r as int == max8(
            a as int,
            b as int,
            c as int,
            d as int,
            e as int,
            f as int,
            g as int,
            h as int,
        ),
{
    fx_max(a, fx_max(b, fx_max(c, fx_max(d, fx_max(e, fx_max(f, fx_max(g, h)))))))
}

pub(crate) fn rotate_box_exec(cs: i64, sn: i64, b: &AABB) -> (r: AABB)
    ensures
        r@ == rotate_box(cs as int, sn as int, b@),
{
    let nsn = fx_neg(sn);
    let c0 = rot_y_exec(cs, nsn, Vec3::new(b.min.x(), b.min.y(), b.min.z()));
    let c1 = rot_y_exec(cs, nsn, Vec3::new(b.min.x(), b.min.y(), b.max.z()));
    let c2 = rot_y_exec(cs, nsn, Vec3::new(b.min.x(), b.max.y(), b.min.z()));
    let c3 = rot_y_exec(cs, nsn, Vec3::new(b.min.x(), b.max.y(), b.max.z()));
    let c4 = rot_y_exec(cs, nsn, Vec3::new(b.max.x(), b.min.y(), b.min.z()));
    let c5 = rot_y_exec(cs, nsn, Vec3::new(b.max.x(), b.min.y(), b.max.z()));
    let c6 = rot_y_exec(cs, nsn, Vec3::new(b.max.x(), b.max.y(), b.min.z()));
    let c7 = rot_y_exec(cs, nsn, Vec3::new(b.max.x(), b.max.y(), b.max.z()));
    AABB::new(
        Vec3::new(
            fx_min8(c0.x(), c1.x(), c2.x(), c3.x(), c4.x(), c5.x(), c6.x(), c7.x()),
            fx_min8(c0.y(), c1.y(), c2.y(), c3.y(), c4.y(), c5.y(), c6.y(), c7.y()),
            fx_min8(c0.z(), c1.z(), c2.z(), c3.z(), c4.z(), c5.z(), c6.z(), c7.z()),
        ),
        Vec3::new(
            fx_max8(c0.x(), c1.x(), c2.x(), c3.x(), c4.x(), c5.x(), c6.x(), c7.x()),
            fx_max8(c0.y(), c1.y(), c2.y(), c3.y(), c4.y(), c5.y(), c6.y(), c7.y()),
            fx_max8(c0.z(), c1.z(), c2.z(), c3.z(), c4.z(), c5.z(), c6.z(), c7.z()),
        ),
    )
}

proof fn lemma_tdiv_err(q: int)
    ensures
        -65535 <= q - 65536 * crate::fixed::tdiv(q, 65536) <= 65535,
        65536 * crate::fixed::tdiv(q, 65536) == q - (q - 65536 * crate::fixed::tdiv(q, 65536)),
{
    if q >= 0 {
        vstd::arithmetic::div_mod::lemma_fundamental_div_mod(q, 65536);
    } else {
        vstd::arithmetic::div_mod::lemma_fundamental_div_mod(-q, 65536);
    }
}

/// A scaled product of bounded factors stays bounded.
proof fn lemma_tdiv_prod_bound(a: int, b: int, m: int)
    requires
        -65536 <= a <= 65536,
        -m <= b <= m,
        0 < m,
    ensures
        -m <= crate::fixed::tdiv(a * b, 65536) <= m,
{
    let p = a * b;
    lemma_tdiv_err(p);
    let t = crate::fixed::tdiv(p, 65536);
    assert(-m <= t <= m) by (nonlinear_arith)
        requires
            -65536 <= a <= 65536,
            -m <= b <= m,
            0 < m,
            p == a * b,
            -65535 <= p - 65536 * t <= 65535,
    ;
}

/// Rotating a point into the rotated surface's frame and back multiplies
/// the horizontal components by `cs*cs + sn*sn` (one, up to `drift`) and
/// adds at most six units of rounding in the last place: with an exact
/// sine/cosine pair the hit point comes back within tolerance, and the
/// vertical component comes back exactly.
pub proof fn lemma_rotate_round_trip(cs: int, sn: int, v: V3, m: int, drift: int)
    requires
        -65536 <= cs <= 65536,
        -65536 <= sn <= 65536,
        -m <= v.x <= m,
        -m <= v.z <= m,
        0 < m <= 0x1000_0000_0000,
        -drift <= cs * cs + sn * sn - 4294967296 <= drift,
        0 <= drift,
    ensures
        rot_y(cs, clip(-sn), rot_y(cs, sn, v)).y == v.y,
        -(drift * m + 25769803776) <= 4294967296 * (rot_y(cs, clip(-sn), rot_y(
            cs,
            sn,
            v,
        )).x - v.x) <= drift * m + 25769803776,
        -(drift * m + 25769803776) <= 4294967296 * (rot_y(cs, clip(-sn), rot_y(
            cs,
            sn,
            v,
        )).z - v.z) <= drift * m + 25769803776,
{
    let p1 = cs * v.x;
    let p2 = sn * v.z;
    let p3 = sn * v.x;
    let p4 = cs * v.z;
    lemma_tdiv_err(p1);
    lemma_tdiv_err(p2);
    lemma_tdiv_err(p3);
    lemma_tdiv_err(p4);
    lemma_tdiv_prod_bound(cs, v.x, m);
    lemma_tdiv_prod_bound(sn, v.z, m);
    lemma_tdiv_prod_bound(sn, v.x, m);
    lemma_tdiv_prod_bound(cs, v.z, m);
    let e1 = p1 - 65536 * crate::fixed::tdiv(p1, 65536);
    let e2 = p2 - 65536 * crate::fixed::tdiv(p2, 65536);
    let e3 = p3 - 65536 * crate::fixed::tdiv(p3, 65536);
    let e4 = p4 - 65536 * crate::fixed::tdiv(p4, 65536);
    let w = rot_y(cs, sn, v);
    assert(w.x == crate::fixed::tdiv(p1, 65536) - crate::fixed::tdiv(p2, 65536));
    assert(w.z == crate::fixed::tdiv(p3, 65536) + crate::fixed::tdiv(p4, 65536));
    assert(65536 * w.x == p1 - p2 - e1 + e2);
    assert(65536 * w.z == p3 + p4 - e3 - e4);
    assert(-2 * m <= w.x <= 2 * m);
    assert(-2 * m <= w.z <= 2 * m);

    let q1 = cs * w.x;
    let q2 = (-sn) * w.z;
    let q3 = (-sn) * w.x;
    let q4 = cs * w.z;
    lemma_tdiv_err(q1);
    lemma_tdiv_err(q2);
    lemma_tdiv_err(q3);
    lemma_tdiv_err(q4);
    lemma_tdiv_prod_bound(cs, w.x, 2 * m);
    lemma_tdiv_prod_bound(-sn, w.z, 2 * m);
    lemma_tdiv_prod_bound(-sn, w.x, 2 * m);
    lemma_tdiv_prod_bound(cs, w.z, 2 * m);
    let e5 = q1 - 65536 * crate::fixed::tdiv(q1, 65536);
    let e6 = q2 - 65536 * crate::fixed::tdiv(q2, 65536);
    let e7 = q3 - 65536 * crate::fixed::tdiv(q3, 65536);
    let e8 = q4 - 65536 * crate::fixed::tdiv(q4, 65536);
    let b = rot_y(cs, clip(-sn), w);
    assert(b.y == v.y);
    assert(b.x == crate::fixed::tdiv(q1, 65536) - crate::fixed::tdiv(q2, 65536));
    assert(b.z == crate::fixed::tdiv(q3, 65536) + crate::fixed::tdiv(q4, 65536));
    assert(65536 * b.x == q1 - q2 - e5 + e6);
    assert(65536 * b.z == q3 + q4 - e7 - e8);

    assert(65536 * q1 == cs * p1 - cs * p2 - cs * e1 + cs * e2) by (nonlinear_arith)
        requires
            q1 == cs * w.x,
            65536 * w.x == p1 - p2 - e1 + e2,
    ;
    assert(65536 * q2 == -(sn * p3) - sn * p4 + sn * e3 + sn * e4) by (nonlinear_arith)
        requires
            q2 == (-sn) * w.z,
            65536 * w.z == p3 + p4 - e3 - e4,
    ;
    assert(65536 * q3 == -(sn * p1) + sn * p2 + sn * e1 - sn * e2) by (nonlinear_arith)
        requires
            q3 == (-sn) * w.x,
            65536 * w.x == p1 - p2 - e1 + e2,
    ;
    assert(65536 * q4 == cs * p3 + cs * p4 - cs * e3 - cs * e4) by (nonlinear_arith)
        requires
            q4 == cs * w.z,
            65536 * w.z == p3 + p4 - e3 - e4,
    ;
    assert(cs * p1 + sn * p3 == (cs * cs + sn * sn) * v.x) by (nonlinear_arith)
        requires
            p1 == cs * v.x,
            p3 == sn * v.x,
    ;
    assert(cs * p2 == sn * p4) by (nonlinear_arith)
        requires
            p2 == sn * v.z,
            p4 == cs * v.z,
    ;
    assert(sn * p2 + cs * p4 == (cs * cs + sn * sn) * v.z) by (nonlinear_arith)
        requires
            p2 == sn * v.z,
            p4 == cs * v.z,
    ;
    assert(sn * p1 == cs * p3) by (nonlinear_arith)
        requires
            p1 == cs * v.x,
            p3 == sn * v.x,
    ;
    assert(4294967296 * b.x == 65536 * q1 - 65536 * q2 - 65536 * e5 + 65536 * e6);
    assert(4294967296 * b.z == 65536 * q3 + 65536 * q4 - 65536 * e7 - 65536 * e8);
    assert(4294967296 * b.x == (cs * cs + sn * sn) * v.x - cs * e1 + cs * e2 - sn * e3 - sn * e4
        - 65536 * e5 + 65536 * e6);
    assert(4294967296 * b.z == (cs * cs + sn * sn) * v.z + sn * e1 - sn * e2 - cs * e3 - cs * e4
        - 65536 * e7 - 65536 * e8);
    assert(-(drift * m) <= (cs * cs + sn * sn) * v.x - 4294967296 * v.x <= drift * m)
        by (nonlinear_arith)
        requires
            -drift <= cs * cs + sn * sn - 4294967296 <= drift,
            -m <= v.x <= m,
            0 <= drift,
    ;
    assert(-(drift * m) <= (cs * cs + sn * sn) * v.z - 4294967296 * v.z <= drift * m)
        by (nonlinear_arith)
        requires
            -drift <= cs * cs + sn * sn - 4294967296 <= drift,
            -m <= v.z <= m,
            0 <= drift,
    ;
    assert(-4294901760 <= cs * e1 <= 4294901760) by (nonlinear_arith)
        requires
            -65536 <= cs <= 65536,
            -65535 <= e1 <= 65535,
    ;
    assert(-4294901760 <= cs * e2 <= 4294901760) by (nonlinear_arith)
        requires
            -65536 <= cs <= 65536,
            -65535 <= e2 <= 65535,
    ;
    assert(-4294901760 <= cs * e3 <= 4294901760) by (nonlinear_arith)
        requires
            -65536 <= cs <= 65536,
            -65535 <= e3 <= 65535,
    ;
    assert(-4294901760 <= cs * e4 <= 4294901760) by (nonlinear_arith)
        requires
            -65536 <= cs <= 65536,
            -65535 <= e4 <= 65535,
    ;
    assert(-4294901760 <= sn * e1 <= 4294901760) by (nonlinear_arith)
        requires
            -65536 <= sn <= 65536,
            -65535 <= e1 <= 65535,
    ;
    assert(-4294901760 <= sn * e2 <= 4294901760) by (nonlinear_arith)
        requires
            -65536 <= sn <= 65536,
            -65535 <= e2 <= 65535,
    ;
    assert(-4294901760 <= sn * e3 <= 4294901760) by (nonlinear_arith)
        requires
            -65536 <= sn <= 65536,
            -65535 <= e3 <= 65535,
    ;
    assert(-4294901760 <= sn * e4 <= 4294901760) by (nonlinear_arith)
        requires
            -65536 <= sn <= 65536,
            -65535 <= e4 <= 65535,
    ;
}

impl RotateY {
    /// Wrap a surface rotated by `angle` degrees about the y axis.
    pub fn new(hittable: Surface, angle: i64) -> (r: RotateY)
        ensures
            *r.hittable == hittable,
            r.sin_theta as int == fsin(fmul(angle as int, DEG_TO_RAD_FX as int)),
            r.cos_theta as int == fcos(fmul(angle as int, DEG_TO_RAD_FX as int)),
            bbox_model(r.bbox) == (match spec_bbox(hittable, 0, FX_ONE as int) {
                Option::Some(b) => Option::Some(
                    rotate_box(r.cos_theta as int, r.sin_theta as int, b),
                ),
                Option::None => Option::None::<AabbV>,
            }),
    {
        let radians = fx_mul(angle, DEG_TO_RAD_FX);
        let sin_theta = fx_sin(radians);
        let cos_theta = fx_cos(radians);
        let bbox = match hittable.bounding_box(0, FX_ONE) {
            Option::Some(b) => Option::Some(rotate_box_exec(cos_theta, sin_theta, &b)),
            Option::None => Option::None,
        };
        RotateY { hittable: Box::new(hittable), sin_theta, cos_theta, bbox }
    }
}

} // verus!
