//! Axis-aligned bounding box: a min/max corner pair with a ray-slab
//! intersection test and a merge operation.
//!
//! The slab test divides by the ray direction component; a zero component
//! saturates the reciprocal toward the numerator's sign, which plays the role
//! the IEEE infinities play in a floating-point renderer: axis-parallel rays
//! are handled without a branch.

use vstd::prelude::*;
use crate::fixed::{FX_ONE, fadd, fsub, fmul, fdiv, fmin, fmax};
use crate::fixed::{fx_sub, fx_mul, fx_div, fx_min, fx_max};
use crate::ray::{Ray, RayV};
use crate::vec3::{Vec3, V3, v_axis};

verus! {

/// Mathematical model of a box.
pub ghost struct AabbV {
    pub min: V3,
    pub max: V3,
}

#[derive(Clone, Copy, Debug)]
pub struct AABB {
    pub min: Vec3,
    pub max: Vec3,
}

impl View for AABB {
    type V = AabbV;

    open spec fn view(&self) -> AabbV {
        AabbV { min: self.min@, max: self.max@ }
    }
}

/// The slab entry/exit distances along one axis, entry first when the
/// reciprocal direction is non-negative.
pub open spec fn slab_axis(b: AabbV, r: RayV, i: int) -> (int, int) {
    let invd = fdiv(FX_ONE as int, v_axis(r.direction, i));
    let m0 = if invd >= 0 {
        v_axis(b.min, i)
    } else {
        v_axis(b.max, i)
    };
    let m1 = if invd >= 0 {
        v_axis(b.max, i)
    } else {
        v_axis(b.min, i)
    };
    (fmul(fsub(m0, v_axis(r.origin, i)), invd), fmul(fsub(m1, v_axis(r.origin, i)), invd))
}

/// Tighten the interval over the axes from `i` up; empty means a miss.
pub open spec fn aabb_hit_from(b: AabbV, r: RayV, tmin: int, tmax: int, i: int) -> bool
    decreases 3 - i,
{
    if i >= 3 {
        true
    } else {
        let (t0, t1) = slab_axis(b, r, i);
        let tmin2 = fmax(t0, tmin);
        let tmax2 = fmin(t1, tmax);
        if tmax2 <= tmin2 {
            false
        } else {
            aabb_hit_from(b, r, tmin2, tmax2, i + 1)
        }
    }
}

/// Whether the ray crosses the box somewhere in the interval `[tmin, tmax]`.
pub open spec fn aabb_hit(b: AabbV, r: RayV, tmin: int, tmax: int) -> bool {
    aabb_hit_from(b, r, tmin, tmax, 0)
}

/// The smallest box enclosing both arguments.
pub open spec fn surround(a: AabbV, b: AabbV) -> AabbV {
    AabbV {
        min: V3 {
            x: fmin(a.min.x, b.min.x),
            y: fmin(a.min.y, b.min.y),
            z: fmin(a.min.z, b.min.z),
        },
        max: V3 {
            x: fmax(a.max.x, b.max.x),
            y: fmax(a.max.y, b.max.y),
            z: fmax(a.max.z, b.max.z),
        },
    }
}

/// Every point of `inner` (corner coordinates between its min and max) also
/// lies between `outer`'s corners.
pub open spec fn box_contains(outer: AabbV, inner: AabbV) -> bool {
    &&& outer.min.x <= inner.min.x
    &&& outer.min.y <= inner.min.y
    &&& outer.min.z <= inner.min.z
    &&& inner.max.x <= outer.max.x
    &&& inner.max.y <= outer.max.y
    &&& inner.max.z <= outer.max.z
}

impl AABB {
    pub fn new(min: Vec3, max: Vec3) -> (r: AABB)
        ensures
            r@ == (AabbV { min: min@, max: max@ }),
    {
        AABB { min, max }
    }

    pub fn hit(&self, r: &Ray, tmin: i64, tmax: i64) -> (res: bool)
        ensures
            res == aabb_hit(self@, r@, tmin as int, tmax as int),
    {
        let mut lo = tmin;
        let mut hi = tmax;
        let mut i: usize = 0;
        while i < 3
            invariant
                i <= 3,
                aabb_hit(self@, r@, tmin as int, tmax as int) == aabb_hit_from(
                    self@,
                    r@,
                    lo as int,
                    hi as int,
                    i as int,
                ),
            decreases 3 - i,
        {
            let invd = fx_div(FX_ONE, r.direction().index(i));
            let (m0, m1) = if invd >= 0 {
                (self.min.index(i), self.max.index(i))
            } else {
                (self.max.index(i), self.min.index(i))
            };
            let t0 = fx_mul(fx_sub(m0, r.origin().index(i)), invd);
            let t1 = fx_mul(fx_sub(m1, r.origin().index(i)), invd);
            lo = fx_max(t0, lo);
            hi = fx_min(t1, hi);
            if hi <= lo {
                return false;
            }
            i = i + 1;
        }
        true
    }
}

pub fn surrounding_box(box0: AABB, box1: AABB) -> (r: AABB)
    ensures
        r@ == surround(box0@, box1@),
{
    let small = Vec3::new(
        fx_min(box0.min.x(), box1.min.x()),
        fx_min(box0.min.y(), box1.min.y()),
        fx_min(box0.min.z(), box1.min.z()),
    );
    let big = Vec3::new(
        fx_max(box0.max.x(), box1.max.x()),
        fx_max(box0.max.y(), box1.max.y()),
        fx_max(box0.max.z(), box1.max.z()),
    );
    AABB::new(small, big)
}

/// The merged box contains both of its arguments.
pub proof fn lemma_surrounding_box_contains(a: AabbV, b: AabbV)
    ensures
        box_contains(surround(a, b), a),
        box_contains(surround(a, b), b),
{
}

/// Scaling by a fixed factor preserves (or, for a negative factor,
/// reverses) the order.
proof fn lemma_fmul_mono(a: int, b: int, k: int)
    requires
        a <= b,
    ensures
        k >= 0 ==> fmul(a, k) <= fmul(b, k),
        k < 0 ==> fmul(b, k) <= fmul(a, k),
{
    if k >= 0 {
        assert(a * k <= b * k) by (nonlinear_arith)
            requires
                a <= b,
                k >= 0,
        ;
        crate::fixed::lemma_tdiv_mono(a * k, b * k, 65536);
    } else {
        assert(b * k <= a * k) by (nonlinear_arith)
            requires
                a <= b,
                k < 0,
        ;
        crate::fixed::lemma_tdiv_mono(b * k, a * k, 65536);
    }
}

/// The slab interval of an enclosing box contains the slab interval of the
/// enclosed box, axis by axis, so a ray that crosses the small box in the
/// window also crosses the large one.
proof fn lemma_slab_mono(
    inner: AabbV,
    outer: AabbV,
    r: RayV,
    lo_i: int,
    hi_i: int,
    lo_o: int,
    hi_o: int,
    i: int,
)
    requires
        box_contains(outer, inner),
        lo_o <= lo_i,
        hi_o >= hi_i,
        0 <= i <= 3,
        aabb_hit_from(inner, r, lo_i, hi_i, i),
    ensures
        aabb_hit_from(outer, r, lo_o, hi_o, i),
    decreases 3 - i,
{
    if i < 3 {
        let invd = fdiv(FX_ONE as int, v_axis(r.direction, i));
        let oi = v_axis(r.origin, i);
        let ti = slab_axis(inner, r, i);
        let to = slab_axis(outer, r, i);
        if invd >= 0 {
            lemma_fmul_mono(fsub(v_axis(outer.min, i), oi), fsub(v_axis(inner.min, i), oi), invd);
            lemma_fmul_mono(fsub(v_axis(inner.max, i), oi), fsub(v_axis(outer.max, i), oi), invd);
        } else {
            lemma_fmul_mono(fsub(v_axis(inner.max, i), oi), fsub(v_axis(outer.max, i), oi), invd);
            lemma_fmul_mono(fsub(v_axis(outer.min, i), oi), fsub(v_axis(inner.min, i), oi), invd);
        }
        assert(to.0 <= ti.0);
        assert(to.1 >= ti.1);
        lemma_slab_mono(
            inner,
            outer,
            r,
            fmax(ti.0, lo_i),
            fmin(ti.1, hi_i),
            fmax(to.0, lo_o),
            fmin(to.1, hi_o),
            i + 1,
        );
    }
}

/// A ray that crosses a box in a window also crosses any enclosing box.
pub proof fn lemma_aabb_hit_mono(inner: AabbV, outer: AabbV, r: RayV, tmin: int, tmax: int)
    requires
        box_contains(outer, inner),
        aabb_hit(inner, r, tmin, tmax),
    ensures
        aabb_hit(outer, r, tmin, tmax),
{
    lemma_slab_mono(inner, outer, r, tmin, tmax, tmin, tmax, 0);
}

} // verus!
