//! Sphere: quadratic ray solve, trying the nearer root first, with surface
//! coordinates from spherical angles. The solver is shared with the moving
//! sphere, which differs only in where its center is at the ray's time.

use vstd::prelude::*;
use crate::aabb::{AABB, AabbV};
use crate::fixed::{fadd, fsub, fmul, fdiv, fsqrt, clip, FX_ONE};
use crate::fixed::{fx_add, fx_sub, fx_mul, fx_div, fx_sqrt, fx_neg};
use crate::hittable::{HitRecord, SpecHit, hit_model};
use crate::material::Material;
use crate::ray::{Ray, RayV, ray_at};
use crate::trig::{PI_FX, TWO_PI_FX, HALF_PI_FX, fatan2, fasin, fx_atan2, fx_asin};
use crate::vec3::{Vec3, V3, v_sub, v_dot, v_sqlen, v_scale_div};

verus! {

pub struct Sphere {
    pub center: Vec3,
    pub radius: i64,
    pub mat: Material,
}

/// Surface coordinates of a point on the unit sphere: `u` from the azimuth,
/// `v` from the elevation.
pub open spec fn spec_sphere_uv(p: V3) -> (int, int) {
    let phi = fatan2(p.z, p.x);
    let theta = fasin(p.y);
    (
        fsub(FX_ONE as int, fdiv(fadd(phi, PI_FX as int), TWO_PI_FX as int)),
        fdiv(fadd(theta, HALF_PI_FX as int), PI_FX as int),
    )
}

pub fn get_sphere_uv(p: Vec3) -> (r: (i64, i64))
    ensures
        (r.0 as int, r.1 as int) == spec_sphere_uv(p@),
{
    let phi = fx_atan2(p.z(), p.x());
    let theta = fx_asin(p.y());
    (
        fx_sub(FX_ONE, fx_div(fx_add(phi, PI_FX), TWO_PI_FX)),
        fx_div(fx_add(theta, HALF_PI_FX), PI_FX),
    )
}

/// The record produced when the solve accepts distance `t`.
pub open spec fn sphere_record(center: V3, radius: int, mat: Material, r: RayV, t: int) -> SpecHit {
    let p = ray_at(r, t);
    let n = v_scale_div(v_sub(p, center), radius);
    let uv = spec_sphere_uv(n);
    SpecHit { t, p, normal: n, mat, u: uv.0, v: uv.1 }
}

/// The quadratic solve: try the nearer root, then the farther, each against
/// the open interval `(tmin, tmax)`.
pub open spec fn sphere_hit(
    center: V3,
    radius: int,
    mat: Material,
    r: RayV,
    tmin: int,
    tmax: int,
) -> Option<SpecHit> {
    let oc = v_sub(r.origin, center);
    let a = v_sqlen(r.direction);
    let b = v_dot(oc, r.direction);
    let c = fsub(v_dot(oc, oc), fmul(radius, radius));
    let disc = fsub(fmul(b, b), fmul(a, c));
    if disc > 0 {
        let sq = fsqrt(disc);
        let t1 = fdiv(fsub(clip(-b), sq), a);
        if t1 < tmax && t1 > tmin {
            Option::Some(sphere_record(center, radius, mat, r, t1))
        } else {
            let t2 = fdiv(fadd(clip(-b), sq), a);
            if t2 < tmax && t2 > tmin {
                Option::Some(sphere_record(center, radius, mat, r, t2))
            } else {
                Option::None
            }
        }
    } else {
        Option::None
    }
}

/// Shared executable solver for both sphere variants.
pub(crate) fn sphere_solve<'a>(
    center: Vec3,
    radius: i64,
    mat: &'a Material,
    r: &Ray,
    t_min: i64,
    t_max: i64,
) -> (res: Option<HitRecord<'a>>)
    ensures
        hit_model(res) == sphere_hit(center@, radius as int, *mat, r@, t_min as int, t_max as int),
{
    let oc = r.origin().sub(&center);
    let a = r.direction().squared_length();
    let b = oc.dot(&r.direction());
    let c = fx_sub(oc.dot(&oc), fx_mul(radius, radius));

    let discriminant = fx_sub(fx_mul(b, b), fx_mul(a, c));
    if discriminant > 0 {
        let sq = fx_sqrt(discriminant);
        let t = fx_div(fx_sub(fx_neg(b), sq), a);
        if t < t_max && t > t_min {
            let p = r.point_at_parameter(t);
            let normal = p.sub(&center).scale_div(radius);
            let (u, v) = get_sphere_uv(normal);
            return Option::Some(HitRecord { t, p, normal, mat, u, v });
        }

        let t = fx_div(fx_add(fx_neg(b), sq), a);
        if t < t_max && t > t_min {
            let p = r.point_at_parameter(t);
            let normal = p.sub(&center).scale_div(radius);
            let (u, v) = get_sphere_uv(normal);
            return Option::Some(HitRecord { t, p, normal, mat, u, v });
        }
    }

    Option::None
}

impl Sphere {
    pub fn new(center: Vec3, radius: i64, mat: Material) -> (r: Sphere)
        ensures
            r.center == center,
            r.radius == radius,
            r.mat == mat,
    {
        Sphere { center, radius, mat }
    }

    pub fn hit<'a>(&'a self, r: &Ray, t_min: i64, t_max: i64) -> (res: Option<HitRecord<'a>>)
        ensures
            hit_model(res) == sphere_hit(
                self.center@,
                self.radius as int,
                self.mat,
                r@,
                t_min as int,
                t_max as int,
            ),
    {
        sphere_solve(self.center, self.radius, &self.mat, r, t_min, t_max)
    }

    /// A sphere's box at any time: its center plus and minus its radius.
    pub open spec fn spec_bounding_box(&self) -> AabbV {
        AabbV {
            min: (V3 {
                x: fsub(self.center@.x, self.radius as int),
                y: fsub(self.center@.y, self.radius as int),
                z: fsub(self.center@.z, self.radius as int),
            }),
            max: (V3 {
                x: fadd(self.center@.x, self.radius as int),
                y: fadd(self.center@.y, self.radius as int),
                z: fadd(self.center@.z, self.radius as int),
            }),
        }
    }

    pub fn bounding_box(&self, t0: i64, t1: i64) -> (res: Option<AABB>)
        ensures
            res matches Option::Some(b) && b@ == self.spec_bounding_box(),
    {
        let rv = Vec3::new(self.radius, self.radius, self.radius);
        Option::Some(AABB::new(self.center.sub(&rv), self.center.add(&rv)))
    }
}

} // verus!
