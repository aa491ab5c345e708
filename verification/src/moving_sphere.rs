//! A sphere whose center is interpolated linearly between two keyframes
//! over a time interval; hits use the center at the ray's time, and the
//! bounding box is the union of the boxes at both interval ends.

use vstd::prelude::*;
use crate::aabb::{AABB, AabbV, surround, surrounding_box};
use crate::fixed::{fsub, fdiv};
use crate::fixed::{fx_sub, fx_div};
use crate::hittable::{HitRecord, hit_model};
use crate::material::Material;
use crate::ray::{Ray, RayV};
use crate::sphere::{sphere_hit, sphere_solve};
use crate::vec3::{Vec3, V3, v_add, v_sub, v_scale};

verus! {

pub struct MovingSphere {
    pub center0: Vec3,
    pub center1: Vec3,
    pub time0: i64,
    pub time1: i64,
    pub radius: i64,
    pub mat: Material,
}

/// The interpolated center at a given time.
pub open spec fn spec_center(s: MovingSphere, time: int) -> V3 {
    v_add(
        s.center0@,
        v_scale(
            v_sub(s.center1@, s.center0@),
            fdiv(fsub(time, s.time0 as int), fsub(s.time1 as int, s.time0 as int)),
        ),
    )
}

impl MovingSphere {
    pub fn new(
        center0: Vec3,
        center1: Vec3,
        time0: i64,
        time1: i64,
        radius: i64,
        mat: Material,
    ) -> (r: MovingSphere)
        ensures
            r.center0 == center0,
            r.center1 == center1,
            r.time0 == time0,
            r.time1 == time1,
            r.radius == radius,
            r.mat == mat,
    {
        MovingSphere { center0, center1, time0, time1, radius, mat }
    }

    pub fn center(&self, time: i64) -> (r: Vec3)
        ensures
            r@ == spec_center(*self, time as int),
    {
        self.center0.add(
            &self.center1.sub(&self.center0).scale(
                fx_div(fx_sub(time, self.time0), fx_sub(self.time1, self.time0)),
            ),
        )
    }

    /// The same quadratic solve as the fixed sphere, at the interpolated
    /// center.
    pub open spec fn spec_hit(&self, r: RayV, tmin: int, tmax: int) -> Option<crate::hittable::SpecHit> {
        sphere_hit(spec_center(*self, r.time), self.radius as int, self.mat, r, tmin, tmax)
    }

    pub fn hit<'a>(&'a self, r: &Ray, t_min: i64, t_max: i64) -> (res: Option<HitRecord<'a>>)
        ensures
            hit_model(res) == self.spec_hit(r@, t_min as int, t_max as int),
    {
        let c = self.center(r.time());
        sphere_solve(c, self.radius, &self.mat, r, t_min, t_max)
    }

    /// The union of the sphere's boxes at the two ends of the interval.
    pub open spec fn spec_bounding_box(&self, t0: int, t1: int) -> AabbV {
        surround(sphere_box(spec_center(*self, t0), self.radius as int), sphere_box(spec_center(*self, t1), self.radius as int))
    }

    pub fn bounding_box(&self, t0: i64, t1: i64) -> (res: Option<AABB>)
        ensures
            res matches Option::Some(b) && b@ == self.spec_bounding_box(t0 as int, t1 as int),
    {
        let c0 = self.center(t0);
        let c1 = self.center(t1);
        let rv = Vec3::new(self.radius, self.radius, self.radius);
        let box0 = AABB::new(c0.sub(&rv), c0.add(&rv));
        let box1 = AABB::new(c1.sub(&rv), c1.add(&rv));
        Option::Some(surrounding_box(box0, box1))
    }
}

/// A sphere-shaped box around a center.
pub open spec fn sphere_box(center: V3, radius: int) -> AabbV {
    AabbV {
        min: v_sub(center, V3 { x: radius, y: radius, z: radius }),
        max: v_add(center, V3 { x: radius, y: radius, z: radius }),
    }
}

} // verus!
