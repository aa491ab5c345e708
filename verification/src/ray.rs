//! A ray: origin, direction (not necessarily normalized) and a scalar time
//! used for motion blur. Constructed per query and never mutated.

use vstd::prelude::*;
use crate::vec3::{Vec3, V3, v_add, v_scale};

verus! {

/// Mathematical model of a ray.
pub ghost struct RayV {
    pub origin: V3,
    pub direction: V3,
    pub time: int,
}

#[derive(Clone, Copy, Debug)]
pub struct Ray {
    pub a: Vec3,
    pub b: Vec3,
    pub time: i64,
}

impl View for Ray {
    type V = RayV;

    open spec fn view(&self) -> RayV {
        RayV { origin: self.a@, direction: self.b@, time: self.time as int }
    }
}

/// The point reached at parametric distance `t`.
pub open spec fn ray_at(r: RayV, t: int) -> V3 {
    v_add(r.origin, v_scale(r.direction, t))
}

impl Ray {
    pub fn new(a: Vec3, b: Vec3, time: i64) -> (r: Ray)
        ensures
            r@ == (RayV { origin: a@, direction: b@, time: time as int }),
    {
        Ray { a, b, time }
    }

    pub fn origin(&self) -> (r: Vec3)
        ensures
            r@ == self@.origin,
    {
        self.a
    }

    pub fn direction(&self) -> (r: Vec3)
        ensures
            r@ == self@.direction,
    {
        self.b
    }

    pub fn time(&self) -> (r: i64)
        ensures
            r as int == self@.time,
    {
        self.time
    }

    pub fn point_at_parameter(&self, t: i64) -> (r: Vec3)
        ensures
            r@ == ray_at(self@, t as int),
    {
        self.a.add(&self.b.scale(t))
    }
}

} // verus!
