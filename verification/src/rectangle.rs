//! Axis-aligned rectangles in the three orientations: ray-plane
//! intersection on the fixed axis, rejection outside the 2D extent, and a
//! bounding box padded by a small epsilon along the fixed axis so it has
//! nonzero volume.

use vstd::prelude::*;
use crate::aabb::{AABB, AabbV};
use crate::fixed::{fadd, fsub, fmul, fdiv, FX_ONE};
use crate::fixed::{fx_add, fx_sub, fx_mul, fx_div};
use crate::hittable::{HitRecord, SpecHit, hit_model};
use crate::material::Material;
use crate::ray::{Ray, RayV, ray_at};
use crate::vec3::{Vec3, V3};

verus! {

/// The box padding along a rectangle's fixed axis.
pub const RECT_EPS_FX: i64 = 7;

pub struct XYRect {
    pub mat: Material,
    pub x0: i64,
    pub x1: i64,
    pub y0: i64,
    pub y1: i64,
    pub k: i64,
}

pub struct XZRect {
    pub mat: Material,
    pub x0: i64,
    pub x1: i64,
    pub z0: i64,
    pub z1: i64,
    pub k: i64,
}

pub struct YZRect {
    pub mat: Material,
    pub y0: i64,
    pub y1: i64,
    pub z0: i64,
    pub z1: i64,
    pub k: i64,
}

impl XYRect {
    pub fn new(x0: i64, x1: i64, y0: i64, y1: i64, k: i64, mat: Material) -> (r: XYRect)
        ensures
            r == (XYRect { x0, x1, y0, y1, k, mat }),
    {
        XYRect { x0, x1, y0, y1, k, mat }
    }

    /// Plane solve on z, then the 2D extent check on x and y.
    pub open spec fn spec_hit(&self, r: RayV, t0: int, t1: int) -> Option<SpecHit> {
        let t = fdiv(fsub(self.k as int, r.origin.z), r.direction.z);
        if t < t0 || t > t1 {
            Option::None
        } else {
            let x = fadd(r.origin.x, fmul(t, r.direction.x));
            let y = fadd(r.origin.y, fmul(t, r.direction.y));
            if x < self.x0 || x > self.x1 || y < self.y0 || y > self.y1 {
                Option::None
            } else {
                Option::Some(
                    SpecHit {
                        t,
                        u: fdiv(fsub(x, self.x0 as int), fsub(self.x1 as int, self.x0 as int)),
                        v: fdiv(fsub(y, self.y0 as int), fsub(self.y1 as int, self.y0 as int)),
                        mat: self.mat,
                        p: ray_at(r, t),
                        normal: V3 { x: 0, y: 0, z: FX_ONE as int },
                    },
                )
            }
        }
    }

    pub fn hit<'a>(&'a self, r: &Ray, t0: i64, t1: i64) -> (res: Option<HitRecord<'a>>)
        ensures
            hit_model(res) == self.spec_hit(r@, t0 as int, t1 as int),
    {
        let t = fx_div(fx_sub(self.k, r.origin().z()), r.direction().z());
        if t < t0 || t > t1 {
            return Option::None;
        }

        let x = fx_add(r.origin().x(), fx_mul(t, r.direction().x()));
        let y = fx_add(r.origin().y(), fx_mul(t, r.direction().y()));
        if x < self.x0 || x > self.x1 || y < self.y0 || y > self.y1 {
            return Option::None;
        }

        Option::Some(
            HitRecord {
                t,
                u: fx_div(fx_sub(x, self.x0), fx_sub(self.x1, self.x0)),
                v: fx_div(fx_sub(y, self.y0), fx_sub(self.y1, self.y0)),
                mat: &self.mat,
                p: r.point_at_parameter(t),
                normal: Vec3::new(0, 0, FX_ONE),
            },
        )
    }

    pub open spec fn spec_bounding_box(&self) -> AabbV {
        AabbV {
            min: (V3 {
                x: self.x0 as int,
                y: self.y0 as int,
                z: fsub(self.k as int, RECT_EPS_FX as int),
            }),
            max: (V3 {
                x: self.x1 as int,
                y: self.y1 as int,
                z: fadd(self.k as int, RECT_EPS_FX as int),
            }),
        }
    }

    pub fn bounding_box(&self, t0: i64, t1: i64) -> (res: Option<AABB>)
        ensures
            res matches Option::Some(b) && b@ == self.spec_bounding_box(),
    {
        Option::Some(
            AABB::new(
                Vec3::new(self.x0, self.y0, fx_sub(self.k, RECT_EPS_FX)),
                Vec3::new(self.x1, self.y1, fx_add(self.k, RECT_EPS_FX)),
            ),
        )
    }
}

impl XZRect {
    pub fn new(x0: i64, x1: i64, z0: i64, z1: i64, k: i64, mat: Material) -> (r: XZRect)
        ensures
            r == (XZRect { x0, x1, z0, z1, k, mat }),
    {
        XZRect { x0, x1, z0, z1, k, mat }
    }

    /// Plane solve on y, then the 2D extent check on x and z.
    pub open spec fn spec_hit(&self, r: RayV, t0: int, t1: int) -> Option<SpecHit> {
        let t = fdiv(fsub(self.k as int, r.origin.y), r.direction.y);
        if t < t0 || t > t1 {
            Option::None
        } else {
            let x = fadd(r.origin.x, fmul(t, r.direction.x));
            let z = fadd(r.origin.z, fmul(t, r.direction.z));
            if x < self.x0 || x > self.x1 || z < self.z0 || z > self.z1 {
                Option::None
            } else {
                Option::Some(
                    SpecHit {
                        t,
                        u: fdiv(fsub(x, self.x0 as int), fsub(self.x1 as int, self.x0 as int)),
                        v: fdiv(fsub(z, self.z0 as int), fsub(self.z1 as int, self.z0 as int)),
                        mat: self.mat,
                        p: ray_at(r, t),
                        normal: V3 { x: 0, y: FX_ONE as int, z: 0 },
                    },
                )
            }
        }
    }

    pub fn hit<'a>(&'a self, r: &Ray, t0: i64, t1: i64) -> (res: Option<HitRecord<'a>>)
        ensures
            hit_model(res) == self.spec_hit(r@, t0 as int, t1 as int),
    {
        let t = fx_div(fx_sub(self.k, r.origin().y()), r.direction().y());
        if t < t0 || t > t1 {
            return Option::None;
        }

        let x = fx_add(r.origin().x(), fx_mul(t, r.direction().x()));
        let z = fx_add(r.origin().z(), fx_mul(t, r.direction().z()));
        if x < self.x0 || x > self.x1 || z < self.z0 || z > self.z1 {
            return Option::None;
        }

        Option::Some(
            HitRecord {
                t,
                u: fx_div(fx_sub(x, self.x0), fx_sub(self.x1, self.x0)),
                v: fx_div(fx_sub(z, self.z0), fx_sub(self.z1, self.z0)),
                mat: &self.mat,
                p: r.point_at_parameter(t),
                normal: Vec3::new(0, FX_ONE, 0),
            },
        )
    }

    pub open spec fn spec_bounding_box(&self) -> AabbV {
        AabbV {
            min: (V3 {
                x: self.x0 as int,
                y: fsub(self.k as int, RECT_EPS_FX as int),
                z: self.z0 as int,
            }),
            max: (V3 {
                x: self.x1 as int,
                y: fadd(self.k as int, RECT_EPS_FX as int),
                z: self.z1 as int,
            }),
        }
    }

    pub fn bounding_box(&self, t0: i64, t1: i64) -> (res: Option<AABB>)
        ensures
            res matches Option::Some(b) && b@ == self.spec_bounding_box(),
    {
        Option::Some(
            AABB::new(
                Vec3::new(self.x0, fx_sub(self.k, RECT_EPS_FX), self.z0),
                Vec3::new(self.x1, fx_add(self.k, RECT_EPS_FX), self.z1),
            ),
        )
    }
}

impl YZRect {
    pub fn new(y0: i64, y1: i64, z0: i64, z1: i64, k: i64, mat: Material) -> (r: YZRect)
        ensures
            r == (YZRect { y0, y1, z0, z1, k, mat }),
    {
        YZRect { y0, y1, z0, z1, k, mat }
    }

    /// Plane solve on x, then the 2D extent check on y and z.
    pub open spec fn spec_hit(&self, r: RayV, t0: int, t1: int) -> Option<SpecHit> {
        let t = fdiv(fsub(self.k as int, r.origin.x), r.direction.x);
        if t < t0 || t > t1 {
            Option::None
        } else {
            let y = fadd(r.origin.y, fmul(t, r.direction.y));
            let z = fadd(r.origin.z, fmul(t, r.direction.z));
            if y < self.y0 || y > self.y1 || z < self.z0 || z > self.z1 {
                Option::None
            } else {
                Option::Some(
                    SpecHit {
                        t,
                        u: fdiv(fsub(y, self.y0 as int), fsub(self.y1 as int, self.y0 as int)),
                        v: fdiv(fsub(z, self.z0 as int), fsub(self.z1 as int, self.z0 as int)),
                        mat: self.mat,
                        p: ray_at(r, t),
                        normal: V3 { x: FX_ONE as int, y: 0, z: 0 },
                    },
                )
            }
        }
    }

    pub fn hit<'a>(&'a self, r: &Ray, t0: i64, t1: i64) -> (res: Option<HitRecord<'a>>)
        ensures
            hit_model(res) == self.spec_hit(r@, t0 as int, t1 as int),
    {
        let t = fx_div(fx_sub(self.k, r.origin().x()), r.direction().x());
        if t < t0 || t > t1 {
            return Option::None;
        }

        let y = fx_add(r.origin().y(), fx_mul(t, r.direction().y()));
        let z = fx_add(r.origin().z(), fx_mul(t, r.direction().z()));
        if y < self.y0 || y > self.y1 || z < self.z0 || z > self.z1 {
            return Option::None;
        }

        Option::Some(
            HitRecord {
                t,
                u: fx_div(fx_sub(y, self.y0), fx_sub(self.y1, self.y0)),
                v: fx_div(fx_sub(z, self.z0), fx_sub(self.z1, self.z0)),
                mat: &self.mat,
                p: r.point_at_parameter(t),
                normal: Vec3::new(FX_ONE, 0, 0),
            },
        )
    }

    pub open spec fn spec_bounding_box(&self) -> AabbV {
        AabbV {
            min: (V3 {
                x: fsub(self.k as int, RECT_EPS_FX as int),
                y: self.y0 as int,
                z: self.z0 as int,
            }),
            max: (V3 {
                x: fadd(self.k as int, RECT_EPS_FX as int),
                y: self.y1 as int,
                z: self.z1 as int,
            }),
        }
    }

    pub fn bounding_box(&self, t0: i64, t1: i64) -> (res: Option<AABB>)
        ensures
            res matches Option::Some(b) && b@ == self.spec_bounding_box(),
    {
        Option::Some(
            AABB::new(
                Vec3::new(fx_sub(self.k, RECT_EPS_FX), self.y0, self.z0),
                Vec3::new(fx_add(self.k, RECT_EPS_FX), self.y1, self.z1),
            ),
        )
    }
}

} // verus!
