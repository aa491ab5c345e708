//! Three-component fixed-point vector, used for points, directions and colors
//! alike. The spec-level model is `V3`, a triple of unbounded integers; every
//! method is specified exactly by a spec function over that model.

use vstd::prelude::*;
use crate::fixed::{clip, fadd, fsub, fmul, fdiv, fsqrt};
use crate::fixed::{fx_add, fx_sub, fx_mul, fx_div, fx_sqrt, fx_neg};

verus! {

/// Mathematical model of a vector: the three scaled components.
pub ghost struct V3 {
    pub x: int,
    pub y: int,
    pub z: int,
}

#[derive(Clone, Copy, Debug, PartialEq, Eq, Structural)]
pub struct Vec3 {
    pub x: i64,
    pub y: i64,
    pub z: i64,
}

impl View for Vec3 {
    type V = V3;

    open spec fn view(&self) -> V3 {
        V3 { x: self.x as int, y: self.y as int, z: self.z as int }
    }
}

pub open spec fn v_add(a: V3, b: V3) -> V3 {
    V3 { x: fadd(a.x, b.x), y: fadd(a.y, b.y), z: fadd(a.z, b.z) }
}

pub open spec fn v_sub(a: V3, b: V3) -> V3 {
    V3 { x: fsub(a.x, b.x), y: fsub(a.y, b.y), z: fsub(a.z, b.z) }
}

pub open spec fn v_mul(a: V3, b: V3) -> V3 {
    V3 { x: fmul(a.x, b.x), y: fmul(a.y, b.y), z: fmul(a.z, b.z) }
}

pub open spec fn v_div(a: V3, b: V3) -> V3 {
    V3 { x: fdiv(a.x, b.x), y: fdiv(a.y, b.y), z: fdiv(a.z, b.z) }
}

pub open spec fn v_scale(a: V3, k: int) -> V3 {
    V3 { x: fmul(a.x, k), y: fmul(a.y, k), z: fmul(a.z, k) }
}

pub open spec fn v_scale_div(a: V3, k: int) -> V3 {
    V3 { x: fdiv(a.x, k), y: fdiv(a.y, k), z: fdiv(a.z, k) }
}

pub open spec fn v_neg(a: V3) -> V3 {
    V3 { x: clip(-a.x), y: clip(-a.y), z: clip(-a.z) }
}

pub open spec fn v_dot(a: V3, b: V3) -> int {
    fadd(fadd(fmul(a.x, b.x), fmul(a.y, b.y)), fmul(a.z, b.z))
}

pub open spec fn v_cross(a: V3, b: V3) -> V3 {
    V3 {
        x: fsub(fmul(a.y, b.z), fmul(a.z, b.y)),
        y: fsub(fmul(a.z, b.x), fmul(a.x, b.z)),
        z: fsub(fmul(a.x, b.y), fmul(a.y, b.x)),
    }
}

pub open spec fn v_sqlen(a: V3) -> int {
    v_dot(a, a)
}

pub open spec fn v_len(a: V3) -> int {
    fsqrt(v_sqlen(a))
}

pub open spec fn v_unit(a: V3) -> V3 {
    v_scale_div(a, v_len(a))
}

/// Component along an axis index: 0 is x, 1 is y, anything else is z.
pub open spec fn v_axis(a: V3, i: int) -> int {
    if i == 0 {
        a.x
    } else if i == 1 {
        a.y
    } else {
        a.z
    }
}

impl Vec3 {
    pub fn new(x: i64, y: i64, z: i64) -> (r: Vec3)
        ensures
            r@ == (V3 { x: x as int, y: y as int, z: z as int }),
    {
        Vec3 { x, y, z }
    }

    pub fn x(&self) -> (r: i64)
        ensures
            r as int == self@.x,
    {
        self.x
    }

    pub fn y(&self) -> (r: i64)
        ensures
            r as int == self@.y,
    {
        self.y
    }

    pub fn z(&self) -> (r: i64)
        ensures
            r as int == self@.z,
    {
        self.z
    }

    pub fn r(&self) -> (r: i64)
        ensures
            r as int == self@.x,
    {
        self.x
    }

    pub fn g(&self) -> (r: i64)
        ensures
            r as int == self@.y,
    {
        self.y
    }

    pub fn b(&self) -> (r: i64)
        ensures
            r as int == self@.z,
    {
        self.z
    }

    pub fn index(&self, i: usize) -> (r: i64)
        requires
            i < 3,
        ensures
            r as int == v_axis(self@, i as int),
    {
        if i == 0 {
            self.x
        } else if i == 1 {
            self.y
        } else {
            self.z
        }
    }

    pub fn add(&self, other: &Vec3) -> (r: Vec3)
        ensures
            r@ == v_add(self@, other@),
    {
        Vec3 { x: fx_add(self.x, other.x), y: fx_add(self.y, other.y), z: fx_add(self.z, other.z) }
    }

    pub fn sub(&self, other: &Vec3) -> (r: Vec3)
        ensures
            r@ == v_sub(self@, other@),
    {
        Vec3 { x: fx_sub(self.x, other.x), y: fx_sub(self.y, other.y), z: fx_sub(self.z, other.z) }
    }

    pub fn mul(&self, other: &Vec3) -> (r: Vec3)
        ensures
            r@ == v_mul(self@, other@),
    {
        Vec3 { x: fx_mul(self.x, other.x), y: fx_mul(self.y, other.y), z: fx_mul(self.z, other.z) }
    }

    pub fn div(&self, other: &Vec3) -> (r: Vec3)
        ensures
            r@ == v_div(self@, other@),
    {
        Vec3 { x: fx_div(self.x, other.x), y: fx_div(self.y, other.y), z: fx_div(self.z, other.z) }
    }

    pub fn scale(&self, k: i64) -> (r: Vec3)
        ensures
            r@ == v_scale(self@, k as int),
    {
        Vec3 { x: fx_mul(self.x, k), y: fx_mul(self.y, k), z: fx_mul(self.z, k) }
    }

    pub fn scale_div(&self, k: i64) -> (r: Vec3)
        ensures
            r@ == v_scale_div(self@, k as int),
    {
        Vec3 { x: fx_div(self.x, k), y: fx_div(self.y, k), z: fx_div(self.z, k) }
    }

    pub fn neg(&self) -> (r: Vec3)
        ensures
            r@ == v_neg(self@),
    {
        Vec3 { x: fx_neg(self.x), y: fx_neg(self.y), z: fx_neg(self.z) }
    }

    pub fn dot(&self, other: &Vec3) -> (r: i64)
        ensures
            r as int == v_dot(self@, other@),
    {
        fx_add(
            fx_add(fx_mul(self.x, other.x), fx_mul(self.y, other.y)),
            fx_mul(self.z, other.z),
        )
    }

    pub fn cross(&self, other: &Vec3) -> (r: Vec3)
        ensures
            r@ == v_cross(self@, other@),
    {
        Vec3 {
            x: fx_sub(fx_mul(self.y, other.z), fx_mul(self.z, other.y)),
            y: fx_sub(fx_mul(self.z, other.x), fx_mul(self.x, other.z)),
            z: fx_sub(fx_mul(self.x, other.y), fx_mul(self.y, other.x)),
        }
    }

    pub fn squared_length(&self) -> (r: i64)
        ensures
            r as int == v_sqlen(self@),
    {
        self.dot(self)
    }

    pub fn length(&self) -> (r: i64)
        ensures
            r as int == v_len(self@),
    {
        fx_sqrt(self.squared_length())
    }

    pub fn unit_vector(&self) -> (r: Vec3)
        ensures
            r@ == v_unit(self@),
    {
        let l = self.length();
        self.scale_div(l)
    }

    pub fn make_unit_vector(&mut self)
        ensures
            final(self)@ == v_unit(old(self)@),
    {
        *self = self.unit_vector();
    }
}

} // verus!
