//! Camera: maps normalized image-plane coordinates to world-space rays,
//! with depth of field from a lens-disk sample and motion blur from a
//! random time in the shutter interval.

use vstd::prelude::*;
use crate::fixed::{FX_ONE, fadd, fsub, fmul, fdiv};
use crate::fixed::{fx_add, fx_sub, fx_mul, fx_div};
use crate::ray::{Ray, RayV};
use crate::rng::fx_rand01;
use crate::trig::{DEG_TO_RAD_FX, ftan, fx_tan};
use crate::vec3::{Vec3, V3, v_add, v_sub, v_cross, v_unit, v_scale, v_sqlen};

verus! {

pub struct Camera {
    pub origin: Vec3,
    pub lower_left_corner: Vec3,
    pub horizontal: Vec3,
    pub vertical: Vec3,
    pub u: Vec3,
    pub v: Vec3,
    pub w: Vec3,
    pub lens_radius: i64,
    pub time0: i64,
    pub time1: i64,
}

/// The derived quantities a camera is built from: orthonormal-ish basis
/// from the view vectors, image-plane corners scaled by the focus
/// distance, and half the aperture as lens radius.
pub open spec fn camera_setup(
    c: Camera,
    lookfrom: V3,
    lookat: V3,
    vup: V3,
    vfov: int,
    aspect: int,
    aperture: int,
    focus_dist: int,
    time0: int,
    time1: int,
) -> bool {
    let theta = fmul(vfov, DEG_TO_RAD_FX as int);
    let half_height = ftan(fdiv(theta, 131072));
    let half_width = fmul(aspect, half_height);
    let w = v_unit(v_sub(lookfrom, lookat));
    let u = v_unit(v_cross(vup, w));
    let v = v_cross(w, u);
    &&& c.origin@ == lookfrom
    &&& c.w@ == w
    &&& c.u@ == u
    &&& c.v@ == v
    &&& c.lower_left_corner@ == v_sub(
        v_sub(
            v_sub(lookfrom, v_scale(u, fmul(half_width, focus_dist))),
            v_scale(v, fmul(half_height, focus_dist)),
        ),
        v_scale(w, focus_dist),
    )
    &&& c.horizontal@ == v_scale(u, fmul(fmul(131072, half_width), focus_dist))
    &&& c.vertical@ == v_scale(v, fmul(fmul(131072, half_height), focus_dist))
    &&& c.lens_radius as int == fdiv(aperture, 131072)
    &&& c.time0 as int == time0
    &&& c.time1 as int == time1
}

/// Strictly inside the unit disk of the lens plane.
pub open spec fn in_unit_disk(d: V3) -> bool {
    v_sqlen(d) < FX_ONE && d.z == 0
}

/// The ray produced for plane coordinates `(s, t)` once the lens sample and
/// the time draw are fixed.
pub open spec fn spec_get_ray(c: Camera, s: int, t: int, d: V3, q: int) -> RayV {
    let rd = v_scale(d, c.lens_radius as int);
    let offset = v_add(v_scale(c.u@, rd.x), v_scale(c.v@, rd.y));
    RayV {
        origin: v_add(c.origin@, offset),
        direction: v_sub(
            v_sub(
                v_add(
                    v_add(c.lower_left_corner@, v_scale(c.horizontal@, s)),
                    v_scale(c.vertical@, t),
                ),
                c.origin@,
            ),
            offset,
        ),
        time: fadd(c.time0 as int, fmul(q, fsub(c.time1 as int, c.time0 as int))),
    }
}

/// A point sampled uniformly inside the unit lens disk by bounded
/// rejection; the center is the (astronomically unlikely) fallback.
pub fn random_in_unit_disk() -> (r: Vec3)
    ensures
        in_unit_disk(r@),
{
    let mut tries: usize = 0;
    while tries < 64
        invariant
            tries <= 64,
        decreases 64 - tries,
    {
        let p = Vec3::new(2 * fx_rand01() - FX_ONE, 2 * fx_rand01() - FX_ONE, 0);
        if p.squared_length() < FX_ONE {
            return p;
        }
        tries = tries + 1;
    }
    Vec3::new(0, 0, 0)
}

impl Camera {
    pub fn new(
        lookfrom: Vec3,
        lookat: Vec3,
        vup: Vec3,
        vfov: i64,
        aspect: i64,
        aperture: i64,
        focus_dist: i64,
        time0: i64,
        time1: i64,
    ) -> (c: Camera)
        requires
            lookfrom != lookat,
        ensures
            camera_setup(
                c,
                lookfrom@,
                lookat@,
                vup@,
                vfov as int,
                aspect as int,
                aperture as int,
                focus_dist as int,
                time0 as int,
                time1 as int,
            ),
    {
        let theta = fx_mul(vfov, DEG_TO_RAD_FX);
        let half_height = fx_tan(fx_div(theta, 131072));
        let half_width = fx_mul(aspect, half_height);

        let w = lookfrom.sub(&lookat).unit_vector();
        let u = vup.cross(&w).unit_vector();
        let v = w.cross(&u);

        Camera {
            origin: lookfrom,
            lower_left_corner: lookfrom.sub(&u.scale(fx_mul(half_width, focus_dist))).sub(
                &v.scale(fx_mul(half_height, focus_dist)),
            ).sub(&w.scale(focus_dist)),
            horizontal: u.scale(fx_mul(fx_mul(131072, half_width), focus_dist)),
            vertical: v.scale(fx_mul(fx_mul(131072, half_height), focus_dist)),
            u,
            v,
            w,
            lens_radius: fx_div(aperture, 131072),
            time0,
            time1,
        }
    }

    /// The ray for plane coordinates `(s, t)`: some lens-disk sample and
    /// some shutter time give exactly the returned ray.
    pub fn get_ray(&self, s: i64, t: i64) -> (r: Ray)
        ensures
            exists|d: V3, q: int|
                in_unit_disk(d) && 0 <= q < FX_ONE && r@ == spec_get_ray(
                    *self,
                    s as int,
                    t as int,
                    d,
                    q,
                ),
    {
        let ds = random_in_unit_disk();
        let rd = ds.scale(self.lens_radius);
        let offset = self.u.scale(rd.x()).add(&self.v.scale(rd.y()));
        let q = fx_rand01();
        let time = fx_add(self.time0, fx_mul(q, fx_sub(self.time1, self.time0)));
        let r = Ray::new(
            self.origin.add(&offset),
            self.lower_left_corner.add(&self.horizontal.scale(s)).add(
                &self.vertical.scale(t),
            ).sub(&self.origin).sub(&offset),
            time,
        );
        proof {
            assert(in_unit_disk(ds@) && 0 <= q < FX_ONE && r@ == spec_get_ray(
                *self,
                s as int,
                t as int,
                ds@,
                q as int,
            ));
        }
        r
    }
}

} // verus!
