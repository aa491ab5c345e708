//! Scattering and emission: diffuse, fuzzy metal, glass with a
//! Fresnel-weighted choice of reflection or refraction, and emissive light.
//! Scattering draws randomness, so each contract states what holds of every
//! possible outcome, with the sampled point as an existential witness.

use vstd::prelude::*;
use crate::fixed::{FX_ONE, fadd, fsub, fmul, fdiv, fsqrt, fmin, clip};
use crate::fixed::{fx_add, fx_sub, fx_mul, fx_div, fx_sqrt, fx_min};
use crate::hittable::{HitRecord, SpecHit, rec_v};
use crate::perlin::Perlin;
use crate::ray::{Ray, RayV};
use crate::rng::fx_rand01;
use crate::texture::{Texture, tex_wf, tex_equiv, spec_value};
use crate::vec3::{Vec3, V3, v_add, v_sub, v_scale, v_scale_div, v_dot, v_neg, v_unit, v_sqlen};

verus! {

pub enum Material {
    Glass(i64),
    Diffuse(Texture),
    Light(Texture),
    Metal(Vec3, i64),
}

pub open spec fn mat_wf(m: Material) -> bool {
    match m {
        Material::Glass(_) => true,
        Material::Diffuse(t) => tex_wf(t),
        Material::Light(t) => tex_wf(t),
        Material::Metal(_, _) => true,
    }
}

/// Structural equivalence of materials, lifting the textures' equivalence.
pub open spec fn mat_equiv(a: Material, b: Material) -> bool {
    match (a, b) {
        (Material::Glass(r1), Material::Glass(r2)) => r1 == r2,
        (Material::Diffuse(t1), Material::Diffuse(t2)) => tex_equiv(t1, t2),
        (Material::Light(t1), Material::Light(t2)) => tex_equiv(t1, t2),
        (Material::Metal(a1, f1), Material::Metal(a2, f2)) => a1 == a2 && f1 == f2,
        _ => false,
    }
}

/// Strictly inside the unit sphere.
pub open spec fn in_unit_sphere(v: V3) -> bool {
    v_sqlen(v) < FX_ONE
}

/// Mirror reflection of `v` about the normal `n`.
pub open spec fn spec_reflect(v: V3, n: V3) -> V3 {
    v_sub(v, v_scale(n, fmul(131072, v_dot(v, n))))
}

/// Refraction by Snell's law, when the discriminant admits it.
pub open spec fn spec_refract(v: V3, n: V3, ni_over_nt: int) -> Option<V3> {
    let uv = v_unit(v);
    let dt = v_dot(uv, n);
    let disc = fsub(
        FX_ONE as int,
        fmul(fmul(ni_over_nt, ni_over_nt), fsub(FX_ONE as int, fmul(dt, dt))),
    );
    if disc > 0 {
        Option::Some(
            v_sub(v_scale(v_sub(uv, v_scale(n, dt)), ni_over_nt), v_scale(n, fsqrt(disc))),
        )
    } else {
        Option::None
    }
}

/// Schlick's approximation of the Fresnel reflectance.
pub open spec fn spec_schlick(cosine: int, ref_idx: int) -> int {
    let q = fdiv(fsub(FX_ONE as int, ref_idx), fadd(FX_ONE as int, ref_idx));
    let r0 = fmul(q, q);
    let c = fsub(FX_ONE as int, cosine);
    let c5 = fmul(fmul(fmul(c, c), fmul(c, c)), c);
    fadd(r0, fmul(fsub(FX_ONE as int, r0), c5))
}

/// The refraction a glass surface attempts: the outward normal and index
/// ratio depend on whether the ray is entering or leaving.
pub open spec fn spec_glass_refract(ref_idx: int, dir: V3, normal: V3) -> Option<V3> {
    if v_dot(dir, normal) > 0 {
        spec_refract(dir, v_neg(normal), ref_idx)
    } else {
        spec_refract(dir, normal, fdiv(FX_ONE as int, ref_idx))
    }
}

/// Model of an optional scatter result.
pub open spec fn scatter_model(o: Option<(Vec3, Ray)>) -> Option<(V3, RayV)> {
    match o {
        Option::None => Option::None,
        Option::Some((a, r)) => Option::Some((a@, r@)),
    }
}

/// What `scatter` promises, for every outcome of its random draws.
pub open spec fn scatter_post(
    m: Material,
    rin: RayV,
    rec: SpecHit,
    pl: Perlin,
    res: Option<(V3, RayV)>,
) -> bool {
    match m {
        Material::Glass(ref_idx) => {
            &&& res is Some
            &&& {
                let (att, sc) = res->Some_0;
                &&& att == (V3 { x: FX_ONE as int, y: FX_ONE as int, z: FX_ONE as int })
                &&& sc.origin == rec.p
                &&& sc.time == rin.time
                &&& (match spec_glass_refract(ref_idx as int, rin.direction, rec.normal) {
                    Option::Some(refr) => sc.direction == spec_reflect(rin.direction, rec.normal)
                        || sc.direction == refr,
                    Option::None => sc.direction == spec_reflect(rin.direction, rec.normal),
                })
            }
        },
        Material::Diffuse(tex) => {
            &&& res is Some
            &&& {
                let (att, sc) = res->Some_0;
                &&& att == spec_value(tex, rec.u, rec.v, rec.p, pl)
                &&& sc.origin == rec.p
                &&& sc.time == rin.time
                &&& exists|s: V3|
                    in_unit_sphere(s) && sc.direction == v_sub(
                        v_add(v_add(rec.p, rec.normal), s),
                        rec.p,
                    )
            }
        },
        Material::Light(_) => res is None,
        Material::Metal(albedo, fuzz) => {
            let fz = fmin(fuzz as int, FX_ONE as int);
            let reflected = spec_reflect(v_unit(rin.direction), rec.normal);
            &&& (match res {
                Option::Some((att, sc)) => {
                    &&& att == albedo@
                    &&& sc.origin == rec.p
                    &&& sc.time == rin.time
                    &&& v_dot(sc.direction, rec.normal) > 0
                    &&& exists|s: V3|
                        in_unit_sphere(s) && sc.direction == v_add(reflected, v_scale(s, fz))
                },
                Option::None => exists|s: V3|
                    in_unit_sphere(s) && v_dot(v_add(reflected, v_scale(s, fz)), rec.normal) <= 0,
            })
        },
    }
}

/// What every non-scattering query returns: only a light emits.
pub open spec fn spec_emitted(m: Material, u: int, v: int, p: V3, pl: Perlin) -> V3 {
    match m {
        Material::Light(tex) => spec_value(tex, u, v, p, pl),
        _ => V3 { x: 0, y: 0, z: 0 },
    }
}

/// A point sampled uniformly inside the unit sphere by bounded rejection;
/// the center is the (astronomically unlikely) fallback.
pub fn random_in_unit_sphere() -> (r: Vec3)
    ensures
        in_unit_sphere(r@),
{
    let mut tries: usize = 0;
    while tries < 64
        invariant
            tries <= 64,
        decreases 64 - tries,
    {
        let p = Vec3::new(
            2 * fx_rand01() - FX_ONE,
            2 * fx_rand01() - FX_ONE,
            2 * fx_rand01() - FX_ONE,
        );
        if p.squared_length() < FX_ONE {
            return p;
        }
        tries = tries + 1;
    }
    Vec3::new(0, 0, 0)
}

pub fn reflect(v: Vec3, n: Vec3) -> (r: Vec3)
    ensures
        r@ == spec_reflect(v@, n@),
{
    v.sub(&n.scale(fx_mul(131072, v.dot(&n))))
}

/// Model of an optional vector.
pub open spec fn opt_v3(o: Option<Vec3>) -> Option<V3> {
    match o {
        Option::None => Option::None,
        Option::Some(v) => Option::Some(v@),
    }
}

pub fn refract(v: Vec3, n: Vec3, ni_over_nt: i64) -> (r: Option<Vec3>)
    ensures
        opt_v3(r) == spec_refract(v@, n@, ni_over_nt as int),
{
    let uv = v.unit_vector();
    let dt = uv.dot(&n);
    let disc = fx_sub(
        FX_ONE,
        fx_mul(fx_mul(ni_over_nt, ni_over_nt), fx_sub(FX_ONE, fx_mul(dt, dt))),
    );
    if disc > 0 {
        Option::Some(uv.sub(&n.scale(dt)).scale(ni_over_nt).sub(&n.scale(fx_sqrt(disc))))
    } else {
        Option::None
    }
}

pub fn schlick(cosine: i64, ref_idx: i64) -> (r: i64)
    ensures
        r as int == spec_schlick(cosine as int, ref_idx as int),
{
    let q = fx_div(fx_sub(FX_ONE, ref_idx), fx_add(FX_ONE, ref_idx));
    let r0 = fx_mul(q, q);
    let c = fx_sub(FX_ONE, cosine);
    let c5 = fx_mul(fx_mul(fx_mul(c, c), fx_mul(c, c)), c);
    fx_add(r0, fx_mul(fx_sub(FX_ONE, r0), c5))
}

impl Material {
    /// An equivalent copy, for surfaces that share one material.
    pub fn duplicate(&self) -> (r: Material)
        ensures
            mat_equiv(*self, r),
            mat_wf(*self) ==> mat_wf(r),
    {
        match self {
            Material::Glass(ri) => Material::Glass(*ri),
            Material::Diffuse(t) => Material::Diffuse(t.duplicate()),
            Material::Light(t) => Material::Light(t.duplicate()),
            Material::Metal(a, f) => Material::Metal(*a, *f),
        }
    }

    pub fn scatter(&self, r_in: &Ray, rec: &HitRecord, pl: &Perlin) -> (res: Option<(Vec3, Ray)>)
        requires
            mat_wf(*self),
            pl.wf(),
        ensures
            scatter_post(*self, r_in@, rec_v(*rec), *pl, scatter_model(res)),
    {
        match self {
            Material::Glass(ref_idx) => {
                let reflected = reflect(r_in.direction(), rec.normal);
                let din = r_in.direction().dot(&rec.normal);
                let (outward_normal, ni_over_nt, cosine) = if din > 0 {
                    let cosine = fx_div(fx_mul(*ref_idx, din), r_in.direction().length());
                    (rec.normal.neg(), *ref_idx, cosine)
                } else {
                    let cosine = fx_div(crate::fixed::fx_neg(din), r_in.direction().length());
                    (rec.normal, fx_div(FX_ONE, *ref_idx), cosine)
                };
                if let Option::Some(refracted) = refract(
                    r_in.direction(),
                    outward_normal,
                    ni_over_nt,
                ) {
                    let reflect_prob = schlick(cosine, *ref_idx);
                    if fx_rand01() < reflect_prob {
                        Option::Some((
                            Vec3::new(FX_ONE, FX_ONE, FX_ONE),
                            Ray::new(rec.p, reflected, r_in.time()),
                        ))
                    } else {
                        Option::Some((
                            Vec3::new(FX_ONE, FX_ONE, FX_ONE),
                            Ray::new(rec.p, refracted, r_in.time()),
                        ))
                    }
                } else {
                    Option::Some((
                        Vec3::new(FX_ONE, FX_ONE, FX_ONE),
                        Ray::new(rec.p, reflected, r_in.time()),
                    ))
                }
            },
            Material::Diffuse(albedo) => {
                let s = random_in_unit_sphere();
                let target = rec.p.add(&rec.normal).add(&s);
                let dir = target.sub(&rec.p);
                proof {
                    assert(in_unit_sphere(s@) && dir@ == v_sub(
                        v_add(v_add(rec.p@, rec.normal@), s@),
                        rec.p@,
                    ));
                }
                Option::Some((
                    albedo.value(rec.u, rec.v, rec.p, pl),
                    Ray::new(rec.p, dir, r_in.time()),
                ))
            },
            Material::Light(_) => Option::None,
            Material::Metal(albedo, fuzz) => {
                let fz = fx_min(*fuzz, FX_ONE);
                let reflected = reflect(r_in.direction().unit_vector(), rec.normal);
                let s = random_in_unit_sphere();
                let dir = reflected.add(&s.scale(fz));
                let scattered = Ray::new(rec.p, dir, r_in.time());
                proof {
                    assert(in_unit_sphere(s@) && dir@ == v_add(
                        spec_reflect(v_unit(r_in@.direction), rec.normal@),
                        v_scale(s@, fmin(*fuzz as int, FX_ONE as int)),
                    ));
                }
                if scattered.direction().dot(&rec.normal) > 0 {
                    Option::Some((*albedo, scattered))
                } else {
                    Option::None
                }
            },
        }
    }

    pub fn emitted(&self, u: i64, v: i64, p: Vec3, pl: &Perlin) -> (r: Vec3)
        requires
            mat_wf(*self),
            pl.wf(),
        ensures
            r@ == spec_emitted(*self, u as int, v as int, p@, *pl),
    {
        match self {
            Material::Light(emit) => emit.value(u, v, p, pl),
            _ => Vec3::new(0, 0, 0),
        }
    }
}

} // verus!
