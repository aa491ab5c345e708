//! The path-tracing core: recursive radiance along one ray. A miss returns
//! the scene's background function; a hit contributes the material's
//! emission plus, while the depth bound allows and the material scatters,
//! the scattered ray's radiance filtered by the attenuation color.

use vstd::prelude::*;
use crate::fixed::{FX_ONE, FX_BOUND, fadd, fsub, fmul};
use crate::fixed::{fx_add, fx_sub, fx_mul};
use crate::hittable::{Surface, surface_wf, spec_hit, rec_v};
use crate::material::spec_emitted;
use crate::perlin::Perlin;
use crate::ray::{Ray, RayV};
use crate::vec3::{Vec3, V3, v_add, v_mul, v_scale, v_unit};

verus! {

/// The lower bound of every scene query, which avoids immediate
/// self-intersection of a scattered ray with the surface it left.
pub const HIT_EPS_FX: i64 = 66;

/// The recursion bound of the integrator.
pub const MAX_DEPTH: u32 = 50;

/// What a ray that escapes the scene contributes: a vertical gradient for
/// open scenes, nothing for enclosed ones.
#[derive(Clone, Copy, Debug, PartialEq, Eq, Structural)]
pub enum Background {
    Gradient,
    Black,
}

pub open spec fn spec_background(bg: Background, r: RayV) -> V3 {
    match bg {
        Background::Black => V3 { x: 0, y: 0, z: 0 },
        Background::Gradient => {
            let ud = v_unit(r.direction);
            let t = fmul(fadd(ud.y, FX_ONE as int), 32768);
            v_add(
                v_scale(
                    V3 { x: FX_ONE as int, y: FX_ONE as int, z: FX_ONE as int },
                    fsub(FX_ONE as int, t),
                ),
                v_scale(V3 { x: 32768, y: 45875, z: 65536 }, t),
            )
        },
    }
}

pub fn background_color(bg: Background, r: &Ray) -> (res: Vec3)
    ensures
        res@ == spec_background(bg, r@),
{
    match bg {
        Background::Black => Vec3::new(0, 0, 0),
        Background::Gradient => {
            let ud = r.direction().unit_vector();
            let t = fx_mul(fx_add(ud.y(), FX_ONE), 32768);
            Vec3::new(FX_ONE, FX_ONE, FX_ONE).scale(fx_sub(FX_ONE, t)).add(
                &Vec3::new(32768, 45875, 65536).scale(t),
            )
        },
    }
}

/// What one radiance sample satisfies, whatever the material draws: a miss
/// is exactly the background; a hit of a light, or a hit once the depth
/// bound is reached, is exactly the emission; below the bound, either the
/// material absorbed — an outcome its own scatter contract admits — and
/// the result is exactly the emission, or there is a scatter outcome
/// admitted by that contract and a recursive sample satisfying this very
/// contract on the scattered ray whose combination the result equals. A
/// deterministic scatter (a perfect mirror, total internal reflection)
/// therefore pins the result completely.
pub open spec fn color_post(
    world: Surface,
    rv: RayV,
    depth: int,
    bg: Background,
    pl: Perlin,
    resv: V3,
) -> bool
    decreases MAX_DEPTH - depth,
{
    match spec_hit(world, rv, HIT_EPS_FX as int, FX_BOUND as int) {
        Option::None => resv == spec_background(bg, rv),
        Option::Some(h) => {
            let e = spec_emitted(h.mat, h.u, h.v, h.p, pl);
            &&& (h.mat is Light ==> resv == e)
            &&& (depth >= MAX_DEPTH ==> resv == e)
            &&& (depth < MAX_DEPTH ==> {
                ||| {
                    &&& crate::material::scatter_post(h.mat, rv, h, pl, Option::None)
                    &&& resv == e
                }
                ||| exists|att: V3, sc: RayV, c: V3|
                    #![trigger crate::material::scatter_post(h.mat, rv, h, pl, Option::Some((att, sc))), v_mul(att, c)]
                    {
                        &&& crate::material::scatter_post(h.mat, rv, h, pl, Option::Some((att, sc)))
                        &&& color_post(world, sc, depth + 1, bg, pl, c)
                        &&& resv == v_add(e, v_mul(att, c))
                    }
            })
        },
    }
}

/// One radiance sample along a ray.
pub fn color(r: &Ray, world: &Surface, depth: u32, background: Background, pl: &Perlin) -> (res:
    Vec3)
    requires
        surface_wf(*world),
        pl.wf(),
        depth <= MAX_DEPTH,
    ensures
        color_post(*world, r@, depth as int, background, *pl, res@),
    decreases MAX_DEPTH - depth,
{
    match world.hit(r, HIT_EPS_FX, FX_BOUND) {
        Option::Some(rec) => {
            proof {
                crate::bvh::lemma_hit_wf(*world, r@, HIT_EPS_FX as int, FX_BOUND as int);
            }
            let emitted = rec.mat.emitted(rec.u, rec.v, rec.p, pl);
            match rec.mat.scatter(r, &rec, pl) {
                Option::Some((attenuation, scattered)) => {
                    if depth < MAX_DEPTH {
                        let deeper = color(&scattered, world, depth + 1, background, pl);
                        let res = emitted.add(&attenuation.mul(&deeper));
                        proof {
                            assert(crate::material::scatter_post(
                                rec_v(rec).mat,
                                r@,
                                rec_v(rec),
                                *pl,
                                Option::Some((attenuation@, scattered@)),
                            ) && color_post(
                                *world,
                                scattered@,
                                depth as int + 1,
                                background,
                                *pl,
                                deeper@,
                            ) && res@ == v_add(emitted@, v_mul(attenuation@, deeper@)));
                        }
                        res
                    } else {
                        emitted
                    }
                },
                Option::None => emitted,
            }
        },
        Option::None => background_color(background, r),
    }
}

} // verus!
