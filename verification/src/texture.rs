//! Color as a function of a hit's surface coordinates and point: solid
//! colors, a 3D checkerboard, Perlin-marble, and nearest-neighbor lookup in
//! a stored image.

use vstd::prelude::*;
use crate::fixed::{FX_ONE, fadd, fsub, fmul, fdiv, tdiv};
use crate::fixed::{fx_add, fx_sub, fx_mul, fx_div};
use crate::perlin::{Perlin, spec_noise, spec_turbulence, turbulence};
use crate::trig::{fsin, fx_sin};
use crate::vec3::{Vec3, V3};

verus! {

pub enum Texture {
    Checker { odd: Box<Texture>, even: Box<Texture> },
    Image { data: Vec<u8>, w: u32, h: u32 },
    Noise { scale: i64 },
    Solid { color: Vec3 },
}

/// Well-formedness: an image's pixel buffer really holds `w * h` RGB
/// triplets (and has positive, moderate dimensions); a checker's children
/// are well formed in turn.
pub open spec fn tex_wf(t: Texture) -> bool
    decreases t,
{
    match t {
        Texture::Checker { odd, even } => tex_wf(*odd) && tex_wf(*even),
        Texture::Image { data, w, h } => {
            &&& 1 <= w <= 65536
            &&& 1 <= h <= 65536
            &&& data.len() == 3 * w * h
        },
        Texture::Noise { .. } => true,
        Texture::Solid { .. } => true,
    }
}

/// Clamp a surface coordinate into `[0, 1]` before scaling by the image
/// size; the subsequent index clamp makes this the same lookup the
/// unclamped computation selects.
pub open spec fn clamp01(x: int) -> int {
    if x < 0 {
        0
    } else if x > FX_ONE {
        FX_ONE as int
    } else {
        x
    }
}

/// Horizontal pixel index for coordinate `u`.
pub open spec fn image_col(u: int, w: int) -> int {
    let i = tdiv(clamp01(u) * w, 65536);
    if i > w - 1 {
        w - 1
    } else {
        i
    }
}

/// Vertical pixel index for coordinate `v`: rows are stored top to bottom
/// while `v` grows bottom to top, and a small bias keeps `v == 0` inside
/// the bottom row.
pub open spec fn image_row(v: int, h: int) -> int {
    let j = tdiv((FX_ONE - clamp01(v)) * h - 66, 65536);
    let j2 = if j < 0 {
        0
    } else {
        j
    };
    if j2 > h - 1 {
        h - 1
    } else {
        j2
    }
}

/// One 8-bit channel as a fixed-point fraction of full brightness.
pub open spec fn channel(b: int) -> int {
    fdiv(b * 65536, 16711680)
}

pub open spec fn spec_value(t: Texture, u: int, v: int, p: V3, pl: Perlin) -> V3
    decreases t,
{
    match t {
        Texture::Checker { odd, even } => {
            let sines = fmul(
                fmul(fsin(fmul(655360, p.x)), fsin(fmul(655360, p.y))),
                fsin(fmul(655360, p.z)),
            );
            if sines < 0 {
                spec_value(*odd, u, v, p, pl)
            } else {
                spec_value(*even, u, v, p, pl)
            }
        },
        Texture::Image { data, w, h } => {
            let i = image_col(u, w as int);
            let j = image_row(v, h as int);
            let base = 3 * i + 3 * (w as int) * j;
            V3 {
                x: channel(data@[base] as int),
                y: channel(data@[base + 1] as int),
                z: channel(data@[base + 2] as int),
            }
        },
        Texture::Noise { scale } => {
            let s = fsin(
                fadd(
                    fmul(scale as int, p.z),
                    fmul(655360, spec_turbulence(pl, p, 7)),
                ),
            );
            let g = fmul(fadd(FX_ONE as int, s), 32768);
            V3 { x: g, y: g, z: g }
        },
        Texture::Solid { color } => color@,
    }
}

/// Structural equivalence: the same texture tree with the same scalars and
/// the same pixel contents. (A copied pixel buffer is a different `Vec`
/// value, so plain equality is too strong for a duplicate.)
pub open spec fn tex_equiv(a: Texture, b: Texture) -> bool
    decreases a,
{
    match (a, b) {
        (Texture::Checker { odd: o1, even: e1 }, Texture::Checker { odd: o2, even: e2 }) => {
            tex_equiv(*o1, *o2) && tex_equiv(*e1, *e2)
        },
        (Texture::Image { data: d1, w: w1, h: h1 }, Texture::Image { data: d2, w: w2, h: h2 }) => {
            d1@ == d2@ && w1 == w2 && h1 == h2
        },
        (Texture::Noise { scale: s1 }, Texture::Noise { scale: s2 }) => s1 == s2,
        (Texture::Solid { color: c1 }, Texture::Solid { color: c2 }) => c1 == c2,
        _ => false,
    }
}

fn clamp01_exec(x: i64) -> (r: i64)
    ensures
        r as int == clamp01(x as int),
{
    if x < 0 {
        0
    } else if x > FX_ONE {
        FX_ONE
    } else {
        x
    }
}

impl Texture {
    pub fn checker(odd: Texture, even: Texture) -> (r: Texture)
        ensures
            r matches Texture::Checker { odd: o, even: e } && *o == odd && *e == even,
    {
        Texture::Checker { odd: Box::new(odd), even: Box::new(even) }
    }

    pub fn noise(scale: i64) -> (r: Texture)
        ensures
            r == (Texture::Noise { scale }),
    {
        Texture::Noise { scale }
    }

    pub fn solid(color: Vec3) -> (r: Texture)
        ensures
            r == (Texture::Solid { color }),
    {
        Texture::Solid { color }
    }

    /// An equivalent copy: the same tree and scalars, with pixel buffers
    /// copied byte for byte.
    pub fn duplicate(&self) -> (r: Texture)
        ensures
            tex_equiv(*self, r),
            tex_wf(*self) ==> tex_wf(r),
        decreases *self,
    {
        match self {
            Texture::Checker { odd, even } => Texture::Checker {
                odd: Box::new(odd.duplicate()),
                even: Box::new(even.duplicate()),
            },
            Texture::Image { data, w, h } => {
                let d2 = data.clone();
                proof {
                    assert(d2@ =~= data@);
                }
                Texture::Image { data: d2, w: *w, h: *h }
            },
            Texture::Noise { scale } => Texture::Noise { scale: *scale },
            Texture::Solid { color } => Texture::Solid { color: *color },
        }
    }

    pub fn value(&self, u: i64, v: i64, p: Vec3, pl: &Perlin) -> (r: Vec3)
        requires
            tex_wf(*self),
            pl.wf(),
        ensures
            r@ == spec_value(*self, u as int, v as int, p@, *pl),
        decreases *self,
    {
        match self {
            Texture::Checker { odd, even } => {
                let sines = fx_mul(
                    fx_mul(fx_sin(fx_mul(655360, p.x())), fx_sin(fx_mul(655360, p.y()))),
                    fx_sin(fx_mul(655360, p.z())),
                );
                if sines < 0 {
                    odd.value(u, v, p, pl)
                } else {
                    even.value(u, v, p, pl)
                }
            },
            Texture::Image { data, w, h } => {
                let wi = *w as i64;
                let hi = *h as i64;
                let cu = clamp01_exec(u);
                proof {
                    assert(0 <= (cu as int) * (wi as int) <= 0x1_0000_0000_0000) by (nonlinear_arith)
                        requires
                            0 <= cu as int <= 65536,
                            0 <= wi as int <= 65536,
                    ;
                }
                let i0 = (cu * wi) / 65536;
                let i = if i0 > wi - 1 {
                    wi - 1
                } else {
                    i0
                };
                let cv = clamp01_exec(v);
                proof {
                    assert(0 <= (FX_ONE - cv) as int * (hi as int) <= 0x1_0000_0000_0000)
                        by (nonlinear_arith)
                        requires
                            0 <= (FX_ONE - cv) as int <= 65536,
                            0 <= hi as int <= 65536,
                    ;
                }
                let jn = (FX_ONE - cv) * hi - 66;
                let j0 = if jn >= 0 {
                    jn / 65536
                } else {
                    0
                };
                let j = if j0 > hi - 1 {
                    hi - 1
                } else {
                    j0
                };
                proof {
                    assert(i as int == image_col(u as int, *w as int));
                    assert(jn >= 0 ==> jn / 65536 == tdiv(jn as int, 65536));
                    assert(jn < 0 ==> tdiv(jn as int, 65536) <= 0) by {
                        assert(jn < 0 ==> (-(jn as int)) / 65536 >= 0);
                    }
                    assert(j as int == image_row(v as int, *h as int));
                    assert(0 <= i && 0 <= j);
                    assert(3 * (i as int) + 3 * (*w as int) * (j as int) + 2 < data@.len())
                        by (nonlinear_arith)
                        requires
                            0 <= i <= *w as int - 1,
                            0 <= j <= *h as int - 1,
                            data@.len() == 3 * (*w as int) * (*h as int),
                            1 <= *w as int,
                            1 <= *h as int,
                    ;
                }
                let base = 3 * (i as usize) + 3 * (*w as usize) * (j as usize);
                let cr = fx_div((data[base] as i64) * 65536, 16711680);
                let cg = fx_div((data[base + 1] as i64) * 65536, 16711680);
                let cb = fx_div((data[base + 2] as i64) * 65536, 16711680);
                Vec3::new(cr, cg, cb)
            },
            Texture::Noise { scale } => {
                let t = turbulence(pl, p, 7);
                let s = fx_sin(fx_add(fx_mul(*scale, p.z()), fx_mul(655360, t)));
                let g = fx_mul(fx_add(FX_ONE, s), 32768);
                Vec3::new(g, g, g)
            },
            Texture::Solid { color } => *color,
        }
    }
}

} // verus!
