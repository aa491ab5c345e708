//! Translation wrapper: queries shift the ray into the wrapped surface's
//! local frame and shift the resulting hit point back.

use vstd::prelude::*;
use crate::fixed::in_range;
use crate::hittable::Surface;
use crate::vec3::{Vec3, V3, v_add, v_sub};

verus! {

/// Translating a point and translating it back is the identity: the hit
/// point a translated surface reports, shifted back by the offset, is
/// exactly the point the wrapped surface reported, whenever neither step
/// saturates.
pub proof fn lemma_translate_round_trip(p: V3, off: V3)
    requires
        in_range(p.x),
        in_range(p.y),
        in_range(p.z),
        in_range(p.x + off.x),
        in_range(p.y + off.y),
        in_range(p.z + off.z),
    ensures
        v_sub(v_add(p, off), off) == p,
{
}

pub struct Translate {
    pub hittable: Box<Surface>,
    pub offset: Vec3,
}

impl Translate {
    pub fn new(hittable: Surface, offset: Vec3) -> (r: Translate)
        ensures
            *r.hittable == hittable,
            r.offset == offset,
    {
        Translate { hittable: Box::new(hittable), offset }
    }
}

} // verus!
