//! An axis-aligned box built from six rectangles, three of them with
//! flipped normals so every face looks inward toward the box's interior
//! when used as a room, or outward when used as a block. The box's own
//! corners give its bounding box directly.

use vstd::prelude::*;
use crate::hittable::{Surface, flip_normals};
use crate::material::{Material, mat_equiv};
use crate::rectangle::{XYRect, XZRect, YZRect};
use crate::vec3::Vec3;

verus! {

pub struct CornellBox {
    pub pmin: Vec3,
    pub pmax: Vec3,
    pub sides: Vec<Surface>,
}

/// The six sides a box is built from, each with a material equivalent to
/// the one handed in.
pub open spec fn cornell_sides(c: CornellBox, p0: Vec3, p1: Vec3, mat: Material) -> bool {
    &&& c.sides@.len() == 6
    &&& c.sides@[0] matches Surface::XYRect(r0) && r0.x0 == p0.x && r0.x1 == p1.x && r0.y0 == p0.y
        && r0.y1 == p1.y && r0.k == p1.z && mat_equiv(mat, r0.mat)
    &&& c.sides@[1] matches Surface::Flip(f1) && (*f1.0 matches Surface::XYRect(r1) && r1.x0
        == p0.x && r1.x1 == p1.x && r1.y0 == p0.y && r1.y1 == p1.y && r1.k == p0.z && mat_equiv(
        mat,
        r1.mat,
    ))
    &&& c.sides@[2] matches Surface::XZRect(r2) && r2.x0 == p0.x && r2.x1 == p1.x && r2.z0 == p0.z
        && r2.z1 == p1.z && r2.k == p1.y && mat_equiv(mat, r2.mat)
    &&& c.sides@[3] matches Surface::Flip(f3) && (*f3.0 matches Surface::XZRect(r3) && r3.x0
        == p0.x && r3.x1 == p1.x && r3.z0 == p0.z && r3.z1 == p1.z && r3.k == p0.y && mat_equiv(
        mat,
        r3.mat,
    ))
    &&& c.sides@[4] matches Surface::YZRect(r4) && r4.y0 == p0.y && r4.y1 == p1.y && r4.z0 == p0.z
        && r4.z1 == p1.z && r4.k == p1.x && mat_equiv(mat, r4.mat)
    &&& c.sides@[5] matches Surface::Flip(f5) && (*f5.0 matches Surface::YZRect(r5) && r5.y0
        == p0.y && r5.y1 == p1.y && r5.z0 == p0.z && r5.z1 == p1.z && r5.k == p0.x && mat_equiv(
        mat,
        r5.mat,
    ))
}

impl CornellBox {
    pub fn new(p0: Vec3, p1: Vec3, mat: Material) -> (r: CornellBox)
        ensures
            r.pmin == p0,
            r.pmax == p1,
            cornell_sides(r, p0, p1, mat),
    {
        let mut sides: Vec<Surface> = Vec::new();
        sides.push(
            Surface::XYRect(XYRect::new(p0.x(), p1.x(), p0.y(), p1.y(), p1.z(), mat.duplicate())),
        );
        sides.push(
            flip_normals(
                Surface::XYRect(
                    XYRect::new(p0.x(), p1.x(), p0.y(), p1.y(), p0.z(), mat.duplicate()),
                ),
            ),
        );
        sides.push(
            Surface::XZRect(XZRect::new(p0.x(), p1.x(), p0.z(), p1.z(), p1.y(), mat.duplicate())),
        );
        sides.push(
            flip_normals(
                Surface::XZRect(
                    XZRect::new(p0.x(), p1.x(), p0.z(), p1.z(), p0.y(), mat.duplicate()),
                ),
            ),
        );
        sides.push(
            Surface::YZRect(YZRect::new(p0.y(), p1.y(), p0.z(), p1.z(), p1.x(), mat.duplicate())),
        );
        sides.push(
            flip_normals(
                Surface::YZRect(
                    YZRect::new(p0.y(), p1.y(), p0.z(), p1.z(), p0.x(), mat.duplicate()),
                ),
            ),
        );
        CornellBox { pmin: p0, pmax: p1, sides }
    }
}

} // verus!
