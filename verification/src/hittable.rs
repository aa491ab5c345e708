//! The surface abstraction: the record a successful hit produces, the
//! closed set of surface variants a scene is made of, and the dispatch that
//! answers ray-intersection and bounding-box queries for each of them.
//! Composite variants recurse; a list is scanned linearly for the hit with
//! the smallest parametric distance.

use vstd::prelude::*;
use crate::aabb::{AABB, AabbV, surround, surrounding_box};
use crate::bvh::BVH;
use crate::cornellbox::CornellBox;
use crate::material::Material;
use crate::moving_sphere::MovingSphere;
use crate::ray::{Ray, RayV};
use crate::rectangle::{XYRect, XZRect, YZRect};
use crate::rotate::{RotateY, rot_y, rot_y_exec};
use crate::sphere::Sphere;
use crate::translate::Translate;
use crate::vec3::{Vec3, V3, v_add, v_sub, v_neg};
use crate::fixed::{clip, fx_neg};

verus! {

/// Transient result of a successful intersection: parametric distance,
/// world point, outward normal, surface coordinates, and the material
/// responsible, borrowed from the surface that was hit.
pub struct HitRecord<'a> {
    pub t: i64,
    pub p: Vec3,
    pub normal: Vec3,
    pub mat: &'a Material,
    pub u: i64,
    pub v: i64,
}

/// Mathematical model of a hit record.
pub ghost struct SpecHit {
    pub t: int,
    pub p: V3,
    pub normal: V3,
    pub mat: Material,
    pub u: int,
    pub v: int,
}

pub open spec fn rec_v(h: HitRecord) -> SpecHit {
    SpecHit {
        t: h.t as int,
        p: h.p@,
        normal: h.normal@,
        mat: *h.mat,
        u: h.u as int,
        v: h.v as int,
    }
}

/// The model of an optional hit.
pub open spec fn hit_model(o: Option<HitRecord>) -> Option<SpecHit> {
    match o {
        Option::None => Option::None,
        Option::Some(h) => Option::Some(rec_v(h)),
    }
}

/// The model of an optional box.
pub open spec fn bbox_model(o: Option<AABB>) -> Option<AabbV> {
    match o {
        Option::None => Option::None,
        Option::Some(b) => Option::Some(b@),
    }
}

/// Normal-flip wrapper: delegates and negates the reported normal.
pub struct FlipNormals(pub Box<Surface>);

/// The closed set of scene surfaces.
pub enum Surface {
    Sphere(Sphere),
    MovingSphere(MovingSphere),
    XYRect(XYRect),
    XZRect(XZRect),
    YZRect(YZRect),
    CornellBox(CornellBox),
    Flip(FlipNormals),
    Translated(Translate),
    Rotated(RotateY),
    Bvh(BVH),
    List(Vec<Surface>),
}

pub fn flip_normals(hittable: Surface) -> (r: Surface)
    ensures
        r matches Surface::Flip(f) && *f.0 == hittable,
{
    Surface::Flip(FlipNormals(Box::new(hittable)))
}

/// Keep the better of the hit so far and a new candidate: the smaller
/// parametric distance wins, a tie going to the later candidate, as a
/// minimum fold over the list order selects.
pub open spec fn better_hit(best: Option<SpecHit>, cur: Option<SpecHit>) -> Option<SpecHit> {
    match (best, cur) {
        (b, Option::None) => b,
        (Option::None, c) => c,
        (Option::Some(b), Option::Some(c)) => if c.t <= b.t {
            Option::Some(c)
        } else {
            Option::Some(b)
        },
    }
}

/// Linear scan over the tail of a list, carrying the best hit so far.
pub open spec fn spec_list_hit_from(
    items: Seq<Surface>,
    r: RayV,
    tmin: int,
    tmax: int,
    i: int,
    best: Option<SpecHit>,
) -> Option<SpecHit>
    decreases items, items.len() - i,
{
    if i < 0 || i >= items.len() {
        best
    } else {
        spec_list_hit_from(
            items,
            r,
            tmin,
            tmax,
            i + 1,
            better_hit(best, spec_hit(items[i], r, tmin, tmax)),
        )
    }
}

/// The nearest hit a linear scan over the whole list reports.
pub open spec fn spec_list_hit(items: Seq<Surface>, r: RayV, tmin: int, tmax: int) -> Option<
    SpecHit,
>
    decreases items, items.len() + 1,
{
    spec_list_hit_from(items, r, tmin, tmax, 0, Option::None)
}

/// What `hit` returns for each surface variant.
pub open spec fn spec_hit(s: Surface, r: RayV, tmin: int, tmax: int) -> Option<SpecHit>
    decreases s, 0int,
{
    match s {
        Surface::Sphere(sp) => crate::sphere::sphere_hit(
            sp.center@,
            sp.radius as int,
            sp.mat,
            r,
            tmin,
            tmax,
        ),
        Surface::MovingSphere(ms) => ms.spec_hit(r, tmin, tmax),
        Surface::XYRect(rc) => rc.spec_hit(r, tmin, tmax),
        Surface::XZRect(rc) => rc.spec_hit(r, tmin, tmax),
        Surface::YZRect(rc) => rc.spec_hit(r, tmin, tmax),
        Surface::CornellBox(cb) => spec_list_hit(cb.sides@, r, tmin, tmax),
        Surface::Flip(f) => match spec_hit(*f.0, r, tmin, tmax) {
            Option::Some(h) => Option::Some(SpecHit { normal: v_neg(h.normal), ..h }),
            Option::None => Option::None,
        },
        Surface::Translated(tr) => {
            let moved = RayV {
                origin: v_sub(r.origin, tr.offset@),
                direction: r.direction,
                time: r.time,
            };
            match spec_hit(*tr.hittable, moved, tmin, tmax) {
                Option::Some(h) => Option::Some(SpecHit { p: v_add(h.p, tr.offset@), ..h }),
                Option::None => Option::None,
            }
        },
        Surface::Rotated(ro) => {
            let cs = ro.cos_theta as int;
            let sn = ro.sin_theta as int;
            let rotated = RayV {
                origin: rot_y(cs, sn, r.origin),
                direction: rot_y(cs, sn, r.direction),
                time: r.time,
            };
            match spec_hit(*ro.hittable, rotated, tmin, tmax) {
                Option::Some(h) => Option::Some(
                    SpecHit {
                        p: rot_y(cs, clip(-sn), h.p),
                        normal: rot_y(cs, clip(-sn), h.normal),
                        ..h
                    },
                ),
                Option::None => Option::None,
            }
        },
        Surface::Bvh(b) => crate::bvh::spec_bvh_hit(b, r, tmin, tmax),
        Surface::List(v) => spec_list_hit(v@, r, tmin, tmax),
    }
}

/// Fold of the bounding boxes of the tail of a list; any child without a
/// box makes the whole list unbounded.
pub open spec fn spec_list_bbox_from(
    items: Seq<Surface>,
    t0: int,
    t1: int,
    i: int,
    acc: AabbV,
) -> Option<AabbV>
    decreases items, items.len() - i,
{
    if i < 0 || i >= items.len() {
        Option::Some(acc)
    } else {
        match spec_bbox(items[i], t0, t1) {
            Option::None => Option::None,
            Option::Some(b) => spec_list_bbox_from(items, t0, t1, i + 1, surround(acc, b)),
        }
    }
}

/// The box of a list: the merge of every child's box, seeded from the
/// first child's, or nothing for an empty list.
pub open spec fn spec_list_bbox(items: Seq<Surface>, t0: int, t1: int) -> Option<AabbV>
    decreases items, items.len() + 1,
{
    if items.len() == 0 {
        Option::None
    } else {
        match spec_bbox(items[0], t0, t1) {
            Option::None => Option::None,
            Option::Some(b0) => spec_list_bbox_from(items, t0, t1, 0, b0),
        }
    }
}

/// What `bounding_box` returns for each surface variant.
pub open spec fn spec_bbox(s: Surface, t0: int, t1: int) -> Option<AabbV>
    decreases s, 0int,
{
    match s {
        Surface::Sphere(sp) => Option::Some(sp.spec_bounding_box()),
        Surface::MovingSphere(ms) => Option::Some(ms.spec_bounding_box(t0, t1)),
        Surface::XYRect(rc) => Option::Some(rc.spec_bounding_box()),
        Surface::XZRect(rc) => Option::Some(rc.spec_bounding_box()),
        Surface::YZRect(rc) => Option::Some(rc.spec_bounding_box()),
        Surface::CornellBox(cb) => Option::Some(AabbV { min: cb.pmin@, max: cb.pmax@ }),
        Surface::Flip(f) => spec_bbox(*f.0, t0, t1),
        Surface::Translated(tr) => match spec_bbox(*tr.hittable, t0, t1) {
            Option::Some(b) => Option::Some(
                AabbV { min: v_add(b.min, tr.offset@), max: v_add(b.max, tr.offset@) },
            ),
            Option::None => Option::None,
        },
        Surface::Rotated(ro) => bbox_model(ro.bbox),
        Surface::Bvh(b) => Option::Some(crate::bvh::bvh_box(b)),
        Surface::List(v) => spec_list_bbox(v@, t0, t1),
    }
}

/// Every material reachable in the tail of a list is well formed.
pub open spec fn list_wf(items: Seq<Surface>, i: int) -> bool
    decreases items, items.len() - i,
{
    if i < 0 || i >= items.len() {
        true
    } else {
        surface_wf(items[i]) && list_wf(items, i + 1)
    }
}

/// Every material a query of this surface can hand out is well formed.
pub open spec fn surface_wf(s: Surface) -> bool
    decreases s, 1int,
{
    match s {
        Surface::Sphere(sp) => crate::material::mat_wf(sp.mat),
        Surface::MovingSphere(ms) => crate::material::mat_wf(ms.mat),
        Surface::XYRect(rc) => crate::material::mat_wf(rc.mat),
        Surface::XZRect(rc) => crate::material::mat_wf(rc.mat),
        Surface::YZRect(rc) => crate::material::mat_wf(rc.mat),
        Surface::CornellBox(cb) => list_wf(cb.sides@, 0),
        Surface::Flip(f) => surface_wf(*f.0),
        Surface::Translated(tr) => surface_wf(*tr.hittable),
        Surface::Rotated(ro) => surface_wf(*ro.hittable),
        Surface::Bvh(b) => crate::bvh::bvh_mats_wf(b),
        Surface::List(v) => list_wf(v@, 0),
    }
}

/// Linear scan: try each child in order, keeping the nearest hit.
pub fn hit_list_from<'a>(
    list: &'a Vec<Surface>,
    r: &Ray,
    t_min: i64,
    t_max: i64,
    i: usize,
    best: Option<HitRecord<'a>>,
) -> (res: Option<HitRecord<'a>>)
    ensures
        hit_model(res) == spec_list_hit_from(
            list@,
            r@,
            t_min as int,
            t_max as int,
            i as int,
            hit_model(best),
        ),
    decreases list@, list@.len() - i,
{
    if i >= list.len() {
        best
    } else {
        let cur = list[i].hit(r, t_min, t_max);
        let next = match (best, cur) {
            (b, Option::None) => b,
            (Option::None, c) => c,
            (Option::Some(b), Option::Some(c)) => if c.t <= b.t {
                Option::Some(c)
            } else {
                Option::Some(b)
            },
        };
        hit_list_from(list, r, t_min, t_max, i + 1, next)
    }
}

/// Box fold over a list's children.
pub fn bbox_list_from(
    list: &Vec<Surface>,
    t0: i64,
    t1: i64,
    i: usize,
    acc: AABB,
) -> (res: Option<AABB>)
    ensures
        bbox_model(res) == spec_list_bbox_from(list@, t0 as int, t1 as int, i as int, acc@),
    decreases list@, list@.len() - i,
{
    if i >= list.len() {
        Option::Some(acc)
    } else {
        match list[i].bounding_box(t0, t1) {
            Option::None => Option::None,
            Option::Some(b) => bbox_list_from(list, t0, t1, i + 1, surrounding_box(acc, b)),
        }
    }
}

/// The nearest hit among a whole list of surfaces.
pub fn hit_list<'a>(list: &'a Vec<Surface>, r: &Ray, t_min: i64, t_max: i64) -> (res: Option<
    HitRecord<'a>,
>)
    ensures
        hit_model(res) == spec_list_hit(list@, r@, t_min as int, t_max as int),
{
    hit_list_from(list, r, t_min, t_max, 0, Option::None)
}

/// The merged bounding box of a whole list of surfaces.
pub fn bbox_list(list: &Vec<Surface>, t0: i64, t1: i64) -> (res: Option<AABB>)
    ensures
        bbox_model(res) == spec_list_bbox(list@, t0 as int, t1 as int),
{
    if list.len() == 0 {
        Option::None
    } else {
        match list[0].bounding_box(t0, t1) {
            Option::None => Option::None,
            Option::Some(b0) => bbox_list_from(list, t0, t1, 0, b0),
        }
    }
}

impl Surface {
    /// The closest intersection with parametric distance in the window, or
    /// nothing.
    pub fn hit<'a>(&'a self, r: &Ray, t_min: i64, t_max: i64) -> (res: Option<HitRecord<'a>>)
        ensures
            hit_model(res) == spec_hit(*self, r@, t_min as int, t_max as int),
        decreases *self, 0int,
    {
        match self {
            Surface::Sphere(sp) => sp.hit(r, t_min, t_max),
            Surface::MovingSphere(ms) => ms.hit(r, t_min, t_max),
            Surface::XYRect(rc) => rc.hit(r, t_min, t_max),
            Surface::XZRect(rc) => rc.hit(r, t_min, t_max),
            Surface::YZRect(rc) => rc.hit(r, t_min, t_max),
            Surface::CornellBox(cb) => {
                let res = hit_list_from(&cb.sides, r, t_min, t_max, 0, Option::None);
                proof {
                    assert(spec_list_hit(cb.sides@, r@, t_min as int, t_max as int)
                        == spec_list_hit_from(
                        cb.sides@,
                        r@,
                        t_min as int,
                        t_max as int,
                        0,
                        Option::None,
                    ));
                }
                res
            },
            Surface::Flip(f) => match f.0.hit(r, t_min, t_max) {
                Option::Some(rec) => Option::Some(HitRecord { normal: rec.normal.neg(), ..rec }),
                Option::None => Option::None,
            },
            Surface::Translated(tr) => {
                let moved = Ray::new(r.origin().sub(&tr.offset), r.direction(), r.time());
                match tr.hittable.hit(&moved, t_min, t_max) {
                    Option::Some(rec) => Option::Some(
                        HitRecord { p: rec.p.add(&tr.offset), ..rec },
                    ),
                    Option::None => Option::None,
                }
            },
            Surface::Rotated(ro) => {
                let origin = rot_y_exec(ro.cos_theta, ro.sin_theta, r.origin());
                let direction = rot_y_exec(ro.cos_theta, ro.sin_theta, r.direction());
                let rotated = Ray::new(origin, direction, r.time());
                match ro.hittable.hit(&rotated, t_min, t_max) {
                    Option::Some(rec) => {
                        let nsn = fx_neg(ro.sin_theta);
                        Option::Some(
                            HitRecord {
                                p: rot_y_exec(ro.cos_theta, nsn, rec.p),
                                normal: rot_y_exec(ro.cos_theta, nsn, rec.normal),
                                ..rec
                            },
                        )
                    },
                    Option::None => Option::None,
                }
            },
            Surface::Bvh(b) => b.hit(r, t_min, t_max),
            Surface::List(v) => {
                let res = hit_list_from(v, r, t_min, t_max, 0, Option::None);
                proof {
                    assert(spec_list_hit(v@, r@, t_min as int, t_max as int)
                        == spec_list_hit_from(v@, r@, t_min as int, t_max as int, 0, Option::None));
                }
                res
            },
        }
    }

    /// A box enclosing the surface across the time interval, or nothing if
    /// it has none.
    pub fn bounding_box(&self, t0: i64, t1: i64) -> (res: Option<AABB>)
        ensures
            bbox_model(res) == spec_bbox(*self, t0 as int, t1 as int),
        decreases *self, 0int,
    {
        match self {
            Surface::Sphere(sp) => sp.bounding_box(t0, t1),
            Surface::MovingSphere(ms) => ms.bounding_box(t0, t1),
            Surface::XYRect(rc) => rc.bounding_box(t0, t1),
            Surface::XZRect(rc) => rc.bounding_box(t0, t1),
            Surface::YZRect(rc) => rc.bounding_box(t0, t1),
            Surface::CornellBox(cb) => Option::Some(AABB::new(cb.pmin, cb.pmax)),
            Surface::Flip(f) => f.0.bounding_box(t0, t1),
            Surface::Translated(tr) => match tr.hittable.bounding_box(t0, t1) {
                Option::Some(b) => Option::Some(
                    AABB::new(b.min.add(&tr.offset), b.max.add(&tr.offset)),
                ),
                Option::None => Option::None,
            },
            Surface::Rotated(ro) => match &ro.bbox {
                Option::Some(b) => Option::Some(*b),
                Option::None => Option::None,
            },
            Surface::Bvh(b) => b.bounding_box(t0, t1),
            Surface::List(v) => {
                proof {
                    if v@.len() > 0 {
                        assert(spec_list_bbox(v@, t0 as int, t1 as int) == (match spec_bbox(
                            v@[0],
                            t0 as int,
                            t1 as int,
                        ) {
                            Option::None => Option::None,
                            Option::Some(b0) => spec_list_bbox_from(v@, t0 as int, t1 as int, 0, b0),
                        }));
                    }
                }
                if v.len() == 0 {
                    Option::None
                } else {
                    match v[0].bounding_box(t0, t1) {
                        Option::None => Option::None,
                        Option::Some(b0) => bbox_list_from(v, t0, t1, 0, b0),
                    }
                }
            },
        }
    }
}

} // verus!
