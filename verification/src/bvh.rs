//! Bounding-volume hierarchy: a binary tree over surfaces, built by
//! splitting the collection at its midpoint after sorting along a randomly
//! chosen axis, each node caching the box that encloses its children.
//! Traversal prunes a whole subtree the moment the ray misses its box.

use vstd::prelude::*;
use vstd::assert_multisets_equal;
use crate::aabb::{AABB, AabbV, aabb_hit, surround, surrounding_box};
use crate::hittable::{
    HitRecord,
    SpecHit,
    Surface,
    hit_model,
    bbox_model,
    spec_hit,
    spec_bbox,
};
use crate::ray::{Ray, RayV};
use crate::rng::random_axis;

verus! {

pub enum BVH {
    Single { left: Box<Surface>, bbox: AABB },
    Double { left: Box<Surface>, right: Box<Surface>, bbox: AABB },
}

/// Why a hierarchy could not be built: both point at a scene-construction
/// bug rather than a runtime condition.
#[derive(Debug, PartialEq, Eq, Structural)]
pub enum BvhError {
    EmptyScene,
    MissingBoundingBox,
}

/// The box a node caches.
pub open spec fn bvh_box(b: BVH) -> AabbV {
    match b {
        BVH::Single { bbox, .. } => bbox@,
        BVH::Double { bbox, .. } => bbox@,
    }
}

/// Traversal: nothing if the ray misses the node's box, otherwise the
/// nearer of the children's hits, ties resolved in favor of the left child.
pub open spec fn spec_bvh_hit(b: BVH, r: RayV, tmin: int, tmax: int) -> Option<SpecHit>
    decreases b, 0int,
{
    match b {
        BVH::Single { left, bbox } => {
            if aabb_hit(bbox@, r, tmin, tmax) {
                spec_hit(*left, r, tmin, tmax)
            } else {
                Option::None
            }
        },
        BVH::Double { left, right, bbox } => {
            if aabb_hit(bbox@, r, tmin, tmax) {
                match (spec_hit(*left, r, tmin, tmax), spec_hit(*right, r, tmin, tmax)) {
                    (Option::Some(lh), Option::Some(rh)) => if lh.t <= rh.t {
                        Option::Some(lh)
                    } else {
                        Option::Some(rh)
                    },
                    (Option::Some(lh), Option::None) => Option::Some(lh),
                    (Option::None, Option::Some(rh)) => Option::Some(rh),
                    (Option::None, Option::None) => Option::None,
                }
            } else {
                Option::None
            }
        },
    }
}

/// The leaf surfaces under a surface: a built hierarchy is flattened,
/// anything else is a leaf of its own.
pub open spec fn surface_items(s: Surface) -> Seq<Surface>
    decreases s, 1int,
{
    match s {
        Surface::Bvh(b) => bvh_items(b),
        _ => seq![s],
    }
}

/// The leaf surfaces under a node, left subtree first.
pub open spec fn bvh_items(b: BVH) -> Seq<Surface>
    decreases b, 0int,
{
    match b {
        BVH::Single { left, .. } => surface_items(*left),
        BVH::Double { left, right, .. } => surface_items(*left) + surface_items(*right),
    }
}

/// Structural consistency of a subtree hanging off a surface.
pub open spec fn surface_tree_wf(s: Surface, t0: int, t1: int) -> bool
    decreases s, 1int,
{
    match s {
        Surface::Bvh(b) => bvh_wf(b, t0, t1),
        _ => true,
    }
}

/// Structural consistency of a node: every child has a box, the cached box
/// is exactly the children's enclosure, and subtrees are consistent.
pub open spec fn bvh_wf(b: BVH, t0: int, t1: int) -> bool
    decreases b, 0int,
{
    match b {
        BVH::Single { left, bbox } => {
            &&& spec_bbox(*left, t0, t1) matches Option::Some(lb) && bbox@ == lb
            &&& surface_tree_wf(*left, t0, t1)
        },
        BVH::Double { left, right, bbox } => {
            &&& spec_bbox(*left, t0, t1) matches Option::Some(lb) && (spec_bbox(*right, t0, t1)
                matches Option::Some(rb) && bbox@ == surround(lb, rb))
            &&& surface_tree_wf(*left, t0, t1)
            &&& surface_tree_wf(*right, t0, t1)
        },
    }
}

/// Every surface in the collection has a box, both at the reference time
/// used for sorting and across the query interval.
pub open spec fn all_boxed(items: Seq<Surface>, t0: int, t1: int) -> bool {
    forall|i: int|
        0 <= i < items.len() ==> (#[trigger] spec_bbox(items[i], 0, 0)) is Some && spec_bbox(
            items[i],
            t0,
            t1,
        ) is Some
}

/// Every surface in the collection carries only consistent subtrees.
pub open spec fn all_tree_wf(items: Seq<Surface>, t0: int, t1: int) -> bool {
    forall|i: int| 0 <= i < items.len() ==> #[trigger] surface_tree_wf(items[i], t0, t1)
}

/// No element of the collection is itself a hierarchy node; then the built
/// tree's flattened leaves are exactly the input surfaces.
pub open spec fn no_nested(items: Seq<Surface>) -> bool {
    forall|i: int| 0 <= i < items.len() ==> !((#[trigger] items[i]) is Bvh)
}

/// Every material under a node is well formed.
pub open spec fn bvh_mats_wf(b: BVH) -> bool
    decreases b, 0int,
{
    match b {
        BVH::Single { left, .. } => crate::hittable::surface_wf(*left),
        BVH::Double { left, right, .. } => crate::hittable::surface_wf(*left)
            && crate::hittable::surface_wf(*right),
    }
}

/// A hit of a well-formed surface carries a well-formed material.
pub proof fn lemma_hit_wf(s: Surface, r: RayV, tmin: int, tmax: int)
    requires
        crate::hittable::surface_wf(s),
    ensures
        spec_hit(s, r, tmin, tmax) matches Option::Some(h) ==> crate::material::mat_wf(h.mat),
    decreases s, 1int,
{
    match s {
        Surface::Sphere(_) => {},
        Surface::MovingSphere(_) => {},
        Surface::XYRect(_) => {},
        Surface::XZRect(_) => {},
        Surface::YZRect(_) => {},
        Surface::CornellBox(cb) => {
            lemma_list_hit_wf(cb.sides@, r, tmin, tmax, 0, Option::None);
            assert(crate::hittable::spec_list_hit(cb.sides@, r, tmin, tmax)
                == crate::hittable::spec_list_hit_from(cb.sides@, r, tmin, tmax, 0, Option::None));
        },
        Surface::Flip(f) => {
            lemma_hit_wf(*f.0, r, tmin, tmax);
        },
        Surface::Translated(tr) => {
            let moved = RayV {
                origin: crate::vec3::v_sub(r.origin, tr.offset@),
                direction: r.direction,
                time: r.time,
            };
            lemma_hit_wf(*tr.hittable, moved, tmin, tmax);
        },
        Surface::Rotated(ro) => {
            let cs = ro.cos_theta as int;
            let sn = ro.sin_theta as int;
            let rotated = RayV {
                origin: crate::rotate::rot_y(cs, sn, r.origin),
                direction: crate::rotate::rot_y(cs, sn, r.direction),
                time: r.time,
            };
            lemma_hit_wf(*ro.hittable, rotated, tmin, tmax);
        },
        Surface::Bvh(b) => {
            lemma_bvh_hit_wf(b, r, tmin, tmax);
        },
        Surface::List(v) => {
            lemma_list_hit_wf(v@, r, tmin, tmax, 0, Option::None);
            assert(crate::hittable::spec_list_hit(v@, r, tmin, tmax)
                == crate::hittable::spec_list_hit_from(v@, r, tmin, tmax, 0, Option::None));
        },
    }
}

proof fn lemma_list_hit_wf(
    items: Seq<Surface>,
    r: RayV,
    tmin: int,
    tmax: int,
    i: int,
    best: Option<SpecHit>,
)
    requires
        crate::hittable::list_wf(items, i),
        best matches Option::Some(h) ==> crate::material::mat_wf(h.mat),
    ensures
        crate::hittable::spec_list_hit_from(items, r, tmin, tmax, i, best) matches Option::Some(h)
            ==> crate::material::mat_wf(h.mat),
    decreases items, items.len() - i,
{
    if i < 0 || i >= items.len() {
    } else {
        lemma_hit_wf(items[i], r, tmin, tmax);
        lemma_list_hit_wf(
            items,
            r,
            tmin,
            tmax,
            i + 1,
            crate::hittable::better_hit(best, spec_hit(items[i], r, tmin, tmax)),
        );
    }
}

proof fn lemma_bvh_hit_wf(b: BVH, r: RayV, tmin: int, tmax: int)
    requires
        bvh_mats_wf(b),
    ensures
        spec_bvh_hit(b, r, tmin, tmax) matches Option::Some(h) ==> crate::material::mat_wf(h.mat),
    decreases b, 0int,
{
    match b {
        BVH::Single { left, .. } => {
            lemma_hit_wf(*left, r, tmin, tmax);
        },
        BVH::Double { left, right, .. } => {
            lemma_hit_wf(*left, r, tmin, tmax);
            lemma_hit_wf(*right, r, tmin, tmax);
        },
    }
}

/// An elementwise property survives any reordering: each element of the
/// reordered sequence occurs in the sequence it came from.
proof fn lemma_multiset_all(p: spec_fn(Surface) -> bool, a: Seq<Surface>, b: Seq<Surface>)
    requires
        a.to_multiset() == b.to_multiset(),
        forall|i: int| 0 <= i < a.len() ==> #[trigger] p(a[i]),
    ensures
        forall|i: int| 0 <= i < b.len() ==> #[trigger] p(b[i]),
{
    broadcast use vstd::seq_lib::group_to_multiset_ensures;

    assert forall|i: int| 0 <= i < b.len() implies #[trigger] p(b[i]) by {
        let v = b[i];
        assert(b.contains(v));
        assert(b.to_multiset().count(v) > 0);
        assert(a.contains(v));
        let j = choose|j: int| 0 <= j < a.len() && a[j] == v;
        assert(p(a[j]));
    }
}

proof fn lemma_boxed_transfer(a: Seq<Surface>, b: Seq<Surface>, t0: int, t1: int)
    requires
        a.to_multiset() == b.to_multiset(),
        all_boxed(a, t0, t1),
    ensures
        all_boxed(b, t0, t1),
{
    let p = |s: Surface| spec_bbox(s, 0, 0) is Some && spec_bbox(s, t0, t1) is Some;
    assert forall|i: int| 0 <= i < a.len() implies #[trigger] p(a[i]) by {
        assert(spec_bbox(a[i], 0, 0) is Some && spec_bbox(a[i], t0, t1) is Some);
    }
    lemma_multiset_all(p, a, b);
    assert forall|i: int|
        0 <= i < b.len() implies (#[trigger] spec_bbox(b[i], 0, 0)) is Some && spec_bbox(
        b[i],
        t0,
        t1,
    ) is Some by {
        assert(p(b[i]));
    }
}

proof fn lemma_tree_wf_transfer(a: Seq<Surface>, b: Seq<Surface>, t0: int, t1: int)
    requires
        a.to_multiset() == b.to_multiset(),
        all_tree_wf(a, t0, t1),
    ensures
        all_tree_wf(b, t0, t1),
{
    let p = |s: Surface| surface_tree_wf(s, t0, t1);
    assert forall|i: int| 0 <= i < a.len() implies #[trigger] p(a[i]) by {
        assert(surface_tree_wf(a[i], t0, t1));
    }
    lemma_multiset_all(p, a, b);
    assert forall|i: int| 0 <= i < b.len() implies #[trigger] surface_tree_wf(b[i], t0, t1) by {
        assert(p(b[i]));
    }
}

proof fn lemma_no_nested_transfer(a: Seq<Surface>, b: Seq<Surface>)
    requires
        a.to_multiset() == b.to_multiset(),
        no_nested(a),
    ensures
        no_nested(b),
{
    let p = |s: Surface| !(s is Bvh);
    assert forall|i: int| 0 <= i < a.len() implies #[trigger] p(a[i]) by {
        assert(!(a[i] is Bvh));
    }
    lemma_multiset_all(p, a, b);
    assert forall|i: int| 0 <= i < b.len() implies !((#[trigger] b[i]) is Bvh) by {
        assert(p(b[i]));
    }
}

/// The reported parametric distance of an optional hit.
pub open spec fn opt_t(o: Option<SpecHit>) -> Option<int> {
    match o {
        Option::None => Option::None,
        Option::Some(h) => Option::Some(h.t),
    }
}

/// The nearer of two optional distances.
pub open spec fn nearer(a: Option<int>, b: Option<int>) -> Option<int> {
    match (a, b) {
        (x, Option::None) => x,
        (Option::None, y) => y,
        (Option::Some(u), Option::Some(v)) => Option::Some(
            if u <= v {
                u
            } else {
                v
            },
        ),
    }
}

/// Pruning soundness at the leaves, for one ray: a leaf that reports a hit
/// in the window lies inside a box the ray crosses in that window. True of
/// exact arithmetic; it is the hypothesis under which the hierarchy agrees
/// with the linear scan, since rounding can nudge a hit right at a box's
/// face just outside it.
pub open spec fn leaves_covered(
    items: Seq<Surface>,
    r: RayV,
    tmin: int,
    tmax: int,
    t0: int,
    t1: int,
) -> bool {
    forall|i: int|
        0 <= i < items.len() ==> ((#[trigger] spec_hit(items[i], r, tmin, tmax)) is Some
            ==> (spec_bbox(items[i], t0, t1) matches Option::Some(ib) && aabb_hit(
            ib,
            r,
            tmin,
            tmax,
        )))
}

proof fn lemma_better_t(x: Option<SpecHit>, y: Option<SpecHit>)
    ensures
        opt_t(crate::hittable::better_hit(x, y)) == nearer(opt_t(x), opt_t(y)),
{
}

proof fn lemma_scan_acc(
    items: Seq<Surface>,
    r: RayV,
    tmin: int,
    tmax: int,
    i: int,
    best: Option<SpecHit>,
)
    ensures
        opt_t(crate::hittable::spec_list_hit_from(items, r, tmin, tmax, i, best)) == nearer(
            opt_t(best),
            opt_t(crate::hittable::spec_list_hit_from(items, r, tmin, tmax, i, Option::None)),
        ),
    decreases items.len() - i,
{
    if 0 <= i < items.len() {
        let h = spec_hit(items[i], r, tmin, tmax);
        lemma_scan_acc(items, r, tmin, tmax, i + 1, crate::hittable::better_hit(best, h));
        lemma_scan_acc(items, r, tmin, tmax, i + 1, crate::hittable::better_hit(Option::None, h));
        lemma_better_t(best, h);
        lemma_better_t(Option::None, h);
    }
}

proof fn lemma_scan_tail(
    a: Seq<Surface>,
    b: Seq<Surface>,
    r: RayV,
    tmin: int,
    tmax: int,
    j: int,
    best: Option<SpecHit>,
)
    requires
        0 <= j,
    ensures
        crate::hittable::spec_list_hit_from(a + b, r, tmin, tmax, a.len() + j, best)
            == crate::hittable::spec_list_hit_from(b, r, tmin, tmax, j, best),
    decreases b.len() - j,
{
    if j < b.len() {
        assert((a + b)[a.len() + j] == b[j]);
        lemma_scan_tail(
            a,
            b,
            r,
            tmin,
            tmax,
            j + 1,
            crate::hittable::better_hit(best, spec_hit(b[j], r, tmin, tmax)),
        );
    }
}

proof fn lemma_scan_prefix(
    a: Seq<Surface>,
    b: Seq<Surface>,
    r: RayV,
    tmin: int,
    tmax: int,
    i: int,
    best: Option<SpecHit>,
)
    requires
        0 <= i <= a.len(),
    ensures
        crate::hittable::spec_list_hit_from(a + b, r, tmin, tmax, i, best)
            == crate::hittable::spec_list_hit_from(
            b,
            r,
            tmin,
            tmax,
            0,
            crate::hittable::spec_list_hit_from(a, r, tmin, tmax, i, best),
        ),
    decreases a.len() - i,
{
    if i < a.len() {
        assert((a + b)[i] == a[i]);
        lemma_scan_prefix(
            a,
            b,
            r,
            tmin,
            tmax,
            i + 1,
            crate::hittable::better_hit(best, spec_hit(a[i], r, tmin, tmax)),
        );
    } else {
        lemma_scan_tail(a, b, r, tmin, tmax, 0, best);
    }
}

proof fn lemma_scan_concat_t(a: Seq<Surface>, b: Seq<Surface>, r: RayV, tmin: int, tmax: int)
    ensures
        opt_t(crate::hittable::spec_list_hit(a + b, r, tmin, tmax)) == nearer(
            opt_t(crate::hittable::spec_list_hit(a, r, tmin, tmax)),
            opt_t(crate::hittable::spec_list_hit(b, r, tmin, tmax)),
        ),
{
    lemma_scan_prefix(a, b, r, tmin, tmax, 0, Option::None);
    lemma_scan_acc(b, r, tmin, tmax, 0, crate::hittable::spec_list_hit_from(a, r, tmin, tmax, 0, Option::None));
    assert(crate::hittable::spec_list_hit(a + b, r, tmin, tmax)
        == crate::hittable::spec_list_hit_from(a + b, r, tmin, tmax, 0, Option::None));
    assert(crate::hittable::spec_list_hit(a, r, tmin, tmax)
        == crate::hittable::spec_list_hit_from(a, r, tmin, tmax, 0, Option::None));
    assert(crate::hittable::spec_list_hit(b, r, tmin, tmax)
        == crate::hittable::spec_list_hit_from(b, r, tmin, tmax, 0, Option::None));
}

proof fn lemma_scan_all_none(
    items: Seq<Surface>,
    r: RayV,
    tmin: int,
    tmax: int,
    i: int,
    best: Option<SpecHit>,
)
    requires
        forall|k: int|
            0 <= k < items.len() ==> (#[trigger] spec_hit(items[k], r, tmin, tmax)) is None,
    ensures
        crate::hittable::spec_list_hit_from(items, r, tmin, tmax, i, best) == best,
    decreases items.len() - i,
{
    if 0 <= i < items.len() {
        lemma_scan_all_none(
            items,
            r,
            tmin,
            tmax,
            i + 1,
            crate::hittable::better_hit(best, spec_hit(items[i], r, tmin, tmax)),
        );
    }
}

proof fn lemma_covered_split(
    a: Seq<Surface>,
    b: Seq<Surface>,
    r: RayV,
    tmin: int,
    tmax: int,
    t0: int,
    t1: int,
)
    requires
        leaves_covered(a + b, r, tmin, tmax, t0, t1),
    ensures
        leaves_covered(a, r, tmin, tmax, t0, t1),
        leaves_covered(b, r, tmin, tmax, t0, t1),
{
    assert forall|i: int|
        0 <= i < a.len() implies ((#[trigger] spec_hit(a[i], r, tmin, tmax)) is Some ==> (spec_bbox(
        a[i],
        t0,
        t1,
    ) matches Option::Some(ib) && aabb_hit(ib, r, tmin, tmax))) by {
        assert((a + b)[i] == a[i]);
        assert(spec_hit((a + b)[i], r, tmin, tmax) is Some ==> (spec_bbox(
            (a + b)[i],
            t0,
            t1,
        ) matches Option::Some(ib) && aabb_hit(ib, r, tmin, tmax)));
    }
    assert forall|i: int|
        0 <= i < b.len() implies ((#[trigger] spec_hit(b[i], r, tmin, tmax)) is Some ==> (spec_bbox(
        b[i],
        t0,
        t1,
    ) matches Option::Some(ib) && aabb_hit(ib, r, tmin, tmax))) by {
        assert((a + b)[a.len() + i] == b[i]);
        assert(spec_hit((a + b)[a.len() + i], r, tmin, tmax) is Some ==> (spec_bbox(
            (a + b)[a.len() + i],
            t0,
            t1,
        ) matches Option::Some(ib) && aabb_hit(ib, r, tmin, tmax)));
    }
}

/// Every leaf's box under a consistent surface lies inside that surface's
/// own box.
proof fn lemma_surface_items_boxed(s: Surface, t0: int, t1: int)
    requires
        surface_tree_wf(s, t0, t1),
        spec_bbox(s, t0, t1) is Some,
    ensures
        forall|i: int|
            0 <= i < surface_items(s).len() ==> ((#[trigger] spec_bbox(
                surface_items(s)[i],
                t0,
                t1,
            )) matches Option::Some(ib) && crate::aabb::box_contains(
                spec_bbox(s, t0, t1)->Some_0,
                ib,
            )),
    decreases s, 1int,
{
    match s {
        Surface::Bvh(b) => {
            lemma_bvh_items_boxed(b, t0, t1);
        },
        _ => {
            assert(surface_items(s) =~= seq![s]);
        },
    }
}

/// Every leaf's box under a consistent node lies inside the node's cached
/// box.
proof fn lemma_bvh_items_boxed(b: BVH, t0: int, t1: int)
    requires
        bvh_wf(b, t0, t1),
    ensures
        forall|i: int|
            0 <= i < bvh_items(b).len() ==> ((#[trigger] spec_bbox(
                bvh_items(b)[i],
                t0,
                t1,
            )) matches Option::Some(ib) && crate::aabb::box_contains(bvh_box(b), ib)),
    decreases b, 0int,
{
    match b {
        BVH::Single { left, bbox } => {
            lemma_surface_items_boxed(*left, t0, t1);
        },
        BVH::Double { left, right, bbox } => {
            lemma_surface_items_boxed(*left, t0, t1);
            lemma_surface_items_boxed(*right, t0, t1);
            let il = surface_items(*left);
            let ir = surface_items(*right);
            let lb = spec_bbox(*left, t0, t1)->Some_0;
            let rb = spec_bbox(*right, t0, t1)->Some_0;
            crate::aabb::lemma_surrounding_box_contains(lb, rb);
            assert forall|i: int|
                0 <= i < bvh_items(b).len() implies (#[trigger] spec_bbox(
                bvh_items(b)[i],
                t0,
                t1,
            )) matches Option::Some(ib) && crate::aabb::box_contains(bvh_box(b), ib) by {
                if i < il.len() {
                    assert(bvh_items(b)[i] == il[i]);
                    assert(spec_bbox(il[i], t0, t1) matches Option::Some(ib)
                        && crate::aabb::box_contains(lb, ib));
                } else {
                    assert(bvh_items(b)[i] == ir[i - il.len()]);
                    assert(spec_bbox(ir[i - il.len()], t0, t1) matches Option::Some(ib)
                        && crate::aabb::box_contains(rb, ib));
                }
            }
        },
    }
}

/// The hierarchy and a flat linear scan over its leaves report hits at the
/// same parametric distance, for any ray, whenever the per-ray pruning
/// hypothesis holds of the leaves.
pub proof fn lemma_surface_matches_scan(s: Surface, r: RayV, tmin: int, tmax: int, t0: int, t1: int)
    requires
        surface_tree_wf(s, t0, t1),
        leaves_covered(surface_items(s), r, tmin, tmax, t0, t1),
    ensures
        opt_t(spec_hit(s, r, tmin, tmax)) == opt_t(
            crate::hittable::spec_list_hit(surface_items(s), r, tmin, tmax),
        ),
    decreases s, 1int,
{
    match s {
        Surface::Bvh(b) => {
            lemma_bvh_matches_scan(b, r, tmin, tmax, t0, t1);
        },
        _ => {
            let items = surface_items(s);
            assert(items =~= seq![s]);
            assert(items[0] == s);
            assert(crate::hittable::spec_list_hit(items, r, tmin, tmax)
                == crate::hittable::spec_list_hit_from(items, r, tmin, tmax, 0, Option::None));
            assert(crate::hittable::spec_list_hit_from(items, r, tmin, tmax, 0, Option::None)
                == crate::hittable::spec_list_hit_from(
                items,
                r,
                tmin,
                tmax,
                1,
                crate::hittable::better_hit(Option::None, spec_hit(s, r, tmin, tmax)),
            ));
        },
    }
}

/// The law behind the acceleration structure: pruned traversal of a
/// consistent hierarchy reports a hit at exactly the distance the flat
/// linear scan over the same surfaces reports, for any ray.
pub proof fn lemma_bvh_matches_scan(b: BVH, r: RayV, tmin: int, tmax: int, t0: int, t1: int)
    requires
        bvh_wf(b, t0, t1),
        leaves_covered(bvh_items(b), r, tmin, tmax, t0, t1),
    ensures
        opt_t(spec_bvh_hit(b, r, tmin, tmax)) == opt_t(
            crate::hittable::spec_list_hit(bvh_items(b), r, tmin, tmax),
        ),
    decreases b, 0int,
{
    match b {
        BVH::Single { left, bbox } => {
            if aabb_hit(bbox@, r, tmin, tmax) {
                lemma_surface_matches_scan(*left, r, tmin, tmax, t0, t1);
            } else {
                let items = bvh_items(b);
                lemma_surface_items_boxed(*left, t0, t1);
                assert forall|k: int|
                    0 <= k < items.len() implies (#[trigger] spec_hit(
                    items[k],
                    r,
                    tmin,
                    tmax,
                )) is None by {
                    if spec_hit(items[k], r, tmin, tmax) is Some {
                        let ib = spec_bbox(items[k], t0, t1)->Some_0;
                        crate::aabb::lemma_aabb_hit_mono(ib, bbox@, r, tmin, tmax);
                    }
                }
                lemma_scan_all_none(items, r, tmin, tmax, 0, Option::None);
                assert(crate::hittable::spec_list_hit(items, r, tmin, tmax)
                    == crate::hittable::spec_list_hit_from(items, r, tmin, tmax, 0, Option::None));
            }
        },
        BVH::Double { left, right, bbox } => {
            let il = surface_items(*left);
            let ir = surface_items(*right);
            assert(bvh_items(b) == il + ir);
            if aabb_hit(bbox@, r, tmin, tmax) {
                lemma_covered_split(il, ir, r, tmin, tmax, t0, t1);
                lemma_surface_matches_scan(*left, r, tmin, tmax, t0, t1);
                lemma_surface_matches_scan(*right, r, tmin, tmax, t0, t1);
                lemma_scan_concat_t(il, ir, r, tmin, tmax);
            } else {
                let items = bvh_items(b);
                lemma_surface_items_boxed(*left, t0, t1);
                lemma_surface_items_boxed(*right, t0, t1);
                let lb = spec_bbox(*left, t0, t1)->Some_0;
                let rb = spec_bbox(*right, t0, t1)->Some_0;
                crate::aabb::lemma_surrounding_box_contains(lb, rb);
                assert forall|k: int|
                    0 <= k < items.len() implies (#[trigger] spec_hit(
                    items[k],
                    r,
                    tmin,
                    tmax,
                )) is None by {
                    if spec_hit(items[k], r, tmin, tmax) is Some {
                        let ib = spec_bbox(items[k], t0, t1)->Some_0;
                        if k < il.len() {
                            assert(items[k] == il[k]);
                            assert(crate::aabb::box_contains(lb, ib));
                        } else {
                            assert(items[k] == ir[k - il.len()]);
                            assert(crate::aabb::box_contains(rb, ib));
                        }
                        crate::aabb::lemma_aabb_hit_mono(ib, bbox@, r, tmin, tmax);
                    }
                }
                lemma_scan_all_none(items, r, tmin, tmax, 0, Option::None);
                assert(crate::hittable::spec_list_hit(items, r, tmin, tmax)
                    == crate::hittable::spec_list_hit_from(items, r, tmin, tmax, 0, Option::None));
            }
        },
    }
}

/// No two leaves report hits at the same parametric distance for this ray;
/// then the scan and the traversal cannot even disagree on which record a
/// tie should yield.
pub open spec fn distinct_hit_times(items: Seq<Surface>, r: RayV, tmin: int, tmax: int) -> bool {
    forall|i: int, j: int|
        (0 <= i < items.len() && 0 <= j < items.len() && i != j && (#[trigger] spec_hit(
            items[i],
            r,
            tmin,
            tmax,
        )) is Some && (#[trigger] spec_hit(items[j], r, tmin, tmax)) is Some)
            ==> spec_hit(items[i], r, tmin, tmax)->Some_0.t != spec_hit(
            items[j],
            r,
            tmin,
            tmax,
        )->Some_0.t
}

proof fn lemma_better_assoc(x: Option<SpecHit>, y: Option<SpecHit>, z: Option<SpecHit>)
    ensures
        crate::hittable::better_hit(crate::hittable::better_hit(x, y), z)
            == crate::hittable::better_hit(x, crate::hittable::better_hit(y, z)),
{
}

/// Carrying a best-so-far through a scan is the same as scanning afresh and
/// folding the carried hit in at the end.
proof fn lemma_scan_acc_full(
    items: Seq<Surface>,
    r: RayV,
    tmin: int,
    tmax: int,
    i: int,
    best: Option<SpecHit>,
)
    ensures
        crate::hittable::spec_list_hit_from(items, r, tmin, tmax, i, best)
            == crate::hittable::better_hit(
            best,
            crate::hittable::spec_list_hit_from(items, r, tmin, tmax, i, Option::None),
        ),
    decreases items.len() - i,
{
    if 0 <= i < items.len() {
        let h = spec_hit(items[i], r, tmin, tmax);
        lemma_scan_acc_full(items, r, tmin, tmax, i + 1, crate::hittable::better_hit(best, h));
        lemma_scan_acc_full(
            items,
            r,
            tmin,
            tmax,
            i + 1,
            crate::hittable::better_hit(Option::None, h),
        );
        let rest = crate::hittable::spec_list_hit_from(items, r, tmin, tmax, i + 1, Option::None);
        lemma_better_assoc(best, h, rest);
    }
}

proof fn lemma_scan_concat_full(a: Seq<Surface>, b: Seq<Surface>, r: RayV, tmin: int, tmax: int)
    ensures
        crate::hittable::spec_list_hit(a + b, r, tmin, tmax) == crate::hittable::better_hit(
            crate::hittable::spec_list_hit(a, r, tmin, tmax),
            crate::hittable::spec_list_hit(b, r, tmin, tmax),
        ),
{
    lemma_scan_prefix(a, b, r, tmin, tmax, 0, Option::None);
    lemma_scan_acc_full(
        b,
        r,
        tmin,
        tmax,
        0,
        crate::hittable::spec_list_hit_from(a, r, tmin, tmax, 0, Option::None),
    );
    assert(crate::hittable::spec_list_hit(a + b, r, tmin, tmax)
        == crate::hittable::spec_list_hit_from(a + b, r, tmin, tmax, 0, Option::None));
    assert(crate::hittable::spec_list_hit(a, r, tmin, tmax)
        == crate::hittable::spec_list_hit_from(a, r, tmin, tmax, 0, Option::None));
    assert(crate::hittable::spec_list_hit(b, r, tmin, tmax)
        == crate::hittable::spec_list_hit_from(b, r, tmin, tmax, 0, Option::None));
}

/// A scan never invents a record: its result is the carried one or some
/// leaf's own hit.
proof fn lemma_scan_membership(
    items: Seq<Surface>,
    r: RayV,
    tmin: int,
    tmax: int,
    i: int,
    best: Option<SpecHit>,
)
    ensures
        crate::hittable::spec_list_hit_from(items, r, tmin, tmax, i, best) == best || exists|k: int|
            0 <= k < items.len() && crate::hittable::spec_list_hit_from(items, r, tmin, tmax, i, best)
                == (#[trigger] spec_hit(items[k], r, tmin, tmax)),
    decreases items.len() - i,
{
    if 0 <= i < items.len() {
        let h = spec_hit(items[i], r, tmin, tmax);
        let next = crate::hittable::better_hit(best, h);
        lemma_scan_membership(items, r, tmin, tmax, i + 1, next);
        if crate::hittable::spec_list_hit_from(items, r, tmin, tmax, i, best) == next {
            if next != best {
                assert(next == h);
                assert(crate::hittable::spec_list_hit_from(items, r, tmin, tmax, i, best)
                    == spec_hit(items[i], r, tmin, tmax));
            }
        }
    }
}

proof fn lemma_distinct_split(a: Seq<Surface>, b: Seq<Surface>, r: RayV, tmin: int, tmax: int)
    requires
        distinct_hit_times(a + b, r, tmin, tmax),
    ensures
        distinct_hit_times(a, r, tmin, tmax),
        distinct_hit_times(b, r, tmin, tmax),
        forall|i: int, j: int|
            (0 <= i < a.len() && 0 <= j < b.len() && (#[trigger] spec_hit(a[i], r, tmin, tmax))
                is Some && (#[trigger] spec_hit(b[j], r, tmin, tmax)) is Some) ==> spec_hit(
                a[i],
                r,
                tmin,
                tmax,
            )->Some_0.t != spec_hit(b[j], r, tmin, tmax)->Some_0.t,
{
    assert forall|i: int, j: int|
        (0 <= i < a.len() && 0 <= j < a.len() && i != j && (#[trigger] spec_hit(a[i], r, tmin, tmax))
            is Some && (#[trigger] spec_hit(a[j], r, tmin, tmax)) is Some) implies spec_hit(
        a[i],
        r,
        tmin,
        tmax,
    )->Some_0.t != spec_hit(a[j], r, tmin, tmax)->Some_0.t by {
        assert((a + b)[i] == a[i]);
        assert((a + b)[j] == a[j]);
        assert(spec_hit((a + b)[i], r, tmin, tmax) is Some);
        assert(spec_hit((a + b)[j], r, tmin, tmax) is Some);
    }
    assert forall|i: int, j: int|
        (0 <= i < b.len() && 0 <= j < b.len() && i != j && (#[trigger] spec_hit(b[i], r, tmin, tmax))
            is Some && (#[trigger] spec_hit(b[j], r, tmin, tmax)) is Some) implies spec_hit(
        b[i],
        r,
        tmin,
        tmax,
    )->Some_0.t != spec_hit(b[j], r, tmin, tmax)->Some_0.t by {
        assert((a + b)[a.len() + i] == b[i]);
        assert((a + b)[a.len() + j] == b[j]);
        assert(spec_hit((a + b)[a.len() + i], r, tmin, tmax) is Some);
        assert(spec_hit((a + b)[a.len() + j], r, tmin, tmax) is Some);
    }
    assert forall|i: int, j: int|
        (0 <= i < a.len() && 0 <= j < b.len() && (#[trigger] spec_hit(a[i], r, tmin, tmax)) is Some
            && (#[trigger] spec_hit(b[j], r, tmin, tmax)) is Some) implies spec_hit(
        a[i],
        r,
        tmin,
        tmax,
    )->Some_0.t != spec_hit(b[j], r, tmin, tmax)->Some_0.t by {
        assert((a + b)[i] == a[i]);
        assert((a + b)[a.len() + j] == b[j]);
        assert(spec_hit((a + b)[i], r, tmin, tmax) is Some);
        assert(spec_hit((a + b)[a.len() + j], r, tmin, tmax) is Some);
    }
}

/// When no two leaves tie, the hierarchy reports exactly the record the
/// flat linear scan reports: same distance, same point, same material.
pub proof fn lemma_surface_matches_scan_exact(
    s: Surface,
    r: RayV,
    tmin: int,
    tmax: int,
    t0: int,
    t1: int,
)
    requires
        surface_tree_wf(s, t0, t1),
        leaves_covered(surface_items(s), r, tmin, tmax, t0, t1),
        distinct_hit_times(surface_items(s), r, tmin, tmax),
    ensures
        spec_hit(s, r, tmin, tmax) == crate::hittable::spec_list_hit(
            surface_items(s),
            r,
            tmin,
            tmax,
        ),
    decreases s, 1int,
{
    match s {
        Surface::Bvh(b) => {
            lemma_bvh_matches_scan_exact(b, r, tmin, tmax, t0, t1);
        },
        _ => {
            let items = surface_items(s);
            assert(items =~= seq![s]);
            assert(items[0] == s);
            assert(crate::hittable::spec_list_hit(items, r, tmin, tmax)
                == crate::hittable::spec_list_hit_from(items, r, tmin, tmax, 0, Option::None));
            assert(crate::hittable::spec_list_hit_from(items, r, tmin, tmax, 0, Option::None)
                == crate::hittable::spec_list_hit_from(
                items,
                r,
                tmin,
                tmax,
                1,
                crate::hittable::better_hit(Option::None, spec_hit(s, r, tmin, tmax)),
            ));
        },
    }
}

/// The full equivalence law for the accelerator: traversal of a consistent
/// hierarchy is the linear scan, record for record, whenever the leaves are
/// covered by their boxes and no two of them tie.
pub proof fn lemma_bvh_matches_scan_exact(b: BVH, r: RayV, tmin: int, tmax: int, t0: int, t1: int)
    requires
        bvh_wf(b, t0, t1),
        leaves_covered(bvh_items(b), r, tmin, tmax, t0, t1),
        distinct_hit_times(bvh_items(b), r, tmin, tmax),
    ensures
        spec_bvh_hit(b, r, tmin, tmax) == crate::hittable::spec_list_hit(
            bvh_items(b),
            r,
            tmin,
            tmax,
        ),
    decreases b, 0int,
{
    match b {
        BVH::Single { left, bbox } => {
            if aabb_hit(bbox@, r, tmin, tmax) {
                lemma_surface_matches_scan_exact(*left, r, tmin, tmax, t0, t1);
            } else {
                let items = bvh_items(b);
                lemma_surface_items_boxed(*left, t0, t1);
                assert forall|k: int|
                    0 <= k < items.len() implies (#[trigger] spec_hit(
                    items[k],
                    r,
                    tmin,
                    tmax,
                )) is None by {
                    if spec_hit(items[k], r, tmin, tmax) is Some {
                        let ib = spec_bbox(items[k], t0, t1)->Some_0;
                        crate::aabb::lemma_aabb_hit_mono(ib, bbox@, r, tmin, tmax);
                    }
                }
                lemma_scan_all_none(items, r, tmin, tmax, 0, Option::None);
                assert(crate::hittable::spec_list_hit(items, r, tmin, tmax)
                    == crate::hittable::spec_list_hit_from(items, r, tmin, tmax, 0, Option::None));
            }
        },
        BVH::Double { left, right, bbox } => {
            let il = surface_items(*left);
            let ir = surface_items(*right);
            assert(bvh_items(b) == il + ir);
            if aabb_hit(bbox@, r, tmin, tmax) {
                lemma_covered_split(il, ir, r, tmin, tmax, t0, t1);
                lemma_distinct_split(il, ir, r, tmin, tmax);
                lemma_surface_matches_scan_exact(*left, r, tmin, tmax, t0, t1);
                lemma_surface_matches_scan_exact(*right, r, tmin, tmax, t0, t1);
                lemma_scan_concat_full(il, ir, r, tmin, tmax);
                let lh = spec_hit(*left, r, tmin, tmax);
                let rh = spec_hit(*right, r, tmin, tmax);
                assert(crate::hittable::spec_list_hit(il, r, tmin, tmax)
                    == crate::hittable::spec_list_hit_from(il, r, tmin, tmax, 0, Option::None));
                assert(crate::hittable::spec_list_hit(ir, r, tmin, tmax)
                    == crate::hittable::spec_list_hit_from(ir, r, tmin, tmax, 0, Option::None));
                if lh is Some && rh is Some {
                    lemma_scan_membership(il, r, tmin, tmax, 0, Option::None);
                    lemma_scan_membership(ir, r, tmin, tmax, 0, Option::None);
                    let ki = choose|k: int|
                        0 <= k < il.len() && crate::hittable::spec_list_hit_from(
                            il,
                            r,
                            tmin,
                            tmax,
                            0,
                            Option::None,
                        ) == spec_hit(il[k], r, tmin, tmax);
                    let kj = choose|k: int|
                        0 <= k < ir.len() && crate::hittable::spec_list_hit_from(
                            ir,
                            r,
                            tmin,
                            tmax,
                            0,
                            Option::None,
                        ) == spec_hit(ir[k], r, tmin, tmax);
                    assert(spec_hit(il[ki], r, tmin, tmax) == lh);
                    assert(spec_hit(ir[kj], r, tmin, tmax) == rh);
                    assert(lh->Some_0.t != rh->Some_0.t);
                }
            } else {
                let items = bvh_items(b);
                lemma_surface_items_boxed(*left, t0, t1);
                lemma_surface_items_boxed(*right, t0, t1);
                let lb = spec_bbox(*left, t0, t1)->Some_0;
                let rb = spec_bbox(*right, t0, t1)->Some_0;
                crate::aabb::lemma_surrounding_box_contains(lb, rb);
                assert forall|k: int|
                    0 <= k < items.len() implies (#[trigger] spec_hit(
                    items[k],
                    r,
                    tmin,
                    tmax,
                )) is None by {
                    if spec_hit(items[k], r, tmin, tmax) is Some {
                        let ib = spec_bbox(items[k], t0, t1)->Some_0;
                        if k < il.len() {
                            assert(items[k] == il[k]);
                            assert(crate::aabb::box_contains(lb, ib));
                        } else {
                            assert(items[k] == ir[k - il.len()]);
                            assert(crate::aabb::box_contains(rb, ib));
                        }
                        crate::aabb::lemma_aabb_hit_mono(ib, bbox@, r, tmin, tmax);
                    }
                }
                lemma_scan_all_none(items, r, tmin, tmax, 0, Option::None);
                assert(crate::hittable::spec_list_hit(items, r, tmin, tmax)
                    == crate::hittable::spec_list_hit_from(items, r, tmin, tmax, 0, Option::None));
            }
        },
    }
}

/// The sort key: the box's minimum coordinate along the chosen axis.
fn surf_key(s: &Surface, axis: usize) -> i64
    requires
        axis < 3,
{
    match s.bounding_box(0, 0) {
        Option::Some(b) => b.min.index(axis),
        Option::None => 0,
    }
}

/// Selection sort, descending by box minimum along the axis. Only the fact
/// that the elements are exactly reordered is needed by the callers.
fn sort_desc(l: &mut Vec<Surface>, axis: usize)
    requires
        axis < 3,
    ensures
        final(l)@.to_multiset() == old(l)@.to_multiset(),
        final(l)@.len() == old(l)@.len(),
{
    let ghost pre = l@;
    let mut out: Vec<Surface> = Vec::new();
    proof {
        broadcast use vstd::seq_lib::group_to_multiset_ensures;
        broadcast use vstd::multiset::group_multiset_axioms;

        assert_multisets_equal!(out@.to_multiset().add(l@.to_multiset()), pre.to_multiset());
    }
    while l.len() > 0
        invariant
            axis < 3,
            out@.to_multiset().add(l@.to_multiset()) == pre.to_multiset(),
        decreases l@.len(),
    {
        let mut best: usize = 0;
        let mut j: usize = 1;
        while j < l.len()
            invariant
                axis < 3,
                l@.len() > 0,
                best < l@.len(),
            decreases l@.len() - j,
        {
            if surf_key(&l[j], axis) > surf_key(&l[best], axis) {
                best = j;
            }
            j = j + 1;
        }
        let ghost lpre = l@;
        let ghost outpre = out@;
        let x = l.remove(best);
        out.push(x);
        proof {
            broadcast use vstd::seq_lib::group_to_multiset_ensures;
            broadcast use vstd::multiset::group_multiset_axioms;

            assert(lpre.contains(x));
            assert(lpre.to_multiset().count(x) > 0);
            assert_multisets_equal!(out@.to_multiset().add(l@.to_multiset()),
                outpre.to_multiset().add(lpre.to_multiset()));
        }
    }
    core::mem::swap(l, &mut out);
    proof {
        broadcast use vstd::seq_lib::group_to_multiset_ensures;
        broadcast use vstd::multiset::group_multiset_axioms;

        assert(out@.to_multiset().len() == 0);
        assert(l@.to_multiset() =~= pre.to_multiset());
        assert(l@.len() == l@.to_multiset().len());
        assert(pre.len() == pre.to_multiset().len());
    }
}

/// Recursive construction over an owned collection.
#[verifier::loop_isolation(false)]
fn build(list: Vec<Surface>, time0: i64, time1: i64) -> (res: Result<BVH, BvhError>)
    ensures
        match res {
            Result::Ok(b) => {
                &&& list@.len() > 0
                &&& all_boxed(list@, time0 as int, time1 as int)
                &&& no_nested(list@) ==> bvh_items(b).to_multiset() == list@.to_multiset()
                &&& all_tree_wf(list@, time0 as int, time1 as int) ==> bvh_wf(
                    b,
                    time0 as int,
                    time1 as int,
                )
            },
            Result::Err(BvhError::EmptyScene) => list@.len() == 0,
            Result::Err(BvhError::MissingBoundingBox) => list@.len() > 0 && !all_boxed(
                list@,
                time0 as int,
                time1 as int,
            ),
        },
    decreases list@.len(),
{
    let ghost input = list@;
    let mut items = list;
    if items.len() == 0 {
        return Result::Err(BvhError::EmptyScene);
    }

    let mut i: usize = 0;
    while i < items.len()
        invariant
            items@ == input,
            i <= items@.len(),
            forall|j: int|
                0 <= j < i ==> (#[trigger] spec_bbox(items@[j], 0, 0)) is Some && spec_bbox(
                    items@[j],
                    time0 as int,
                    time1 as int,
                ) is Some,
        decreases items@.len() - i,
    {
        let sort_box = items[i].bounding_box(0, 0);
        let node_box = items[i].bounding_box(time0, time1);
        if sort_box.is_none() || node_box.is_none() {
            proof {
                assert(spec_bbox(input[i as int], 0, 0) is None || spec_bbox(
                    input[i as int],
                    time0 as int,
                    time1 as int,
                ) is None);
                assert(!all_boxed(input, time0 as int, time1 as int));
            }
            return Result::Err(BvhError::MissingBoundingBox);
        }
        i = i + 1;
    }

    // Pick a random axis and sort the collection along it.
    let axis = random_axis();
    sort_desc(&mut items, axis);
    proof {
        lemma_boxed_transfer(input, items@, time0 as int, time1 as int);
        if all_tree_wf(input, time0 as int, time1 as int) {
            lemma_tree_wf_transfer(input, items@, time0 as int, time1 as int);
        }
        if no_nested(input) {
            lemma_no_nested_transfer(input, items@);
        }
    }

    let ghost sorted = items@;
    let ghost t0 = time0 as int;
    let ghost t1 = time1 as int;
    if items.len() == 1 {
        let left = match items.pop() {
            Option::Some(s) => s,
            Option::None => {
                return Result::Err(BvhError::EmptyScene);
            },
        };
        proof {
            assert(left == sorted[0]);
            assert(spec_bbox(sorted[0], 0, 0) is Some);
        }
        match left.bounding_box(time0, time1) {
            Option::Some(bbox) => {
                let node = BVH::Single { left: Box::new(left), bbox };
                proof {
                    if no_nested(input) {
                        assert(!(sorted[0] is Bvh));
                        assert(bvh_items(node) =~= seq![left]);
                        assert(seq![left] =~= sorted);
                    }
                    if all_tree_wf(input, t0, t1) {
                        assert(surface_tree_wf(sorted[0], t0, t1));
                    }
                }
                Result::Ok(node)
            },
            Option::None => {
                proof {
                    assert(spec_bbox(sorted[0], t0, t1) is Some);
                }
                Result::Err(BvhError::MissingBoundingBox)
            },
        }
    } else if items.len() == 2 {
        let left = match items.pop() {
            Option::Some(s) => s,
            Option::None => {
                return Result::Err(BvhError::EmptyScene);
            },
        };
        let right = match items.pop() {
            Option::Some(s) => s,
            Option::None => {
                return Result::Err(BvhError::EmptyScene);
            },
        };
        proof {
            assert(left == sorted[1]);
            assert(right == sorted[0]);
            assert(spec_bbox(sorted[0], 0, 0) is Some);
            assert(spec_bbox(sorted[1], 0, 0) is Some);
        }
        match (left.bounding_box(time0, time1), right.bounding_box(time0, time1)) {
            (Option::Some(lb), Option::Some(rb)) => {
                let node = BVH::Double {
                    bbox: surrounding_box(lb, rb),
                    left: Box::new(left),
                    right: Box::new(right),
                };
                proof {
                    broadcast use vstd::seq_lib::group_to_multiset_ensures;
                    broadcast use vstd::multiset::group_multiset_axioms;

                    if no_nested(input) {
                        assert(!(sorted[0] is Bvh));
                        assert(!(sorted[1] is Bvh));
                        assert(bvh_items(node) =~= seq![left, right]);
                        assert(sorted =~= seq![right, left]);
                        assert(seq![left, right] =~= Seq::<Surface>::empty().push(left).push(
                            right,
                        ));
                        assert(seq![right, left] =~= Seq::<Surface>::empty().push(right).push(
                            left,
                        ));
                        assert_multisets_equal!(
                            seq![left, right].to_multiset(), seq![right, left].to_multiset());
                    }
                    if all_tree_wf(input, t0, t1) {
                        assert(surface_tree_wf(sorted[0], t0, t1));
                        assert(surface_tree_wf(sorted[1], t0, t1));
                    }
                }
                Result::Ok(node)
            },
            _ => {
                proof {
                    assert(spec_bbox(sorted[0], t0, t1) is Some);
                    assert(spec_bbox(sorted[1], t0, t1) is Some);
                }
                Result::Err(BvhError::MissingBoundingBox)
            },
        }
    } else {
        let mid = items.len() / 2;
        let rest = items.split_off(mid);
        proof {
            lemma_subrange_props(sorted, mid as int, sorted.len() as int, t0, t1);
            lemma_subrange_props(sorted, 0, mid as int, t0, t1);
        }
        let left_node = match build(rest, time0, time1) {
            Result::Ok(b) => b,
            Result::Err(e) => {
                return Result::Err(e);
            },
        };
        let right_node = match build(items, time0, time1) {
            Result::Ok(b) => b,
            Result::Err(e) => {
                return Result::Err(e);
            },
        };
        let lb = match left_node.bounding_box(time0, time1) {
            Option::Some(b) => b,
            Option::None => {
                return Result::Err(BvhError::MissingBoundingBox);
            },
        };
        let rb = match right_node.bounding_box(time0, time1) {
            Option::Some(b) => b,
            Option::None => {
                return Result::Err(BvhError::MissingBoundingBox);
            },
        };
        let node = BVH::Double {
            bbox: surrounding_box(lb, rb),
            left: Box::new(Surface::Bvh(left_node)),
            right: Box::new(Surface::Bvh(right_node)),
        };
        proof {
            broadcast use vstd::seq_lib::group_to_multiset_ensures;
            broadcast use vstd::multiset::group_multiset_axioms;

            let head = sorted.subrange(0, mid as int);
            let tail = sorted.subrange(mid as int, sorted.len() as int);
            if no_nested(input) {
                assert(sorted =~= head + tail);
                vstd::seq_lib::lemma_multiset_commutative(head, tail);
                vstd::seq_lib::lemma_multiset_commutative(
                    bvh_items(left_node),
                    bvh_items(right_node),
                );
                assert(bvh_items(node) =~= bvh_items(left_node) + bvh_items(right_node));
                assert_multisets_equal!(bvh_items(node).to_multiset(), input.to_multiset());
            }
        }
        Result::Ok(node)
    }
}

/// Elementwise facts restrict to any contiguous part of the collection.
proof fn lemma_subrange_props(a: Seq<Surface>, lo: int, hi: int, t0: int, t1: int)
    requires
        0 <= lo <= hi <= a.len(),
    ensures
        all_boxed(a, t0, t1) ==> all_boxed(a.subrange(lo, hi), t0, t1),
        all_tree_wf(a, t0, t1) ==> all_tree_wf(a.subrange(lo, hi), t0, t1),
        no_nested(a) ==> no_nested(a.subrange(lo, hi)),
{
    let s = a.subrange(lo, hi);
    if all_boxed(a, t0, t1) {
        assert forall|i: int|
            0 <= i < s.len() implies (#[trigger] spec_bbox(s[i], 0, 0)) is Some && spec_bbox(
            s[i],
            t0,
            t1,
        ) is Some by {
            assert(s[i] == a[lo + i]);
            assert(spec_bbox(a[lo + i], 0, 0) is Some);
        }
    }
    if all_tree_wf(a, t0, t1) {
        assert forall|i: int| 0 <= i < s.len() implies #[trigger] surface_tree_wf(s[i], t0, t1) by {
            assert(s[i] == a[lo + i]);
            assert(surface_tree_wf(a[lo + i], t0, t1));
        }
    }
    if no_nested(a) {
        assert forall|i: int| 0 <= i < s.len() implies !((#[trigger] s[i]) is Bvh) by {
            assert(s[i] == a[lo + i]);
            assert(!(a[lo + i] is Bvh));
        }
    }
}

impl BVH {
    /// Build a hierarchy from the whole collection, which is drained.
    /// Construction fails exactly when the collection is empty or some
    /// surface in it has no bounding box.
    pub fn new(l: &mut Vec<Surface>, time0: i64, time1: i64) -> (res: Result<BVH, BvhError>)
        ensures
            final(l)@.len() == 0,
            match res {
                Result::Ok(b) => {
                    &&& old(l)@.len() > 0
                    &&& all_boxed(old(l)@, time0 as int, time1 as int)
                    &&& no_nested(old(l)@) ==> bvh_items(b).to_multiset() == old(l)@.to_multiset()
                    &&& all_tree_wf(old(l)@, time0 as int, time1 as int) ==> bvh_wf(
                        b,
                        time0 as int,
                        time1 as int,
                    )
                },
                Result::Err(BvhError::EmptyScene) => old(l)@.len() == 0,
                Result::Err(BvhError::MissingBoundingBox) => old(l)@.len() > 0 && !all_boxed(
                    old(l)@,
                    time0 as int,
                    time1 as int,
                ),
            },
    {
        let mut owned: Vec<Surface> = Vec::new();
        core::mem::swap(l, &mut owned);
        build(owned, time0, time1)
    }

    /// Prune on the cached box, then take the nearer child hit.
    pub fn hit<'a>(&'a self, r: &Ray, t_min: i64, t_max: i64) -> (res: Option<HitRecord<'a>>)
        ensures
            hit_model(res) == spec_bvh_hit(*self, r@, t_min as int, t_max as int),
        decreases *self, 0int,
    {
        match self {
            BVH::Single { left, bbox } => {
                if bbox.hit(r, t_min, t_max) {
                    left.hit(r, t_min, t_max)
                } else {
                    Option::None
                }
            },
            BVH::Double { left, right, bbox } => {
                if bbox.hit(r, t_min, t_max) {
                    let left_hit = left.hit(r, t_min, t_max);
                    let right_hit = right.hit(r, t_min, t_max);
                    match (left_hit, right_hit) {
                        (Option::Some(lh), Option::Some(rh)) => {
                            if lh.t <= rh.t {
                                Option::Some(lh)
                            } else {
                                Option::Some(rh)
                            }
                        },
                        (Option::Some(lh), Option::None) => Option::Some(lh),
                        (Option::None, Option::Some(rh)) => Option::Some(rh),
                        (Option::None, Option::None) => Option::None,
                    }
                } else {
                    Option::None
                }
            },
        }
    }

    pub fn bounding_box(&self, t0: i64, t1: i64) -> (res: Option<AABB>)
        ensures
            res matches Option::Some(b) && b@ == bvh_box(*self),
    {
        match self {
            BVH::Single { bbox, .. } => Option::Some(*bbox),
            BVH::Double { bbox, .. } => Option::Some(*bbox),
        }
    }
}

} // verus!
