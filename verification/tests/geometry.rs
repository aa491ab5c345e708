use raytrace::aabb::{surrounding_box, AABB};
use raytrace::fixed::{fx_add, fx_div, fx_mul, fx_sqrt, fx_sub, FX_BOUND, FX_ONE};
use raytrace::hittable::{flip_normals, Surface};
use raytrace::material::Material;
use raytrace::ray::Ray;
use raytrace::rectangle::XYRect;
use raytrace::rotate::{rot_y_exec, RotateY};
use raytrace::sphere::{get_sphere_uv, Sphere};
use raytrace::texture::Texture;
use raytrace::translate::Translate;
use raytrace::trig::{fx_cos, fx_sin, HALF_PI_FX, PI_FX, TWO_PI_FX};
use raytrace::vec3::Vec3;

fn fx(units: i64) -> i64 {
    units * FX_ONE
}

fn gray() -> Material {
    Material::Diffuse(Texture::solid(Vec3::new(32768, 32768, 32768)))
}

#[test]
fn fixed_arithmetic_exact_values() {
    assert_eq!(fx_add(fx(2), fx(3)), fx(5));
    assert_eq!(fx_sub(fx(2), fx(3)), fx(-1));
    assert_eq!(fx_mul(fx(3), fx(2)), fx(6));
    assert_eq!(fx_mul(fx(1) / 2, fx(1) / 2), fx(1) / 4);
    assert_eq!(fx_div(fx(1), fx(2)), FX_ONE / 2);
    assert_eq!(fx_sqrt(fx(4)), fx(2));
    assert_eq!(fx_sqrt(fx(2)), 92681); // floor(sqrt(2) * 65536)
}

#[test]
fn fixed_arithmetic_saturates() {
    assert_eq!(fx_add(FX_BOUND, FX_BOUND), FX_BOUND);
    assert_eq!(fx_sub(-FX_BOUND, FX_BOUND), -FX_BOUND);
    assert_eq!(fx_div(fx(5), 0), FX_BOUND);
    assert_eq!(fx_div(fx(-5), 0), -FX_BOUND);
    assert_eq!(fx_div(0, 0), 0);
}

#[test]
fn sine_and_cosine_land_near_the_reference_points() {
    assert_eq!(fx_sin(0), 0);
    assert!((fx_sin(HALF_PI_FX) - FX_ONE).abs() <= 200);
    assert!(fx_sin(PI_FX).abs() <= 200);
    assert!((fx_sin(PI_FX + HALF_PI_FX) + FX_ONE).abs() <= 200);
    assert!((fx_cos(0) - FX_ONE).abs() <= 200);
    assert!(fx_sin(TWO_PI_FX).abs() <= 200);
    for k in -20i64..20 {
        let s = fx_sin(k * 10000);
        assert!(-FX_ONE <= s && s <= FX_ONE);
    }
}

#[test]
fn vector_products_are_exact() {
    let a = Vec3::new(fx(1), fx(2), fx(3));
    let b = Vec3::new(fx(4), fx(-5), fx(6));
    assert_eq!(a.dot(&b), fx(4 - 10 + 18));
    let c = a.cross(&b);
    assert_eq!(c, Vec3::new(fx(27), fx(6), fx(-13)));
    assert_eq!(a.add(&b), Vec3::new(fx(5), fx(-3), fx(9)));
    assert_eq!(a.neg(), Vec3::new(fx(-1), fx(-2), fx(-3)));
    assert_eq!(a.index(0), fx(1));
    assert_eq!(a.index(2), fx(3));
}

#[test]
fn unit_vector_has_unit_length() {
    let v = Vec3::new(fx(3), fx(4), 0);
    let u = v.unit_vector();
    assert!((u.x() - 39321).abs() <= 2); // 0.6
    assert!((u.y() - 52428).abs() <= 2); // 0.8
    assert_eq!(u.z(), 0);
    let mut w = v;
    w.make_unit_vector();
    assert_eq!(w, u);
    assert_eq!(v.length(), fx(5));
    assert_eq!(v.squared_length(), fx(25));
    // Color accessors alias the coordinates.
    assert_eq!(v.r(), v.x());
    assert_eq!(v.g(), v.y());
    assert_eq!(v.b(), v.z());
}

#[test]
fn aabb_hit_through_center_either_direction_sign() {
    let b = AABB::new(Vec3::new(-fx(1), -fx(1), -fx(1)), Vec3::new(fx(1), fx(1), fx(1)));
    let from_left = Ray::new(Vec3::new(-fx(2), 0, 0), Vec3::new(fx(1), 0, 0), 0);
    let from_right = Ray::new(Vec3::new(fx(2), 0, 0), Vec3::new(-fx(1), 0, 0), 0);
    let diagonal = Ray::new(
        Vec3::new(-fx(2), -fx(2), -fx(2)),
        Vec3::new(fx(1), fx(1), fx(1)),
        0,
    );
    assert!(b.hit(&from_left, 0, FX_BOUND));
    assert!(b.hit(&from_right, 0, FX_BOUND));
    assert!(b.hit(&diagonal, 0, FX_BOUND));
}

#[test]
fn aabb_miss_outside_all_slabs() {
    let b = AABB::new(Vec3::new(-fx(1), -fx(1), -fx(1)), Vec3::new(fx(1), fx(1), fx(1)));
    let above = Ray::new(Vec3::new(-fx(2), fx(4), 0), Vec3::new(fx(1), 0, 0), 0);
    let behind = Ray::new(Vec3::new(-fx(2), 0, 0), Vec3::new(-fx(1), 0, 0), 0);
    assert!(!b.hit(&above, 0, FX_BOUND));
    assert!(!b.hit(&behind, 0, FX_BOUND));
}

#[test]
fn surrounding_box_encloses_both() {
    let a = AABB::new(Vec3::new(-fx(1), 0, 0), Vec3::new(fx(1), fx(2), fx(1)));
    let b = AABB::new(Vec3::new(0, -fx(3), 0), Vec3::new(fx(4), fx(1), fx(1)));
    let s = surrounding_box(a, b);
    assert_eq!(s.min, Vec3::new(-fx(1), -fx(3), 0));
    assert_eq!(s.max, Vec3::new(fx(4), fx(2), fx(1)));
}

#[test]
fn sphere_two_roots_closer_first_outward_normal() {
    let s = Sphere::new(Vec3::new(0, 0, 0), fx(1), gray());
    let r = Ray::new(Vec3::new(0, 0, -fx(3)), Vec3::new(0, 0, fx(1)), 0);
    let rec = s.hit(&r, 66, FX_BOUND).expect("should hit");
    assert_eq!(rec.t, fx(2));
    assert_eq!(rec.p, Vec3::new(0, 0, -fx(1)));
    // The normal is a unit vector pointing outward.
    assert_eq!(rec.normal, Vec3::new(0, 0, -fx(1)));
    assert!(rec.normal.dot(&rec.p.sub(&Vec3::new(0, 0, 0))) > 0);
    // Starting past the first root selects the second, farther root.
    let rec2 = s.hit(&r, fx(3), FX_BOUND).expect("second root");
    assert_eq!(rec2.t, fx(4));
    assert_eq!(rec2.p, Vec3::new(0, 0, fx(1)));
}

#[test]
fn sphere_miss_returns_nothing() {
    let s = Sphere::new(Vec3::new(0, 0, 0), fx(1), gray());
    let r = Ray::new(Vec3::new(0, fx(3), -fx(3)), Vec3::new(0, 0, fx(1)), 0);
    assert!(s.hit(&r, 66, FX_BOUND).is_none());
}

#[test]
fn sphere_uv_of_the_x_axis_point_is_centered() {
    let (u, v) = get_sphere_uv(Vec3::new(fx(1), 0, 0));
    assert!((u - FX_ONE / 2).abs() <= 8);
    assert!((v - FX_ONE / 2).abs() <= 8);
    let (u2, v2) = get_sphere_uv(Vec3::new(0, fx(1), 0));
    assert!(0 <= u2 && u2 <= FX_ONE);
    assert!((v2 - FX_ONE).abs() <= 600);
}

#[test]
fn rectangle_hit_inside_extent_only() {
    let rect = XYRect::new(-fx(1), fx(1), -fx(1), fx(1), fx(2), gray());
    let inside = Ray::new(Vec3::new(0, 0, 0), Vec3::new(0, 0, fx(1)), 0);
    let outside = Ray::new(Vec3::new(fx(3), 0, 0), Vec3::new(0, 0, fx(1)), 0);
    let rec = rect.hit(&inside, 66, FX_BOUND).expect("plane hit");
    assert_eq!(rec.t, fx(2));
    assert_eq!(rec.normal, Vec3::new(0, 0, FX_ONE));
    assert_eq!(rec.u, FX_ONE / 2);
    assert_eq!(rec.v, FX_ONE / 2);
    assert!(rect.hit(&outside, 66, FX_BOUND).is_none());
}

#[test]
fn flipped_rectangle_negates_the_normal() {
    let rect = XYRect::new(-fx(1), fx(1), -fx(1), fx(1), fx(2), gray());
    let flipped = flip_normals(Surface::XYRect(rect));
    let r = Ray::new(Vec3::new(0, 0, 0), Vec3::new(0, 0, fx(1)), 0);
    let rec = flipped.hit(&r, 66, FX_BOUND).expect("hit");
    assert_eq!(rec.normal, Vec3::new(0, 0, -FX_ONE));
}

#[test]
fn translate_round_trip_is_identity_on_the_hit_point() {
    let s = Sphere::new(Vec3::new(0, 0, 0), fx(1), gray());
    let plain = Surface::Sphere(Sphere::new(Vec3::new(0, 0, 0), fx(1), gray()));
    let offset = Vec3::new(fx(10), fx(-2), fx(7));
    let moved = Surface::Translated(Translate::new(Surface::Sphere(s), offset));
    let r_local = Ray::new(Vec3::new(0, 0, -fx(3)), Vec3::new(0, 0, fx(1)), 0);
    let r_world = Ray::new(r_local.origin().add(&offset), r_local.direction(), 0);
    let rec_local = plain.hit(&r_local, 66, FX_BOUND).expect("local");
    let rec_world = moved.hit(&r_world, 66, FX_BOUND).expect("world");
    assert_eq!(rec_world.t, rec_local.t);
    assert_eq!(rec_world.p, rec_local.p.add(&offset));
    assert_eq!(rec_world.p.sub(&offset), rec_local.p);
}

#[test]
fn rotate_round_trip_recovers_the_point_within_tolerance() {
    let angle: i64 = 45 * FX_ONE;
    let radians = fx_mul(angle, raytrace::trig::DEG_TO_RAD_FX);
    let cs = fx_cos(radians);
    let sn = fx_sin(radians);
    let v = Vec3::new(fx(5), fx(3), fx(-2));
    let there = rot_y_exec(cs, sn, v);
    let back = rot_y_exec(cs, -sn, there);
    assert_eq!(back.y(), v.y());
    // The sine pair is approximate: cs*cs + sn*sn strays from one by a few
    // thousandths, and the drift scales with the point's magnitude.
    assert!((back.x() - v.x()).abs() <= 2000);
    assert!((back.z() - v.z()).abs() <= 2000);
}

#[test]
fn rotated_surface_reports_world_frame_hits() {
    let s = Sphere::new(Vec3::new(0, 0, 0), fx(1), gray());
    let rotated = Surface::Rotated(RotateY::new(Surface::Sphere(s), 90 * FX_ONE));
    let r = Ray::new(Vec3::new(0, 0, -fx(3)), Vec3::new(0, 0, fx(1)), 0);
    let rec = rotated.hit(&r, 66, FX_BOUND).expect("hit");
    // A sphere centered at the origin is rotation invariant.
    assert!((rec.t - fx(2)).abs() <= 400);
    assert!((rec.p.z() + fx(1)).abs() <= 400);
}
