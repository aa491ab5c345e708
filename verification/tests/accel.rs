use raytrace::bvh::{BvhError, BVH};
use raytrace::fixed::{FX_BOUND, FX_ONE};
use raytrace::hittable::{hit_list, Surface};
use raytrace::material::Material;
use raytrace::moving_sphere::MovingSphere;
use raytrace::ray::Ray;
use raytrace::sphere::Sphere;
use raytrace::texture::Texture;
use raytrace::vec3::Vec3;

fn fx(units: i64) -> i64 {
    units * FX_ONE
}

fn solid(r: i64, g: i64, b: i64) -> Material {
    Material::Diffuse(Texture::solid(Vec3::new(r, g, b)))
}

fn row_of_spheres() -> Vec<Surface> {
    let mut world: Vec<Surface> = Vec::new();
    let mut i: i64 = 0;
    while i < 7 {
        world.push(Surface::Sphere(Sphere::new(
            Vec3::new(fx(3 * i), fx(i % 3), 0),
            fx(1),
            solid(i * 1000, 0, 0),
        )));
        i += 1;
    }
    world.push(Surface::MovingSphere(MovingSphere::new(
        Vec3::new(fx(-4), 0, 0),
        Vec3::new(fx(-4), fx(1), 0),
        0,
        FX_ONE,
        fx(1),
        solid(9000, 0, 0),
    )));
    world
}

#[test]
fn bvh_agrees_with_linear_scan() {
    let rays = [
        Ray::new(Vec3::new(fx(-9), 0, 0), Vec3::new(fx(1), 0, 0), 0),
        Ray::new(Vec3::new(fx(9), fx(1), 0), Vec3::new(-fx(1), 0, 0), FX_ONE / 2),
        Ray::new(Vec3::new(fx(3), fx(5), 0), Vec3::new(0, -fx(1), 0), 0),
        Ray::new(Vec3::new(0, fx(5), fx(5)), Vec3::new(0, 0, fx(1)), 0),
        Ray::new(Vec3::new(fx(-9), fx(20), 0), Vec3::new(fx(1), 0, 0), 0),
        Ray::new(Vec3::new(fx(1), fx(2), fx(-4)), Vec3::new(fx(1), -fx(1), fx(2)), FX_ONE),
    ];
    let flat = row_of_spheres();
    let mut for_tree = row_of_spheres();
    let tree = BVH::new(&mut for_tree, 0, FX_ONE).expect("build");
    assert!(for_tree.is_empty());
    for r in rays.iter() {
        let by_scan = hit_list(&flat, r, 66, FX_BOUND);
        let by_tree = tree.hit(r, 66, FX_BOUND);
        match (by_scan, by_tree) {
            (None, None) => {}
            (Some(a), Some(b)) => {
                assert_eq!(a.t, b.t);
                assert_eq!(a.p, b.p);
                assert_eq!(a.normal, b.normal);
            }
            _ => panic!("one side hit and the other missed"),
        }
    }
}

#[test]
fn bvh_of_one_surface_behaves_like_it() {
    let mut single = vec![Surface::Sphere(Sphere::new(Vec3::new(0, 0, 0), fx(1), solid(1, 2, 3)))];
    let tree = BVH::new(&mut single, 0, FX_ONE).expect("build");
    let r = Ray::new(Vec3::new(0, 0, -fx(3)), Vec3::new(0, 0, fx(1)), 0);
    let rec = tree.hit(&r, 66, FX_BOUND).expect("hit");
    assert_eq!(rec.t, fx(2));
    let miss = Ray::new(Vec3::new(0, fx(3), -fx(3)), Vec3::new(0, 0, fx(1)), 0);
    assert!(tree.hit(&miss, 66, FX_BOUND).is_none());
}

#[test]
fn bvh_build_rejects_an_empty_scene() {
    let mut empty: Vec<Surface> = Vec::new();
    match BVH::new(&mut empty, 0, FX_ONE) {
        Err(e) => assert_eq!(e, BvhError::EmptyScene),
        Ok(_) => panic!("an empty scene must be rejected"),
    }
}

#[test]
fn bvh_build_rejects_a_surface_without_a_box() {
    let mut world = vec![
        Surface::Sphere(Sphere::new(Vec3::new(0, 0, 0), fx(1), solid(1, 1, 1))),
        Surface::List(Vec::new()),
    ];
    match BVH::new(&mut world, 0, FX_ONE) {
        Err(e) => assert_eq!(e, BvhError::MissingBoundingBox),
        Ok(_) => panic!("a boxless surface must be rejected"),
    }
}

#[test]
fn bvh_bounding_box_encloses_every_leaf() {
    let mut world = row_of_spheres();
    let tree = BVH::new(&mut world, 0, FX_ONE).expect("build");
    let bb = tree.bounding_box(0, FX_ONE).expect("box");
    // Leftmost moving sphere reaches x = -5; rightmost sphere reaches x = 19.
    assert!(bb.min.x() <= fx(-5));
    assert!(bb.max.x() >= fx(19));
}

#[test]
fn list_bounding_box_merges_all_children() {
    let list = vec![
        Surface::Sphere(Sphere::new(Vec3::new(0, 0, 0), fx(1), solid(1, 1, 1))),
        Surface::Sphere(Sphere::new(Vec3::new(fx(6), fx(2), 0), fx(1), solid(2, 2, 2))),
    ];
    let bb = raytrace::hittable::bbox_list(&list, 0, FX_ONE).expect("box");
    assert_eq!(bb.min, Vec3::new(-fx(1), -fx(1), -fx(1)));
    assert_eq!(bb.max, Vec3::new(fx(7), fx(3), fx(1)));
    let empty: Vec<Surface> = Vec::new();
    assert!(raytrace::hittable::bbox_list(&empty, 0, FX_ONE).is_none());
}

#[test]
fn moving_sphere_center_interpolates_between_keyframes() {
    let m = MovingSphere::new(
        Vec3::new(0, 0, 0),
        Vec3::new(fx(2), fx(4), 0),
        0,
        FX_ONE,
        fx(1),
        solid(1, 1, 1),
    );
    assert_eq!(m.center(0), Vec3::new(0, 0, 0));
    assert_eq!(m.center(FX_ONE), Vec3::new(fx(2), fx(4), 0));
    assert_eq!(m.center(FX_ONE / 2), Vec3::new(fx(1), fx(2), 0));
}

#[test]
fn moving_sphere_is_hit_where_it_is_at_the_rays_time() {
    let m = MovingSphere::new(
        Vec3::new(0, 0, 0),
        Vec3::new(fx(10), 0, 0),
        0,
        FX_ONE,
        fx(1),
        solid(1, 1, 1),
    );
    let at_start = Ray::new(Vec3::new(0, 0, -fx(3)), Vec3::new(0, 0, fx(1)), 0);
    let at_end = Ray::new(Vec3::new(fx(10), 0, -fx(3)), Vec3::new(0, 0, fx(1)), FX_ONE);
    assert_eq!(m.hit(&at_start, 66, FX_BOUND).expect("start").t, fx(2));
    assert_eq!(m.hit(&at_end, 66, FX_BOUND).expect("end").t, fx(2));
    assert!(m.hit(&at_start, 66, FX_BOUND).is_some());
    let wrong_time = Ray::new(Vec3::new(fx(10), 0, -fx(3)), Vec3::new(0, 0, fx(1)), 0);
    assert!(m.hit(&wrong_time, 66, FX_BOUND).is_none());
}
