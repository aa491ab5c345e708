use raytrace::camera::Camera;
use raytrace::cornellbox::CornellBox;
use raytrace::fixed::{FX_BOUND, FX_ONE};
use raytrace::hittable::{flip_normals, Surface};
use raytrace::integrator::{background_color, color, Background};
use raytrace::material::{random_in_unit_sphere, reflect, refract, schlick, Material};
use raytrace::perlin::{noise, perlin_permutation, turbulence, Perlin};
use raytrace::ray::Ray;
use raytrace::rectangle::{XYRect, XZRect, YZRect};
use raytrace::sphere::Sphere;
use raytrace::texture::Texture;
use raytrace::vec3::Vec3;

fn fx(units: i64) -> i64 {
    units * FX_ONE
}

#[test]
fn permutation_tables_hold_every_index_once() {
    let p = perlin_permutation(256);
    let mut seen = [false; 256];
    for v in p.iter() {
        assert!(0 <= *v && *v < 256);
        assert!(!seen[*v as usize]);
        seen[*v as usize] = true;
    }
    assert!(seen.iter().all(|s| *s));
}

#[test]
fn noise_is_deterministic_and_in_the_stable_band() {
    let pl = Perlin::new();
    let points = [
        Vec3::new(0, 0, 0),
        Vec3::new(fx(1) / 3, fx(2) / 7, fx(5) / 2),
        Vec3::new(-fx(13) / 4, fx(9), -fx(2) / 3),
        Vec3::new(fx(100), -fx(50), fx(25)),
    ];
    for p in points.iter() {
        let a = noise(&pl, *p);
        let b = noise(&pl, *p);
        assert_eq!(a, b);
        assert!(-3 * FX_ONE <= a && a <= 3 * FX_ONE);
        assert!(-FX_ONE <= a && a <= FX_ONE, "empirically within one unit");
    }
}

#[test]
fn gradient_tables_hold_near_unit_vectors() {
    let pl = Perlin::new();
    assert_eq!(pl.ranvec.len(), 256);
    for g in pl.ranvec.iter() {
        let q = g.squared_length();
        assert!(FX_ONE - 256 <= q && q <= FX_ONE + 256);
    }
}

#[test]
fn turbulence_is_never_negative() {
    let pl = Perlin::new();
    for k in -5i64..6 {
        let t = turbulence(&pl, Vec3::new(fx(k), fx(2 * k) / 3, -fx(k) / 2), 7);
        assert!(t >= 0);
    }
}

#[test]
fn solid_and_checker_textures_pick_the_right_color() {
    let pl = Perlin::new();
    let red = Vec3::new(FX_ONE, 0, 0);
    let blue = Vec3::new(0, 0, FX_ONE);
    let solid = Texture::solid(red);
    assert_eq!(solid.value(0, 0, Vec3::new(fx(9), 0, fx(4)), &pl), red);
    let checker = Texture::checker(Texture::solid(red), Texture::solid(blue));
    // sin(10x)sin(10y)sin(10z) at x=y=z=0.157 (10x near pi/2) is positive: even.
    let even_point = Vec3::new(10294, 10294, 10294);
    // at x=y=z where 10x is past pi the product of three sines is negative: odd.
    let odd_point = Vec3::new(30000, 10294, 10294);
    assert_eq!(checker.value(0, 0, even_point, &pl), blue);
    assert_eq!(checker.value(0, 0, odd_point, &pl), red);
}

#[test]
fn image_texture_looks_up_the_nearest_pixel() {
    let pl = Perlin::new();
    // A 2x1 image: left pixel pure red, right pixel pure blue.
    let data: Vec<u8> = vec![255, 0, 0, 0, 0, 255];
    let tex = Texture::Image { data, w: 2, h: 1 };
    let left = tex.value(0, FX_ONE / 2, Vec3::new(0, 0, 0), &pl);
    let right = tex.value(FX_ONE - 1, FX_ONE / 2, Vec3::new(0, 0, 0), &pl);
    assert_eq!(left, Vec3::new(FX_ONE, 0, 0));
    assert_eq!(right, Vec3::new(0, 0, FX_ONE));
}

#[test]
fn schlick_at_normal_incidence_is_the_base_reflectance() {
    // ((1 - 1.5) / (1 + 1.5))^2 = 0.04
    assert_eq!(schlick(FX_ONE, 98304), 2621);
}

#[test]
fn reflect_mirrors_about_the_normal() {
    let v = Vec3::new(fx(1), -fx(1), 0);
    let n = Vec3::new(0, FX_ONE, 0);
    assert_eq!(reflect(v, n), Vec3::new(fx(1), fx(1), 0));
}

#[test]
fn refract_bends_or_reports_total_internal_reflection() {
    let down = Vec3::new(0, -fx(1), 0);
    let n = Vec3::new(0, FX_ONE, 0);
    // Straight in: passes through un-bent (up to rounding).
    let bent = refract(down, n, FX_ONE * 2 / 3).expect("refracts");
    assert!(bent.x().abs() <= 4 && bent.z().abs() <= 4);
    assert!(bent.y() < 0);
    // Grazing entry into a less dense medium: total internal reflection.
    let grazing = Vec3::new(fx(1), -fx(1) / 10, 0);
    assert!(refract(grazing, n, fx(3) / 2).is_none());
}

#[test]
fn glass_reflects_totally_beyond_the_critical_angle() {
    let pl = Perlin::new();
    let s = Sphere::new(Vec3::new(0, 0, 0), fx(1), Material::Glass(98304));
    // From inside the sphere, exiting at an angle past the critical one:
    // refraction is impossible, so the scatter is the pure reflection,
    // deterministically, with the neutral white attenuation.
    let r = Ray::new(Vec3::new(0, 46000, 0), Vec3::new(fx(1), 0, 0), 0);
    let rec = s.hit(&r, 66, FX_BOUND).expect("exit point");
    let (att, scattered) = rec.mat.scatter(&r, &rec, &pl).expect("glass always scatters");
    assert_eq!(att, Vec3::new(FX_ONE, FX_ONE, FX_ONE));
    assert_eq!(scattered.direction(), reflect(r.direction(), rec.normal));
    assert_eq!(scattered.origin(), rec.p);
}

#[test]
fn sampled_sphere_points_are_inside_the_unit_sphere() {
    for _ in 0..50 {
        let p = random_in_unit_sphere();
        assert!(p.squared_length() < FX_ONE);
    }
}

#[test]
fn lights_emit_and_do_not_scatter() {
    let pl = Perlin::new();
    let bright = Vec3::new(fx(4), fx(4), fx(4));
    let light = Material::Light(Texture::solid(bright));
    assert_eq!(light.emitted(0, 0, Vec3::new(0, 0, 0), &pl), bright);
    let dark = Material::Diffuse(Texture::solid(bright));
    assert_eq!(dark.emitted(0, 0, Vec3::new(0, 0, 0), &pl), Vec3::new(0, 0, 0));
}

#[test]
fn zero_aperture_camera_shoots_from_the_eye() {
    let lookfrom = Vec3::new(fx(2), fx(3), -fx(5));
    let cam = Camera::new(
        lookfrom,
        Vec3::new(0, 0, 0),
        Vec3::new(0, FX_ONE, 0),
        fx(40),
        FX_ONE * 3 / 2,
        0,
        fx(10),
        0,
        FX_ONE,
    );
    for _ in 0..5 {
        let r = cam.get_ray(FX_ONE / 2, FX_ONE / 2);
        assert_eq!(r.origin(), lookfrom);
        assert!(0 <= r.time() && r.time() < FX_ONE);
    }
}

#[test]
fn mirror_bounce_returns_the_attenuated_background() {
    // A perfect mirror sphere above a large diffuse floor; one bounce.
    let albedo = Vec3::new(52429, 52429, 52429);
    let mirror = Surface::Sphere(Sphere::new(
        Vec3::new(0, 0, 0),
        fx(1),
        Material::Metal(albedo, 0),
    ));
    let floor = Surface::Sphere(Sphere::new(
        Vec3::new(0, -fx(1010), 0),
        fx(1000),
        Material::Diffuse(Texture::solid(Vec3::new(FX_ONE, FX_ONE, FX_ONE))),
    ));
    let world = Surface::List(vec![mirror, floor]);
    let pl = Perlin::new();
    // Fired straight at the mirror's center: reflects straight back and
    // then misses everything, so the result is the background attenuated
    // by the mirror's albedo, deterministically (the fuzz is zero).
    let r = Ray::new(Vec3::new(0, 0, -fx(3)), Vec3::new(0, 0, fx(1)), 0);
    let got = color(&r, &world, 49, Background::Gradient, &pl);
    let reflected = Ray::new(Vec3::new(0, 0, -fx(1)), Vec3::new(0, 0, -fx(1)), 0);
    let expected = albedo.mul(&background_color(Background::Gradient, &reflected));
    assert_eq!(got, expected);
}

#[test]
fn depth_exhausted_mirror_returns_only_emission() {
    let albedo = Vec3::new(52429, 52429, 52429);
    let mirror = Surface::Sphere(Sphere::new(
        Vec3::new(0, 0, 0),
        fx(1),
        Material::Metal(albedo, 0),
    ));
    let world = Surface::List(vec![mirror]);
    let pl = Perlin::new();
    let r = Ray::new(Vec3::new(0, 0, -fx(3)), Vec3::new(0, 0, fx(1)), 0);
    let got = color(&r, &world, 50, Background::Gradient, &pl);
    assert_eq!(got, Vec3::new(0, 0, 0));
}

fn open_box_scene() -> Surface {
    let white = || Material::Diffuse(Texture::solid(Vec3::new(47841, 47841, 47841)));
    let light = Material::Light(Texture::solid(Vec3::new(fx(15), fx(15), fx(15))));
    let k = fx(5);
    // Five walls and a light; the +z face is missing: that is the gap.
    let sides = vec![
        flip_normals(Surface::YZRect(YZRect::new(-k, k, -k, k, k, white()))),
        Surface::YZRect(YZRect::new(-k, k, -k, k, -k, white())),
        flip_normals(Surface::XZRect(XZRect::new(-k, k, -k, k, k, white()))),
        Surface::XZRect(XZRect::new(-k, k, -k, k, -k, white())),
        flip_normals(Surface::XYRect(XYRect::new(-k, k, -k, k, -k, light))),
    ];
    Surface::List(sides)
}

#[test]
fn rays_escaping_an_enclosed_scene_are_black() {
    let world = open_box_scene();
    let pl = Perlin::new();
    // Fired from inside the box straight out through the missing face.
    let escaping = Ray::new(Vec3::new(0, 0, 0), Vec3::new(0, 0, fx(1)), 0);
    let got = color(&escaping, &world, 0, Background::Black, &pl);
    assert_eq!(got, Vec3::new(0, 0, 0));
    // The same ray under a gradient background would not be black.
    let open = color(&escaping, &world, 0, Background::Gradient, &pl);
    assert_ne!(open, Vec3::new(0, 0, 0));
}

#[test]
fn hitting_the_light_returns_its_emission() {
    let world = open_box_scene();
    let pl = Perlin::new();
    let at_light = Ray::new(Vec3::new(0, 0, 0), Vec3::new(0, 0, -fx(1)), 0);
    let got = color(&at_light, &world, 0, Background::Black, &pl);
    assert_eq!(got, Vec3::new(fx(15), fx(15), fx(15)));
}

#[test]
fn cornell_box_sides_share_the_geometry() {
    let b = CornellBox::new(
        Vec3::new(0, 0, 0),
        Vec3::new(fx(2), fx(3), fx(4)),
        Material::Diffuse(Texture::solid(Vec3::new(47841, 47841, 47841))),
    );
    assert_eq!(b.sides.len(), 6);
    let s = Surface::CornellBox(b);
    let from_outside = Ray::new(Vec3::new(fx(1), fx(1), -fx(2)), Vec3::new(0, 0, fx(1)), 0);
    let rec = s.hit(&from_outside, 66, FX_BOUND).expect("front face");
    assert_eq!(rec.t, fx(2));
    let bb = s.bounding_box(0, FX_ONE).expect("box");
    assert_eq!(bb.min, Vec3::new(0, 0, 0));
    assert_eq!(bb.max, Vec3::new(fx(2), fx(3), fx(4)));
}
