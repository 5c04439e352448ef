use std::sync::Arc;

use raytracer::camera::Camera;
use raytracer::hittable::{HitRecord, Hittable, HittableList};
use raytracer::interval::Interval;
use raytracer::materials::{
    Dielectric, DiffuseLight, Invisible, Isotropic, Lambertian, Material, Metal, ScatterDraw,
};
use raytracer::ppm::ppm;
use raytracer::ray::Ray;
use raytracer::rng::Rng;
use raytracer::scalar::{Scalar, SCALE};
use raytracer::scenes;
use raytracer::shapes::Sphere;
use raytracer::textures::{CheckerTexture, ColorTexture, SolidColor, Texture};
use raytracer::trig;
use raytracer::vec3::{color, point, Vec3};
use raytracer::volumes::ConstantMedium;

fn s(x: f64) -> Scalar {
    Scalar::from_raw((x * SCALE as f64).round() as i64)
}

fn v(x: f64, y: f64, z: f64) -> Vec3 {
    Vec3(s(x), s(y), s(z))
}

fn f(x: Scalar) -> f64 {
    x.value() as f64 / SCALE as f64
}

fn lambertian(c: Vec3) -> Arc<Material> {
    Arc::new(Material::Lambertian(Lambertian::from(c)))
}

fn record(r: &Ray, t: f64, p: Vec3, n: Vec3, m: Arc<Material>) -> HitRecord {
    HitRecord::new(r, s(t), p, n, m)
}

#[test]
fn camera_of_width_400_and_ratio_16_9_is_225_high_with_orthogonal_steps() {
    let camera = Camera::new(
        Scalar::ratio(16, 9),
        400,
        s(90.0),
        v(0.0, 0.0, 0.0),
        v(0.0, 0.0, -1.0),
        v(0.0, 1.0, 0.0),
        20,
        20,
    );
    assert_eq!(camera.image_height, 225);
    let d = Vec3::dot(&camera.pixel_delta_u, &camera.pixel_delta_v);
    assert!(f(d).abs() < 1e-9);
    assert!(f(camera.pixel_delta_u.x()) > 0.0);
    assert!(f(camera.pixel_delta_v.y()) < 0.0);
    let ray = camera.ray_through(200, 112, &Vec3::zero());
    assert!(f(ray.direction.x()).abs() < 0.01 && f(ray.direction.y()).abs() < 0.01);
}

#[test]
fn camera_basis_check_rejects_collinear_up() {
    assert!(Camera::has_basis(&v(0.0, 0.0, 5.0), &v(0.0, 0.0, 0.0), &v(0.0, 1.0, 0.0)));
    assert!(!Camera::has_basis(&v(0.0, 5.0, 0.0), &v(0.0, 0.0, 0.0), &v(0.0, 1.0, 0.0)));
    assert!(!Camera::has_basis(&v(1.0, 1.0, 1.0), &v(1.0, 1.0, 1.0), &v(0.0, 1.0, 0.0)));
}

#[test]
fn camera_setters_and_move() {
    let mut camera = Camera::new(s(1.0), 10, s(40.0), v(0.0, 0.0, 5.0), v(0.0, 0.0, 0.0), v(0.0, 1.0, 0.0), 4, 3);
    camera.set_aa_samples(8);
    camera.set_max_depth(7);
    assert_eq!((camera.aa_samples, camera.max_depth), (8, 7));
    assert_eq!(camera.aa_scale, s(0.125));
    camera.move_camera(v(5.0, 0.0, 0.0), v(0.0, 0.0, 0.0), v(0.0, 1.0, 0.0));
    assert_eq!(camera.center, v(5.0, 0.0, 0.0));
    let centre = camera.ray_through(5, 5, &v(-0.5, -0.5, 0.0));
    assert!(f(centre.direction.x()) < 0.0);
    assert!(f(centre.direction.z()).abs() < 1e-6);
}

fn three_spheres() -> HittableList {
    let mut world = HittableList::new();
    world.add(Hittable::Sphere(Sphere::new(v(0.0, -100.5, -1.0), s(100.0), lambertian(v(0.8, 0.8, 0.0)))));
    world.add(Hittable::Sphere(Sphere::new(v(0.0, 0.0, -1.0), s(0.5), lambertian(v(0.1, 0.2, 0.5)))));
    world.add(Hittable::Sphere(Sphere::new(
        v(1.0, 0.0, -1.0),
        s(0.5),
        Arc::new(Material::Metal(Metal::new(v(0.8, 0.6, 0.2), s(0.0)))),
    )));
    world
}

#[test]
fn three_spheres_at_depth_one_render_black_and_reproducibly() {
    let world = three_spheres();
    let camera = Camera::new(Scalar::ratio(16, 9), 32, s(90.0), v(0.0, 0.0, 0.0), v(0.0, 0.0, -1.0), v(0.0, 1.0, 0.0), 1, 1);
    let first = camera.render(&world, &mut Rng::seeded(42));
    let second = camera.render(&world, &mut Rng::seeded(42));
    assert_eq!(first.len(), 32 * 18);
    assert_eq!(first, second);
    assert!(first.iter().all(|p| *p == (0, 0, 0)));
}

#[test]
fn three_spheres_at_depth_two_reproduce_with_one_seed() {
    let mut world = three_spheres();
    world.add(Hittable::Sphere(Sphere::new(
        v(0.0, 3.0, -1.0),
        s(1.0),
        Arc::new(Material::DiffuseLight(DiffuseLight::from(v(4.0, 4.0, 4.0)))),
    )));
    let camera = Camera::new(s(2.0), 16, s(90.0), v(0.0, 0.0, 0.0), v(0.0, 0.0, -1.0), v(0.0, 1.0, 0.0), 2, 3);
    let first = camera.render(&world, &mut Rng::seeded(9));
    let second = camera.render(&world, &mut Rng::seeded(9));
    assert_eq!(first, second);
    assert!(first.iter().any(|p| *p != (0, 0, 0)));
}

#[test]
fn radiance_is_black_without_depth() {
    let world = three_spheres();
    let r = Ray { origin: v(0.0, 0.0, 0.0), direction: v(0.0, 0.0, -1.0) };
    assert_eq!(r.send(&world, 0, &mut Rng::seeded(3)), Vec3::zero());
    assert_eq!(r.background(), Vec3::zero());
    let lit = {
        let mut w = HittableList::new();
        w.add(Hittable::Sphere(Sphere::new(
            v(0.0, 0.0, -3.0),
            s(1.0),
            Arc::new(Material::DiffuseLight(DiffuseLight::from(v(2.0, 3.0, 4.0)))),
        )));
        w
    };
    assert_eq!(r.send(&lit, 1, &mut Rng::seeded(3)), v(2.0, 3.0, 4.0));
    assert!(r.hit(&Hittable::List(lit), Interval::new(s(0.001), Scalar::infinity()), &mut Rng::seeded(3)).is_some());
}

#[test]
fn dielectric_of_index_one_passes_light_straight() {
    let glass = Material::Dielectric(Dielectric::new(s(1.0)));
    let r = Ray { origin: v(0.0, 2.0, 0.0), direction: v(0.0, -1.0, 0.0) };
    let hit = record(&r, 1.0, v(0.0, 1.0, 0.0), v(0.0, 1.0, 0.0), Arc::new(Material::Invisible(Invisible)));
    for chance in [0.0, 0.5, 0.999] {
        let draw = ScatterDraw { direction: v(1.0, 0.0, 0.0), chance: s(chance) };
        let (out, attenuation) = glass.scatter_with(&r, &hit, &draw).unwrap();
        assert_eq!(out.direction, v(0.0, -1.0, 0.0));
        assert_eq!(attenuation, v(1.0, 1.0, 1.0));
    }
    let slanted = Ray { origin: v(0.0, 2.0, 0.0), direction: v(0.6, -0.8, 0.0) };
    let hit = record(&slanted, 1.0, v(0.6, 1.2, 0.0), v(0.0, 1.0, 0.0), Arc::new(Material::Invisible(Invisible)));
    let draw = ScatterDraw { direction: v(1.0, 0.0, 0.0), chance: s(0.9) };
    let (out, _) = glass.scatter_with(&slanted, &hit, &draw).unwrap();
    assert!((f(out.direction.x()) - 0.6).abs() < 1e-6);
    assert!((f(out.direction.y()) + 0.8).abs() < 1e-6);
}

#[test]
fn dielectric_reflects_beyond_critical_angle() {
    let glass = Material::Dielectric(Dielectric::new(s(1.5)));
    let r = Ray { origin: v(0.0, 0.0, 0.0), direction: v(0.8, 0.6, 0.0) };
    let hit = record(&r, 1.0, v(0.8, 0.6, 0.0), v(0.0, 1.0, 0.0), Arc::new(Material::Invisible(Invisible)));
    assert!(!hit.front_face);
    let draw = ScatterDraw { direction: v(1.0, 0.0, 0.0), chance: s(0.999) };
    let (out, _) = glass.scatter_with(&r, &hit, &draw).unwrap();
    assert!((f(out.direction.y()) + 0.6).abs() < 1e-6);
    assert!(f(Dielectric::reflectance(s(1.0), s(1.5))) - 0.04 < 1e-9);
}

#[test]
fn lambertian_falls_back_to_normal_for_degenerate_direction() {
    let m = lambertian(v(0.5, 0.25, 1.0));
    let r = Ray { origin: v(0.0, 2.0, 0.0), direction: v(0.0, -1.0, 0.0) };
    let hit = record(&r, 1.0, v(0.0, 1.0, 0.0), v(0.0, 1.0, 0.0), m.clone());
    let draw = ScatterDraw { direction: v(0.0, -1.0, 0.0), chance: s(0.0) };
    let (out, att) = m.scatter_with(&r, &hit, &draw).unwrap();
    assert_eq!(out.direction, v(0.0, 1.0, 0.0));
    assert_eq!(out.origin, v(0.0, 1.0, 0.0));
    assert_eq!(att, v(0.5, 0.25, 1.0));
    let draw = ScatterDraw { direction: v(1.0, 0.0, 0.0), chance: s(0.0) };
    let (out, _) = m.scatter_with(&r, &hit, &draw).unwrap();
    assert_eq!(out.direction, v(1.0, 1.0, 0.0));
}

#[test]
fn metal_reflects_and_clamps_fuzz() {
    assert_eq!(Metal::new(v(1.0, 1.0, 1.0), s(3.0)).fuzz, s(1.0));
    assert_eq!(Metal::new(v(1.0, 1.0, 1.0), s(-3.0)).fuzz, s(0.0));
    let m = Material::Metal(Metal::new(v(0.9, 0.9, 0.9), s(0.0)));
    let r = Ray { origin: v(0.0, 1.0, 0.0), direction: v(1.0, -1.0, 0.0) };
    let hit = record(&r, 1.0, v(1.0, 0.0, 0.0), v(0.0, 1.0, 0.0), Arc::new(Material::Invisible(Invisible)));
    let draw = ScatterDraw { direction: v(0.0, 0.0, 1.0), chance: s(0.0) };
    let (out, att) = m.scatter_with(&r, &hit, &draw).unwrap();
    assert!((f(out.direction.x()) - 0.70710678).abs() < 1e-6);
    assert!((f(out.direction.y()) - 0.70710678).abs() < 1e-6);
    assert_eq!(att, v(0.9, 0.9, 0.9));
    assert_eq!(v(1.0, -1.0, 0.0).reflect(&v(0.0, 1.0, 0.0)), v(1.0, 1.0, 0.0));
}

#[test]
fn lights_emit_and_other_materials_do_not() {
    let lamp = Material::DiffuseLight(DiffuseLight::from(v(4.0, 4.0, 4.0)));
    assert_eq!(lamp.emitted(s(0.0), s(0.0), &v(0.0, 0.0, 0.0)), v(4.0, 4.0, 4.0));
    let r = Ray { origin: v(0.0, 1.0, 0.0), direction: v(0.0, -1.0, 0.0) };
    let hit = record(&r, 1.0, v(0.0, 0.0, 0.0), v(0.0, 1.0, 0.0), Arc::new(Material::Invisible(Invisible)));
    let draw = ScatterDraw { direction: v(0.0, 0.0, 1.0), chance: s(0.0) };
    assert!(lamp.scatter_with(&r, &hit, &draw).is_none());
    assert!(Material::Invisible(Invisible).scatter_with(&r, &hit, &draw).is_none());
    assert_eq!(lambertian(v(1.0, 1.0, 1.0)).emitted(s(0.0), s(0.0), &v(0.0, 0.0, 0.0)), Vec3::zero());
    let fog = Material::Isotropic(Isotropic::from(v(0.3, 0.3, 0.3)));
    let (out, att) = fog.scatter_with(&r, &hit, &draw).unwrap();
    assert_eq!(out.direction, v(0.0, 0.0, 1.0));
    assert_eq!(att, v(0.3, 0.3, 0.3));
    let mut rng = Rng::seeded(5);
    let (out, _) = fog.scatter(&r, &hit, &mut rng).unwrap();
    assert!((f(out.direction.length()) - 1.0).abs() < 1e-6);
}

#[test]
fn textures_sample_colors() {
    let solid = SolidColor::new(v(0.1, 0.2, 0.3));
    assert_eq!(solid.value(s(0.0), s(0.0), &v(0.0, 0.0, 0.0)), v(0.1, 0.2, 0.3));
    let checker = Texture::Checker(CheckerTexture::from(s(1.0), v(1.0, 0.0, 0.0), v(0.0, 1.0, 0.0)));
    assert_eq!(checker.value(s(0.0), s(0.0), &v(0.5, 0.5, 0.5)), v(0.0, 1.0, 0.0));
    assert_eq!(checker.value(s(0.0), s(0.0), &v(1.5, 0.5, 0.5)), v(1.0, 0.0, 0.0));
    assert_eq!(checker.value(s(0.0), s(0.0), &v(-0.5, 0.5, 0.5)), v(1.0, 0.0, 0.0));
    let grid = ColorTexture::new(vec![v(1.0, 0.0, 0.0), v(0.0, 1.0, 0.0), v(0.0, 0.0, 1.0), v(1.0, 1.0, 1.0)], 2, 2);
    assert_eq!(grid.value(s(0.0), s(1.0), &Vec3::zero()), v(1.0, 0.0, 0.0));
    assert_eq!(grid.value(s(1.0), s(1.0), &Vec3::zero()), v(0.0, 1.0, 0.0));
    assert_eq!(grid.value(s(0.2), s(0.2), &Vec3::zero()), v(0.0, 0.0, 1.0));
    assert_eq!(grid.value(s(5.0), s(-5.0), &Vec3::zero()), v(1.0, 1.0, 1.0));
    let broken = ColorTexture::new(vec![v(1.0, 0.0, 0.0)], 2, 2);
    assert_eq!(broken.value(s(0.9), s(0.1), &Vec3::zero()), Vec3::zero());
}

#[test]
fn thinner_medium_scatters_less_often() {
    let mut counts = Vec::new();
    for density in [5.0, 0.5, 0.05, 0.005] {
        let boundary = Arc::new(Hittable::Sphere(Sphere::new(v(0.0, 0.0, 0.0), s(1.0), lambertian(v(1.0, 1.0, 1.0)))));
        let medium = ConstantMedium::from_color(boundary, s(density), v(1.0, 1.0, 1.0));
        let mut rng = Rng::seeded(11);
        let mut scattered = 0;
        for i in 0..400 {
            let r = Ray { origin: v(0.0, (i % 20) as f64 * 0.04 - 0.4, -5.0), direction: v(0.0, 0.0, 1.0) };
            if let Some(h) = medium.hit(&r, Interval::new(s(0.0001), Scalar::infinity()), &mut rng) {
                assert!(f(h.t) >= 4.0 - 1e-6 && f(h.t) <= 6.0 + 1e-6);
                scattered += 1;
            }
        }
        counts.push(scattered);
    }
    assert!(counts[0] > counts[1] && counts[1] > counts[2] && counts[2] >= counts[3]);
    assert!(counts[0] > 350);
}

#[test]
fn free_flight_shrinks_as_density_grows() {
    let boundary = Arc::new(Hittable::Sphere(Sphere::new(v(0.0, 0.0, 0.0), s(1.0), lambertian(v(1.0, 1.0, 1.0)))));
    let r = Ray { origin: v(0.0, 0.0, -5.0), direction: v(0.0, 0.0, 1.0) };
    let ln_u = trig::ln(s(0.5));
    assert!((f(ln_u) + 0.693147).abs() < 1e-6);
    let thin = ConstantMedium::from_color(boundary.clone(), s(0.1), v(1.0, 1.0, 1.0));
    let thick = ConstantMedium::from_color(boundary, s(1.0), v(1.0, 1.0, 1.0));
    assert!(thin.scatter_point(&r, s(4.0), s(6.0), ln_u).is_none());
    let depth = thick.scatter_point(&r, s(4.0), s(6.0), ln_u).unwrap();
    assert!((f(depth) - 4.693147).abs() < 1e-6);
}

#[test]
fn gamma_and_quantization() {
    let c = v(0.25, -1.0, 4.0).to_gamma();
    assert_eq!(c, v(0.5, 0.0, 2.0));
    assert_eq!(c.to_bytes(), (128, 0, 255));
    assert_eq!(v(0.999, 1.0, 0.0).to_bytes(), (255, 255, 0));
}

#[test]
fn ppm_text_layout() {
    let bytes = ppm(2, 1, &vec![(255, 0, 7), (10, 200, 0)]);
    assert_eq!(String::from_utf8(bytes).unwrap(), "P3\n2 1\n255\n255 0 7\n10 200 0\n");
}

#[test]
fn seeded_streams_repeat_and_stay_in_range() {
    let mut a = Rng::seeded(123);
    let mut b = Rng::seeded(123);
    let mut seen = std::collections::HashSet::new();
    for _ in 0..200 {
        let x = a.below(5);
        assert_eq!(x, b.below(5));
        assert!(x < 5);
        seen.insert(x);
        let u = a.uniform();
        assert_eq!(u, b.uniform());
        assert!(u.value() >= 0 && u.value() < SCALE);
    }
    assert_eq!(seen.len(), 5);
    let mut rng = Rng::seeded(4);
    for _ in 0..50 {
        let d = Vec3::random_unit(&mut rng);
        assert!((f(d.length()) - 1.0).abs() < 1e-6);
        let h = Vec3::random_on_hemisphere(&mut rng, v(0.0, 1.0, 0.0));
        assert!(f(h.y()) >= 0.0);
        let q = Vec3::sample_square(&mut rng);
        assert!(f(q.x()).abs() <= 0.5 && f(q.y()).abs() <= 0.5 && q.z() == Scalar::zero());
        let r = Vec3::random(&mut rng);
        assert!(f(r.x()) >= 0.0 && f(r.x()) < 1.0);
    }
}

#[test]
fn elementary_functions() {
    let (sn, cs) = trig::sin_cos(trig::to_radians(s(30.0)));
    assert!((f(sn) - 0.5).abs() < 1e-8 && (f(cs) - 0.8660254).abs() < 1e-7);
    assert!((f(trig::tan(trig::to_radians(s(45.0)))) - 1.0).abs() < 1e-7);
    assert!((f(trig::atan2(s(1.0), s(-1.0))) - 2.35619449).abs() < 1e-7);
    assert!((f(trig::acos(s(0.5))) - 1.04719755).abs() < 1e-7);
    assert!((f(trig::ln(s(10.0))) - 2.30258509).abs() < 1e-7);
    assert!(trig::ln(s(1.0)).value().abs() <= 2);
    assert!(trig::ln(s(1.0)).value() <= 0);
    assert!(trig::ln(s(0.999999999)).value() <= 0);
    assert_eq!(trig::ln(Scalar::zero()), Scalar::neg_infinity());
}

#[test]
fn example_scenes_are_assembled() {
    let scene = scenes::quads();
    assert_eq!(scene.world.objects.len(), 5);
    assert_eq!(scene.camera.image_width, 400);
    assert_eq!(scene.camera.image_height, 400);
    assert_eq!(scenes::planars().world.objects.len(), 5);
    assert_eq!(scenes::material_spheres().camera.image_height, 225);
    assert_eq!(scenes::checkered_spheres().world.objects.len(), 2);
    assert_eq!(scenes::simple_light().world.objects.len(), 3);
    assert_eq!(scenes::cornell_box().world.objects.len(), 8);
    assert_eq!(scenes::cornell_smoke().camera.max_depth, 75);
    let builder = scenes::CameraBuilder {
        aspect_ratio: s(1.0),
        image_width: 50,
        vfov: s(40.0),
        look_from: point(s(0.0), s(0.0), s(5.0)),
        look_at: v(0.0, 0.0, 0.0),
        up: v(0.0, 1.0, 0.0),
        aa_samples: 3,
        max_depth: 4,
    };
    let camera = builder.build();
    assert_eq!((camera.image_height, camera.aa_samples), (50, 3));
    let _ = color(s(1.0), s(1.0), s(1.0));
}
