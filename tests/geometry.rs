use std::sync::Arc;

use raytracer::bounds::BoundingBox;
use raytracer::bvh::BoundNode;
use raytracer::hittable::{Hittable, HittableList};
use raytracer::interval::Interval;
use raytracer::materials::{Lambertian, Material};
use raytracer::ray::Ray;
use raytracer::rng::Rng;
use raytracer::scalar::{Scalar, LIMIT, SCALE};
use raytracer::shapes::{parallelepiped, Parallelogram, Plane, Sphere, Triangle};
use raytracer::vec3::{color, Vec3};

fn s(x: f64) -> Scalar {
    Scalar::from_raw((x * SCALE as f64).round() as i64)
}

fn v(x: f64, y: f64, z: f64) -> Vec3 {
    Vec3(s(x), s(y), s(z))
}

fn f(x: Scalar) -> f64 {
    x.value() as f64 / SCALE as f64
}

fn grey() -> Arc<Material> {
    Arc::new(Material::Lambertian(Lambertian::from(color(s(0.5), s(0.5), s(0.5)))))
}

fn ray(o: Vec3, d: Vec3) -> Ray {
    Ray { origin: o, direction: d }
}

#[test]
fn scalar_arithmetic_is_exact_to_nine_digits() {
    assert_eq!(s(1.5).mul(s(2.0)).value(), 3 * SCALE);
    assert_eq!(s(1.0).div(s(3.0)).value(), 333_333_333);
    assert_eq!(s(-1.0).div(s(3.0)).value(), -333_333_333);
    assert_eq!(s(2.0).sqrt().value(), 1_414_213_562);
    assert_eq!(s(-2.5).floor(), -3);
    assert_eq!(s(2.5).floor(), 2);
    assert_eq!(s(1.0).div(Scalar::zero()).value(), LIMIT);
    assert_eq!(Scalar::infinity().add(Scalar::infinity()).value(), LIMIT);
    assert_eq!(Scalar::milli(1500).value(), 1_500_000_000);
    assert_eq!(Scalar::ratio(16, 9).value(), 1_777_777_777);
}

#[test]
fn interval_clamp_picks_bound_or_value() {
    let iv = Interval::new(s(0.0), s(1.0));
    assert_eq!(iv.clamp(s(0.25)), s(0.25));
    assert_eq!(iv.clamp(s(-3.0)), s(0.0));
    assert_eq!(iv.clamp(s(7.0)), s(1.0));
    assert_eq!(iv.clamp(s(0.0)), s(0.0));
    assert_eq!(iv.clamp(s(1.0)), s(1.0));
}

#[test]
fn interval_queries() {
    let iv = Interval::new(s(1.0), s(3.0));
    assert!(iv.contains(s(1.0)) && iv.contains(s(3.0)));
    assert!(!iv.surrounds(s(1.0)) && iv.surrounds(s(2.0)));
    assert_eq!(iv.size(), s(2.0));
    let wide = iv.expand(s(0.5));
    assert_eq!((wide.start, wide.end), (s(0.5), s(3.5)));
    let u = Interval::from_pair(iv, Interval::new(s(-1.0), s(2.0)));
    assert_eq!((u.start, u.end), (s(-1.0), s(3.0)));
    assert!(iv.overlaps(&Interval::new(s(2.0), s(5.0))));
    assert!(!iv.overlaps(&Interval::new(s(3.0), s(5.0))));
    assert!(!Interval::empty().contains(Scalar::zero()));
    assert!(Interval::universe().contains(s(1e9)));
    let r = Interval::from_range(s(0.5)..s(2.0));
    assert_eq!((r.start, r.end), (s(0.5), s(2.0)));
    let moved = iv.shift(s(10.0));
    assert_eq!((moved.start, moved.end), (s(11.0), s(13.0)));
}

#[test]
fn box_union_covers_both_boxes() {
    let a = BoundingBox::from_points(v(0.0, 0.0, 0.0), v(1.0, 2.0, 3.0));
    let b = BoundingBox::from_points(v(-1.0, 0.5, 2.0), v(0.5, 4.0, 5.0));
    let u = BoundingBox::from_boxes(a, b);
    for i in 0..3 {
        for bx in [a, b] {
            assert!(u.intervals[i].start.le(bx.intervals[i].start));
            assert!(bx.intervals[i].end.le(u.intervals[i].end));
        }
    }
    assert_eq!(u.intervals[1].end, s(4.0));
    assert_eq!(u.intervals[0].start, s(-1.0));
}

#[test]
fn flat_box_is_padded() {
    let b = BoundingBox::from_points(v(0.0, 0.0, 0.0), v(1.0, 1.0, 0.0));
    assert_eq!(b.intervals[2].start, s(-0.0001));
    assert_eq!(b.intervals[2].end, s(0.0001));
    assert_eq!(b.intervals[0].start, s(0.0));
    assert_eq!(b.longest_axis(), 1);
    let tall = BoundingBox::from_points(v(0.0, 0.0, 0.0), v(1.0, 5.0, 2.0));
    assert_eq!(tall.longest_axis(), 1);
    let deep = BoundingBox::from_points(v(0.0, 0.0, 0.0), v(1.0, 5.0, 9.0));
    assert_eq!(deep.longest_axis(), 2);
    let wide = BoundingBox::from_points(v(0.0, 0.0, 0.0), v(7.0, 5.0, 2.0));
    assert_eq!(wide.longest_axis(), 0);
}

#[test]
fn slab_test_hits_and_misses() {
    let b = BoundingBox::from_points(v(-1.0, -1.0, -1.0), v(1.0, 1.0, 1.0));
    let t = Interval::new(s(0.0), Scalar::infinity());
    assert!(b.hit(&ray(v(0.0, 0.0, -5.0), v(0.0, 0.0, 1.0)), t));
    assert!(!b.hit(&ray(v(0.0, 3.0, -5.0), v(0.0, 0.0, 1.0)), t));
    assert!(!b.hit(&ray(v(0.0, 0.0, -5.0), v(0.0, 0.0, -1.0)), t));
    assert!(!b.hit(&ray(v(0.0, 0.0, -5.0), v(0.0, 0.0, 1.0)), Interval::new(s(0.0), s(3.0))));
    assert!(!b.hit(&ray(v(-5.0, 0.0, -5.0), v(1.0, 0.0, 0.2)), t));
    let moved = b.shift(&v(10.0, 0.0, 0.0));
    assert_eq!(moved.intervals[0].start, s(9.0));
}

#[test]
fn sphere_hit_lies_on_sphere_and_faces_ray() {
    let sphere = Sphere::new(v(0.0, 0.0, 0.0), s(1.0), grey());
    let r = ray(v(0.0, 0.0, -5.0), v(0.0, 0.0, 1.0));
    let hit = sphere.hit(&r, Interval::new(s(0.001), Scalar::infinity())).unwrap();
    assert_eq!(hit.t, s(4.0));
    assert_eq!(hit.point, v(0.0, 0.0, -1.0));
    assert_eq!(hit.normal, v(0.0, 0.0, -1.0));
    assert!(hit.front_face);
    assert!(Vec3::dot(&r.direction, &hit.normal).le(Scalar::zero()));
    let off_axis = ray(v(0.3, 0.2, -5.0), v(0.01, -0.02, 1.0));
    let h = sphere.hit(&off_axis, Interval::new(s(0.001), Scalar::infinity())).unwrap();
    let dist = Vec3::sub(&h.point, &sphere.center).length();
    assert!((f(dist) - 1.0).abs() < 1e-7);
    assert!(Vec3::dot(&off_axis.direction, &h.normal).le(Scalar::zero()));
}

#[test]
fn sphere_hit_from_inside_takes_far_root() {
    let sphere = Sphere::new(v(0.0, 0.0, 0.0), s(2.0), grey());
    let r = ray(v(0.0, 0.0, 0.0), v(1.0, 0.0, 0.0));
    let hit = sphere.hit(&r, Interval::new(s(0.001), Scalar::infinity())).unwrap();
    assert_eq!(hit.t, s(2.0));
    assert!(!hit.front_face);
    assert_eq!(hit.normal, v(-1.0, 0.0, 0.0));
}

#[test]
fn sphere_misses() {
    let sphere = Sphere::new(v(0.0, 0.0, 0.0), s(1.0), grey());
    let r = ray(v(0.0, 3.0, -5.0), v(0.0, 0.0, 1.0));
    assert!(sphere.hit(&r, Interval::new(s(0.001), Scalar::infinity())).is_none());
    let short = ray(v(0.0, 0.0, -5.0), v(0.0, 0.0, 1.0));
    assert!(sphere.hit(&short, Interval::new(s(0.001), s(3.0))).is_none());
}

#[test]
fn sphere_uv_at_poles_and_equator() {
    let sphere = Sphere::new(v(0.0, 0.0, 0.0), s(1.0), grey());
    let (u, vv) = sphere.get_uv(&v(1.0, 0.0, 0.0));
    assert!((f(u) - 0.5).abs() < 1e-6 && (f(vv) - 0.5).abs() < 1e-6);
    let (_, bottom) = sphere.get_uv(&v(0.0, -1.0, 0.0));
    assert!(f(bottom).abs() < 1e-6);
    let (u2, _) = sphere.get_uv(&v(0.0, 0.0, 1.0));
    assert!((f(u2) - 0.25).abs() < 1e-6);
}

#[test]
fn parallelogram_reports_hit_inside_unit_square() {
    let quad = Parallelogram::new(v(0.0, 0.0, 0.0), (v(1.0, 0.0, 0.0), v(0.0, 1.0, 0.0)), grey());
    let r = ray(v(0.5, 0.5, -5.0), v(0.0, 0.0, 1.0));
    let hit = quad.hit(&r, Interval::new(s(0.001), Scalar::infinity())).unwrap();
    assert_eq!(hit.t, s(5.0));
    assert_eq!(hit.point, v(0.5, 0.5, 0.0));
    assert_eq!((hit.u, hit.v), (s(0.5), s(0.5)));
    assert_eq!(hit.normal, v(0.0, 0.0, -1.0));
    assert!(!hit.front_face);
    assert!(Vec3::dot(&r.direction, &hit.normal).le(Scalar::zero()));
    let outside = ray(v(1.5, 0.5, -5.0), v(0.0, 0.0, 1.0));
    assert!(quad.hit(&outside, Interval::new(s(0.001), Scalar::infinity())).is_none());
    let below = ray(v(0.5, -0.25, -5.0), v(0.0, 0.0, 1.0));
    assert!(quad.hit(&below, Interval::new(s(0.001), Scalar::infinity())).is_none());
    assert_eq!((quad.q(), quad.u(), quad.v()), (v(0.0, 0.0, 0.0), v(1.0, 0.0, 0.0), v(0.0, 1.0, 0.0)));
}

#[test]
fn triangle_interior_test() {
    assert!(Triangle::is_interior(s(0.25), s(0.25)).is_some());
    assert!(Triangle::is_interior(s(0.75), s(0.5)).is_none());
    assert!(Triangle::is_interior(s(-0.1), s(0.5)).is_none());
    assert!(Parallelogram::is_interior(s(0.75), s(0.5)).is_some());
    assert!(Parallelogram::is_interior(s(1.25), s(0.5)).is_none());
    let tri = Triangle::new((v(0.0, 0.0, 0.0), v(1.0, 0.0, 0.0), v(0.0, 1.0, 0.0)), grey());
    let t = Interval::new(s(0.001), Scalar::infinity());
    let hit = tri.hit(&ray(v(0.25, 0.25, 2.0), v(0.0, 0.0, -1.0)), t).unwrap();
    assert_eq!(hit.t, s(2.0));
    assert_eq!((hit.u, hit.v), (s(0.25), s(0.25)));
    assert!(tri.hit(&ray(v(0.75, 0.75, 2.0), v(0.0, 0.0, -1.0)), t).is_none());
}

#[test]
fn plane_rejects_parallel_rays() {
    let plane = Plane::new(v(0.0, 0.0, 0.0), v(0.0, 1.0, 0.0));
    let t = Interval::new(s(0.0), Scalar::infinity());
    assert!(plane.hit(&ray(v(0.0, 1.0, 0.0), v(1.0, 0.0, 0.0)), t).is_none());
    let hit = plane.hit(&ray(v(0.0, 2.0, 0.0), v(0.0, -1.0, 0.0)), t).unwrap();
    assert_eq!(hit.t, s(2.0));
    assert_eq!(hit.normal, v(0.0, 1.0, 0.0));
}

fn sphere_field() -> Vec<Arc<Hittable>> {
    let mut objects = Vec::new();
    for i in 0..7 {
        for j in 0..5 {
            let c = v(i as f64 * 1.7 - 5.0, j as f64 * 1.3 - 3.0, -4.0 - ((i + j) % 3) as f64);
            let r = 0.4 + 0.1 * ((i * j) % 4) as f64;
            objects.push(Arc::new(Hittable::Sphere(Sphere::new(c, s(r), grey()))));
        }
    }
    objects
}

#[test]
fn hierarchy_agrees_with_linear_scan() {
    let objects = sphere_field();
    let mut list = HittableList::new();
    for o in &objects {
        list.add_arc(o.clone());
    }
    let tree = BoundNode::from_objects(&objects, 0..objects.len());
    let mut rng = Rng::seeded(7);
    let t = Interval::new(s(0.0001), Scalar::infinity());
    let mut hits = 0;
    for a in 0..40 {
        for b in 0..30 {
            let r = ray(v(0.0, 0.0, 2.0), v(a as f64 * 0.05 - 1.0, b as f64 * 0.05 - 0.75, -1.0));
            let linear = list.hit(&r, t, &mut rng);
            let bvh = tree.hit(&r, t, &mut rng);
            match (linear, bvh) {
                (Some(x), Some(y)) => {
                    hits += 1;
                    assert!((f(x.t) - f(y.t)).abs() < 1e-6);
                    assert_eq!(x.point, y.point);
                }
                (None, None) => {}
                _ => panic!("hierarchy and list disagree"),
            }
        }
    }
    assert!(hits > 100);
}

#[test]
fn hierarchy_box_covers_objects() {
    let objects = sphere_field();
    let tree = BoundNode::from_objects(&objects, 0..objects.len());
    let b = tree.bound();
    for o in &objects {
        let ob = o.bound();
        for i in 0..3 {
            assert!(b.intervals[i].start.le(ob.intervals[i].start));
            assert!(ob.intervals[i].end.le(b.intervals[i].end));
        }
    }
    let single = BoundNode::from_objects(&objects, 3..4);
    assert_eq!(single.bound(), objects[3].bound());
}

#[test]
fn box_of_six_faces_is_hit_on_near_face() {
    let shape = parallelepiped(v(0.0, 0.0, 0.0), v(2.0, 2.0, 2.0), grey());
    let mut rng = Rng::seeded(1);
    let hit = shape
        .hit(&ray(v(1.0, 1.0, -5.0), v(0.0, 0.0, 1.0)), Interval::new(s(0.001), Scalar::infinity()), &mut rng)
        .unwrap();
    assert_eq!(hit.t, s(5.0));
    assert_eq!(hit.normal, v(0.0, 0.0, -1.0));
}

#[test]
fn box_faces_have_their_corners_and_edges() {
    let shape = parallelepiped(v(2.0, 0.0, 3.0), v(0.0, 1.0, 0.0), grey());
    match &*shape {
        Hittable::List(l) => {
            assert_eq!(l.objects.len(), 6);
            match &*l.objects[0] {
                Hittable::Parallelogram(p) => {
                    assert_eq!(p.corner, v(0.0, 0.0, 3.0));
                    assert_eq!(p.sides, (v(2.0, 0.0, 0.0), v(0.0, 1.0, 0.0)));
                }
                _ => panic!("a face is not a parallelogram"),
            }
            match &*l.objects[4] {
                Hittable::Parallelogram(p) => {
                    assert_eq!(p.corner, v(0.0, 1.0, 3.0));
                    assert_eq!(p.sides, (v(2.0, 0.0, 0.0), v(0.0, 0.0, -3.0)));
                }
                _ => panic!("a face is not a parallelogram"),
            }
        }
        _ => panic!("not a list"),
    }
}

#[test]
fn hierarchy_spans_its_objects() {
    let objects = sphere_field();
    let tree = BoundNode::from_objects(&objects, 2..9);
    assert_eq!(tree.span, 7);
    assert_eq!(BoundNode::from_objects(&objects, 4..6).span, 2);
}

#[test]
fn translation_and_rotation_move_hits() {
    let sphere = Arc::new(Hittable::Sphere(Sphere::new(v(0.0, 0.0, 0.0), s(1.0), grey())));
    let moved = raytracer::hittable::Translation::new(sphere.clone(), v(3.0, 0.0, 0.0));
    let mut rng = Rng::seeded(2);
    let t = Interval::new(s(0.001), Scalar::infinity());
    let hit = moved.hit(&ray(v(3.0, 0.0, -5.0), v(0.0, 0.0, 1.0)), t, &mut rng).unwrap();
    assert_eq!(hit.point, v(3.0, 0.0, -1.0));
    assert_eq!(hit.t, s(4.0));
    let shape = parallelepiped(v(0.0, 0.0, 0.0), v(2.0, 2.0, 2.0), grey());
    let turned = raytracer::hittable::RotateY::new(shape, s(90.0));
    let hit = turned.hit(&ray(v(1.0, 1.0, 5.0), v(0.0, 0.0, -1.0)), t, &mut rng).unwrap();
    assert!((f(hit.t) - 5.0).abs() < 1e-6);
    assert!(Vec3::dot(&v(0.0, 0.0, -1.0), &hit.normal).le(Scalar::zero()));
    let b = Hittable::RotateY(turned).bound();
    assert!((f(b.intervals[2].start) + 2.0).abs() < 1e-3);
    assert!((f(b.intervals[0].end) - 2.0).abs() < 1e-3);
}
