//! Primitive shapes and their intersection with rays.
use vstd::prelude::*;
use std::sync::Arc;
use crate::bounds::BoundingBox;
use crate::hittable::{facing, view_of, HitRecord, HitView, HittableList, Hittable};
use crate::interval::Interval;
use crate::materials::{Invisible, Material};
use crate::ray::{at_spec, Ray};
use crate::scalar::{clip, div_spec, mul_spec, sqrt_spec, Scalar, SCALE};
use crate::trig::{self, acos_spec, atan2_spec};
use crate::vec3::{point, vcross, vdiv, vdot, vlength, vneg, vsub, Point, Vec3};

verus! {

/// Rays closer than this to parallel with a plane (`1e-8` against the normal) miss it.
pub const PARALLEL: i64 = 10;

/// Parameter at which the ray `o + t d` meets the plane through `q` with normal `n`; none for a
/// ray nearly parallel to it.
pub open spec fn plane_t(q: (int, int, int), n: (int, int, int), o: (int, int, int), d: (
    int,
    int,
    int,
)) -> Option<int> {
    let den = vdot(d, n);
    if -PARALLEL < den < PARALLEL {
        None
    } else {
        Some(div_spec(clip(vdot(q, n) - vdot(o, n)), den))
    }
}

/// Coordinates `(alpha, beta)` of `p` in the frame with origin `q` and edges `u`, `v`, where
/// `w = n / (n . n)` for the plane's normal `n`.
pub open spec fn plane_coords(
    q: (int, int, int),
    w: (int, int, int),
    u: (int, int, int),
    v: (int, int, int),
    p: (int, int, int),
) -> (int, int) {
    let rel = vsub(p, q);
    (vdot(w, vcross(rel, v)), vdot(w, vcross(u, rel)))
}

/// Whether the coordinates lie inside the triangle (`tri`) or the parallelogram.
pub open spec fn inside(tri: bool, a: int, b: int) -> bool {
    if tri {
        a >= 0 && b >= 0 && clip(a + b) <= SCALE
    } else {
        0 <= a <= SCALE && 0 <= b <= SCALE
    }
}

/// A flat shape's answer to a ray: the parameter and coordinates of the hit, if any.
pub open spec fn planar_spec(
    q: (int, int, int),
    n: (int, int, int),
    w: (int, int, int),
    u: (int, int, int),
    v: (int, int, int),
    tri: bool,
    o: (int, int, int),
    d: (int, int, int),
    lo: int,
    hi: int,
) -> Option<(int, int, int)> {
    match plane_t(q, n, o, d) {
        None => None,
        Some(tt) => {
            let c = plane_coords(q, w, u, v, at_spec(o, d, tt));
            if lo <= tt <= hi && inside(tri, c.0, c.1) {
                Some((tt, c.0, c.1))
            } else {
                None
            }
        },
    }
}

/// The root of `|o + t d - c|^2 = r^2` that a sphere reports: the smaller one if it lies
/// strictly inside `(lo, hi)`, else the larger one if it does.
pub open spec fn sphere_root(
    c: (int, int, int),
    radius: int,
    o: (int, int, int),
    d: (int, int, int),
    lo: int,
    hi: int,
) -> Option<int> {
    let oc = vsub(c, o);
    let a = vdot(d, d);
    let h = vdot(d, oc);
    let cc = clip(vdot(oc, oc) - mul_spec(radius, radius));
    let disc = clip(mul_spec(h, h) - mul_spec(a, cc));
    if disc < 0 {
        None
    } else {
        let s = sqrt_spec(disc);
        let r1 = div_spec(clip(h - s), a);
        let r2 = div_spec(clip(h + s), a);
        if lo < r1 < hi {
            Some(r1)
        } else if lo < r2 < hi {
            Some(r2)
        } else {
            None
        }
    }
}

/// A value moved into `[0, 1]`.
pub open spec fn unit_clamp(x: int) -> int {
    if x < 0 {
        0
    } else if x > SCALE {
        SCALE as int
    } else {
        x
    }
}

/// Surface parameters of the point `p` of the unit sphere, each kept in `[0, 1]`:
/// `u = (atan2(-z, x) + pi) / 2 pi` and `v = acos(-y) / pi`.
pub open spec fn sphere_uv(p: (int, int, int)) -> (int, int) {
    let pi = trig::PI as int;
    (
        unit_clamp(div_spec(clip(atan2_spec(-p.2, p.0) + pi), clip(pi + pi))),
        unit_clamp(div_spec(acos_spec(-p.1), pi)),
    )
}

/// A sphere's answer to the ray `o + t d`, `t` in `(lo, hi)`.
pub open spec fn sphere_view(s: Sphere, o: (int, int, int), d: (int, int, int), lo: int, hi: int) -> Option<
    HitView,
> {
    match sphere_root(s.center@, s.radius@, o, d, lo, hi) {
        Some(root) => {
            let p = at_spec(o, d, root);
            let n = vdiv(vsub(p, s.center@), s.radius@);
            let uv = sphere_uv(n);
            Some(
                HitView {
                    t: root,
                    point: p,
                    normal: facing(d, n),
                    front_face: vdot(d, n) < 0,
                    u: uv.0,
                    v: uv.1,
                    material: s.material,
                },
            )
        },
        None => None,
    }
}

/// A flat shape's answer, for its frame `f` (corner, unit normal, `w`, edges).
pub open spec fn planar_view(
    f: ((int, int, int), (int, int, int), (int, int, int), (int, int, int), (int, int, int)),
    tri: bool,
    material: Arc<Material>,
    o: (int, int, int),
    d: (int, int, int),
    lo: int,
    hi: int,
) -> Option<HitView> {
    match planar_spec(f.0, f.1, f.2, f.3, f.4, tri, o, d, lo, hi) {
        Some((tt, a, b)) => Some(
            HitView {
                t: tt,
                point: at_spec(o, d, tt),
                normal: facing(d, f.1),
                front_face: vdot(d, f.1) < 0,
                u: a,
                v: b,
                material,
            },
        ),
        None => None,
    }
}

pub struct Sphere {
    pub center: Vec3,
    pub radius: Scalar,
    pub material: Arc<Material>,
    pub bounds: BoundingBox,
}

impl Sphere {
    pub fn new(center: Vec3, radius: Scalar, material: Arc<Material>) -> (r: Sphere)
        ensures
            r.center == center,
            r.radius == radius,
            r.material == material,
            forall|i: int|
                0 <= i < 3 ==> #[trigger] r.bounds.intervals[i].has(
                    clip(center.axis(i)@ - radius@),
                ) && r.bounds.intervals[i].has(clip(center.axis(i)@ + radius@)),
    {
        let extent = Vec3(radius, radius, radius);
        let bounds = BoundingBox::from_points(
            Vec3::sub(&center, &extent),
            Vec3::add(&center, &extent),
        );
        Sphere { center, radius, material, bounds }
    }

    pub fn bound(&self) -> (r: BoundingBox)
        ensures
            r == self.bounds,
    {
        self.bounds
    }

    /// Surface parameters of the point `p` of the unit sphere: `u = phi / 2 pi` with
    /// `phi = atan2(-z, x) + pi`, and `v = theta / pi` with `theta = acos(-y)`.
    pub fn get_uv(&self, p: &Vec3) -> (r: (Scalar, Scalar))
        ensures
            (r.0@, r.1@) == sphere_uv(p@),
            0 <= r.0@ <= SCALE && 0 <= r.1@ <= SCALE,
    {
        let pi = Scalar::from_raw(trig::PI);
        let theta = trig::acos(p.y().neg());
        let phi = trig::atan2(p.z().neg(), p.x()).add(pi);
        let unit = Interval::new(Scalar::zero(), Scalar::one());
        (unit.clamp(phi.div(pi.add(pi))), unit.clamp(theta.div(pi)))
    }

    pub fn hit(&self, ray: &Ray, t_range: Interval) -> (r: Option<HitRecord>)
        ensures
            view_of(r) == sphere_view(*self, ray.origin@, ray.direction@, t_range.start@, t_range.end@),
            r matches Some(h) ==> t_range.has(h.t@) && vdot(ray.direction@, h.normal@) <= 0,
    {
        let oc = Vec3::sub(&self.center, &ray.origin);
        let a = ray.direction.length_squared();
        let h = Vec3::dot(&ray.direction, &oc);
        let c = oc.length_squared().sub(self.radius.mul(self.radius));
        let discriminant = h.mul(h).sub(a.mul(c));
        if discriminant.lt(Scalar::zero()) {
            return None;
        }
        let sqrtd = discriminant.sqrt();
        let mut root = h.sub(sqrtd).div(a);
        if !t_range.surrounds(root) {
            root = h.add(sqrtd).div(a);
            if !t_range.surrounds(root) {
                return None;
            }
        }
        let point = ray.at(root);
        let normal = Vec3::div(&Vec3::sub(&point, &self.center), self.radius);
        let (u, v) = self.get_uv(&normal);
        let mut record = HitRecord::new(ray, root, point, normal, self.material.clone());
        record.set_uv(u, v);
        Some(record)
    }
}

/// The hit of a flat shape with corner `q`, unit normal `n`, frame vector `w` and edges `u`, `v`.
fn planar_hit(
    q: &Point,
    n: &Vec3,
    w: &Vec3,
    u: &Vec3,
    v: &Vec3,
    tri: bool,
    material: &Arc<Material>,
    ray: &Ray,
    t_range: Interval,
) -> (r: Option<HitRecord>)
    ensures
        view_of(r) == planar_view((q@, n@, w@, u@, v@), tri, *material, ray.origin@, ray.direction@, t_range.start@, t_range.end@),
        r matches Some(h) ==> t_range.has(h.t@) && vdot(ray.direction@, h.normal@) <= 0,
{
    match Plane::new(*q, *n).hit(ray, t_range) {
        None => None,
        Some(record) => {
            let p = Vec3::sub(&record.point, q);
            let alpha = Vec3::dot(w, &Vec3::cross(&p, v));
            let beta = Vec3::dot(w, &Vec3::cross(u, &p));
            let found = if tri {
                Triangle::is_interior(alpha, beta)
            } else {
                Parallelogram::is_interior(alpha, beta)
            };
            match found {
                None => None,
                Some((a, b)) => {
                    let mut hit = HitRecord::new(ray, record.t, record.point, *n, material.clone());
                    hit.set_uv(a, b);
                    Some(hit)
                },
            }
        },
    }
}

pub struct Triangle {
    pub vertex: (Vec3, Vec3, Vec3),
    pub normal: Vec3,
    pub w: Vec3,
    pub material: Arc<Material>,
    pub bounds: BoundingBox,
}

impl Triangle {
    pub fn new(vertex: (Vec3, Vec3, Vec3), material: Arc<Material>) -> (r: Triangle)
        ensures
            r.vertex == vertex,
            r.material == material,
            ({
                let n = vcross(vsub(vertex.1@, vertex.0@), vsub(vertex.2@, vertex.0@));
                r.normal@ == vdiv(n, vlength(n)) && r.w@ == vdiv(n, vdot(n, n))
            }),
    {
        let n = Vec3::cross(&Vec3::sub(&vertex.1, &vertex.0), &Vec3::sub(&vertex.2, &vertex.0));
        let normal = n.unit();
        let w = Vec3::div(&n, Vec3::dot(&n, &n));
        let lo = Vec3(
            vertex.0.x().min(vertex.1.x()).min(vertex.2.x()),
            vertex.0.y().min(vertex.1.y()).min(vertex.2.y()),
            vertex.0.z().min(vertex.1.z()).min(vertex.2.z()),
        );
        let hi = Vec3(
            vertex.0.x().max(vertex.1.x()).max(vertex.2.x()),
            vertex.0.y().max(vertex.1.y()).max(vertex.2.y()),
            vertex.0.z().max(vertex.1.z()).max(vertex.2.z()),
        );
        let bounds = BoundingBox::from_points(lo, hi);
        Triangle { vertex, normal, w, material, bounds }
    }

    /// The coordinates, when they lie inside the triangle: both at least 0, summing to at most 1.
    pub fn is_interior(alpha: Scalar, beta: Scalar) -> (r: Option<(Scalar, Scalar)>)
        ensures
            r == if inside(true, alpha@, beta@) {
                Some((alpha, beta))
            } else {
                None
            },
    {
        if alpha.lt(Scalar::zero()) || beta.lt(Scalar::zero()) || Scalar::one().lt(alpha.add(beta)) {
            None
        } else {
            Some((alpha, beta))
        }
    }

    pub fn bound(&self) -> (r: BoundingBox)
        ensures
            r == self.bounds,
    {
        self.bounds
    }

    /// The frame of the triangle's plane: corner, unit normal, `w` and the two edges.
    pub open spec fn frame(self) -> ((int, int, int), (int, int, int), (int, int, int), (int, int, int), (int, int, int)) {
        (
            self.vertex.0@,
            self.normal@,
            self.w@,
            vsub(self.vertex.1@, self.vertex.0@),
            vsub(self.vertex.2@, self.vertex.0@),
        )
    }

    pub fn hit(&self, ray: &Ray, t_range: Interval) -> (r: Option<HitRecord>)
        ensures
            view_of(r) == planar_view(self.frame(), true, self.material, ray.origin@, ray.direction@, t_range.start@, t_range.end@),
            r matches Some(h) ==> t_range.has(h.t@) && vdot(ray.direction@, h.normal@) <= 0,
    {
        let u = Vec3::sub(&self.vertex.1, &self.vertex.0);
        let v = Vec3::sub(&self.vertex.2, &self.vertex.0);
        planar_hit(&self.vertex.0, &self.normal, &self.w, &u, &v, true, &self.material, ray, t_range)
    }
}

pub struct Parallelogram {
    pub corner: Point,
    pub sides: (Vec3, Vec3),
    pub normal: Vec3,
    pub w: Vec3,
    pub material: Arc<Material>,
    pub bounds: BoundingBox,
}

impl Parallelogram {
    pub fn new(corner: Point, sides: (Vec3, Vec3), material: Arc<Material>) -> (r: Parallelogram)
        ensures
            r.corner == corner,
            r.sides == sides,
            r.material == material,
            ({
                let n = vcross(sides.0@, sides.1@);
                r.normal@ == vdiv(n, vlength(n)) && r.w@ == vdiv(n, vdot(n, n))
            }),
    {
        let n = Vec3::cross(&sides.0, &sides.1);
        let normal = n.unit();
        let w = Vec3::div(&n, Vec3::dot(&n, &n));
        let far = Vec3::add(&Vec3::add(&corner, &sides.0), &sides.1);
        let diagonal_1 = BoundingBox::from_points(corner, far);
        let diagonal_2 = BoundingBox::from_points(
            Vec3::add(&corner, &sides.0),
            Vec3::add(&corner, &sides.1),
        );
        let bounds = BoundingBox::from_boxes(diagonal_1, diagonal_2);
        Parallelogram { corner, sides, normal, w, material, bounds }
    }

    pub fn q(&self) -> (r: Vec3)
        ensures
            r == self.corner,
    {
        self.corner
    }

    pub fn u(&self) -> (r: Vec3)
        ensures
            r == self.sides.0,
    {
        self.sides.0
    }

    pub fn v(&self) -> (r: Vec3)
        ensures
            r == self.sides.1,
    {
        self.sides.1
    }

    /// The coordinates, when both lie in `[0, 1]`.
    pub fn is_interior(alpha: Scalar, beta: Scalar) -> (r: Option<(Scalar, Scalar)>)
        ensures
            r == if inside(false, alpha@, beta@) {
                Some((alpha, beta))
            } else {
                None
            },
    {
        let unit = Interval::new(Scalar::zero(), Scalar::one());
        if !unit.contains(alpha) || !unit.contains(beta) {
            None
        } else {
            Some((alpha, beta))
        }
    }

    pub fn bound(&self) -> (r: BoundingBox)
        ensures
            r == self.bounds,
    {
        self.bounds
    }

    /// The frame of the parallelogram's plane: corner, unit normal, `w` and the two edges.
    pub open spec fn frame(self) -> ((int, int, int), (int, int, int), (int, int, int), (int, int, int), (int, int, int)) {
        (self.corner@, self.normal@, self.w@, self.sides.0@, self.sides.1@)
    }

    pub fn hit(&self, ray: &Ray, t_range: Interval) -> (r: Option<HitRecord>)
        ensures
            view_of(r) == planar_view(self.frame(), false, self.material, ray.origin@, ray.direction@, t_range.start@, t_range.end@),
            r matches Some(h) ==> t_range.has(h.t@) && vdot(ray.direction@, h.normal@) <= 0,
    {
        planar_hit(
            &self.corner,
            &self.normal,
            &self.w,
            &self.sides.0,
            &self.sides.1,
            false,
            &self.material,
            ray,
            t_range,
        )
    }
}

/// Face `k` of the axis-aligned box with opposite corners `a` and `b`: its corner and its two
/// edges. The faces are, in order, the front (`z` max), right (`x` max), back (`z` min), left
/// (`x` min), top (`y` max) and bottom (`y` min).
pub open spec fn box_face(a: (int, int, int), b: (int, int, int), k: int) -> (
    (int, int, int),
    (int, int, int),
    (int, int, int),
) {
    let lo = (
        if a.0 <= b.0 { a.0 } else { b.0 },
        if a.1 <= b.1 { a.1 } else { b.1 },
        if a.2 <= b.2 { a.2 } else { b.2 },
    );
    let hi = (
        if a.0 >= b.0 { a.0 } else { b.0 },
        if a.1 >= b.1 { a.1 } else { b.1 },
        if a.2 >= b.2 { a.2 } else { b.2 },
    );
    let dx = (clip(hi.0 - lo.0), 0int, 0int);
    let dy = (0int, clip(hi.1 - lo.1), 0int);
    let dz = (0int, 0int, clip(hi.2 - lo.2));
    if k == 0 {
        ((lo.0, lo.1, hi.2), dx, dy)
    } else if k == 1 {
        ((hi.0, lo.1, hi.2), vneg(dz), dy)
    } else if k == 2 {
        ((hi.0, lo.1, lo.2), vneg(dx), dy)
    } else if k == 3 {
        (lo, dz, dy)
    } else if k == 4 {
        ((lo.0, hi.1, hi.2), dx, vneg(dz))
    } else {
        (lo, dx, dz)
    }
}

/// Whether `h` is face `k` of that box, in `material`.
pub open spec fn is_face(h: Hittable, a: (int, int, int), b: (int, int, int), k: int, material: Arc<Material>) -> bool {
    match h {
        Hittable::Parallelogram(p) => (p.corner@, p.sides.0@, p.sides.1@) == box_face(a, b, k)
            && p.material == material,
        _ => false,
    }
}

/// The six faces of the axis-aligned box with opposite corners `a` and `b`.
pub fn parallelepiped(a: Point, b: Point, material: Arc<Material>) -> (r: Arc<Hittable>)
    ensures
        *r matches Hittable::List(l) && l.objects@.len() == 6 && forall|k: int|
            0 <= k < 6 ==> is_face(*#[trigger] l.objects@[k], a@, b@, k, material),
{
    let mut sides = HittableList::new();
    let min = Vec3(a.x().min(b.x()), a.y().min(b.y()), a.z().min(b.z()));
    let max = Vec3(a.x().max(b.x()), a.y().max(b.y()), a.z().max(b.z()));
    let zero = Scalar::zero();
    let dx = Vec3(max.x().sub(min.x()), zero, zero);
    let dy = Vec3(zero, max.y().sub(min.y()), zero);
    let dz = Vec3(zero, zero, max.z().sub(min.z()));
    sides.add(Hittable::Parallelogram(Parallelogram::new(point(min.x(), min.y(), max.z()), (dx, dy), material.clone())));
    sides.add(Hittable::Parallelogram(Parallelogram::new(point(max.x(), min.y(), max.z()), (dz.neg(), dy), material.clone())));
    sides.add(Hittable::Parallelogram(Parallelogram::new(point(max.x(), min.y(), min.z()), (dx.neg(), dy), material.clone())));
    sides.add(Hittable::Parallelogram(Parallelogram::new(point(min.x(), min.y(), min.z()), (dz, dy), material.clone())));
    sides.add(Hittable::Parallelogram(Parallelogram::new(point(min.x(), max.y(), max.z()), (dx, dz.neg()), material.clone())));
    sides.add(Hittable::Parallelogram(Parallelogram::new(point(min.x(), min.y(), min.z()), (dx, dz), material)));
    assert(sides.objects@.len() == 6);
    assert forall|k: int| 0 <= k < 6 implies is_face(*#[trigger] sides.objects@[k], a@, b@, k, material) by {
        assert(k == 0 || k == 1 || k == 2 || k == 3 || k == 4 || k == 5);
    }
    Arc::new(Hittable::List(sides))
}

/// An infinite plane, used to intersect the flat shapes.
pub struct Plane {
    pub point: Vec3,
    pub normal: Vec3,
}

impl Plane {
    pub fn new(point: Vec3, normal: Vec3) -> (r: Plane)
        ensures
            r.point == point,
            r.normal == normal,
    {
        Plane { point, normal }
    }

    /// The crossing within `t_range`, with a material that neither scatters nor emits.
    pub fn hit(&self, ray: &Ray, t_range: Interval) -> (r: Option<HitRecord>)
        ensures
            match plane_t(self.point@, self.normal@, ray.origin@, ray.direction@) {
                Some(tt) if t_range.has(tt) => r matches Some(h) && h.t@ == tt && h.point@
                    == at_spec(ray.origin@, ray.direction@, tt) && h.normal@ == facing(
                    ray.direction@,
                    self.normal@,
                ) && h.front_face == (vdot(ray.direction@, self.normal@) < 0) && *h.material
                    == Material::Invisible(Invisible),
                _ => r is None,
            },
    {
        let d = Vec3::dot(&self.point, &self.normal);
        let denominator = Vec3::dot(&ray.direction, &self.normal);
        if denominator.abs().lt(Scalar::from_raw(PARALLEL)) {
            return None;
        }
        let t = d.sub(Vec3::dot(&ray.origin, &self.normal)).div(denominator);
        if !t_range.contains(t) {
            return None;
        }
        Some(
            HitRecord::new(
                ray,
                t,
                ray.at(t),
                self.normal,
                Arc::new(Material::Invisible(Invisible)),
            ),
        )
    }

    /// A plane has no finite bounds: the empty box.
    pub fn bound(&self) -> (r: BoundingBox)
        ensures
            forall|i: int| 0 <= i < 3 ==> #[trigger] r.intervals[i].start@ == crate::scalar::LIMIT && r.intervals[i].end@
                == -crate::scalar::LIMIT,
    {
        BoundingBox::empty()
    }
}

pub enum Planar {
    Triangle(Triangle),
    Parallelogram(Parallelogram),
}

impl Planar {
    /// The hit of the triangle or parallelogram.
    pub fn hit(&self, ray: &Ray, t_range: Interval) -> (r: Option<HitRecord>)
        ensures
            view_of(r) == match self {
                Planar::Triangle(t) => planar_view(t.frame(), true, t.material, ray.origin@, ray.direction@, t_range.start@, t_range.end@),
                Planar::Parallelogram(p) => planar_view(p.frame(), false, p.material, ray.origin@, ray.direction@, t_range.start@, t_range.end@),
            },
            r matches Some(h) ==> t_range.has(h.t@) && vdot(ray.direction@, h.normal@) <= 0,
    {
        match self {
            Planar::Triangle(tri) => tri.hit(ray, t_range),
            Planar::Parallelogram(quad) => quad.hit(ray, t_range),
        }
    }

    pub fn bound(&self) -> (r: BoundingBox)
        ensures
            r == match self {
                Planar::Triangle(tri) => tri.bounds,
                Planar::Parallelogram(quad) => quad.bounds,
            },
    {
        match self {
            Planar::Triangle(tri) => tri.bound(),
            Planar::Parallelogram(quad) => quad.bound(),
        }
    }
}

} // verus!
