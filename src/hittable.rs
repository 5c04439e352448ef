//! Intersection results.
use vstd::prelude::*;
use std::sync::Arc;
use crate::bounds::{pad_spec, slab_spec, BoundingBox};
use crate::bvh::BoundNode;
use crate::interval::Interval;
use crate::materials::Material;
use crate::ray::{at_spec, Ray};
use crate::rng::Rng;
use crate::scalar::{mul_spec, Scalar, LIMIT};
use crate::shapes::{planar_view, sphere_view, Parallelogram, Planar, Sphere, Triangle};
use crate::trig;
use crate::trig::{sin_cos_spec, to_radians_spec};
use crate::vec3::{comp, lemma_dot_neg, vadd, vdiv, vdot, vneg, vsub, Color, Point, Vec3};
use crate::volumes::ConstantMedium;

verus! {

/// Where a ray met a surface: the normal always faces against the ray, and `front_face` records
/// whether the surface's own normal already did.
pub struct HitRecord {
    pub point: Point,
    pub normal: Vec3,
    pub t: Scalar,
    pub front_face: bool,
    pub u: Scalar,
    pub v: Scalar,
    pub material: Arc<Material>,
    pub emitted: Color,
}

/// The normal `n` turned to face against the direction `d`.
pub open spec fn facing(d: (int, int, int), n: (int, int, int)) -> (int, int, int) {
    if vdot(d, n) < 0 {
        n
    } else {
        vneg(n)
    }
}

/// A normal turned to face against `d` does.
pub proof fn lemma_facing(d: (int, int, int), n: (int, int, int))
    ensures
        vdot(d, facing(d, n)) <= 0,
{
    lemma_dot_neg(d, n);
}

impl HitRecord {
    /// A hit at parameter `t` and `point`, with the surface normal `normal` turned against the
    /// ray, surface parameters zero and no emission.
    pub fn new(ray: &Ray, t: Scalar, point: Point, normal: Vec3, material: Arc<Material>) -> (r:
        HitRecord)
        ensures
            r.t == t,
            r.point == point,
            r.front_face == (vdot(ray.direction@, normal@) < 0),
            r.normal@ == facing(ray.direction@, normal@),
            vdot(ray.direction@, r.normal@) <= 0,
            r.u@ == 0 && r.v@ == 0,
            r.material == material,
            r.emitted@ == (0int, 0int, 0int),
    {
        let front_face = Vec3::dot(&ray.direction, &normal).lt(Scalar::zero());
        proof {
            lemma_facing(ray.direction@, normal@);
        }
        let normal = if front_face {
            normal
        } else {
            normal.neg()
        };
        HitRecord {
            point,
            normal,
            t,
            front_face,
            u: Scalar::zero(),
            v: Scalar::zero(),
            material,
            emitted: Vec3::zero(),
        }
    }

    pub fn set_uv(&mut self, u: Scalar, v: Scalar)
        ensures
            *final(self) == (HitRecord { u, v, ..*old(self) }),
    {
        self.u = u;
        self.v = v;
    }

    pub fn set_material(&mut self, material: Arc<Material>)
        ensures
            *final(self) == (HitRecord { material, ..*old(self) }),
    {
        self.material = material;
    }
}

/// What every scene node promises of a hit: its parameter lies in the queried interval and its
/// normal faces against the ray.
pub open spec fn hit_ok(ray: Ray, t: Interval, r: Option<HitRecord>) -> bool {
    r matches Some(h) ==> t.has(h.t@) && vdot(ray.direction@, h.normal@) <= 0
}

/// What a hit says, as mathematical values: everything but its emission.
pub struct HitView {
    pub t: int,
    pub point: (int, int, int),
    pub normal: (int, int, int),
    pub front_face: bool,
    pub u: int,
    pub v: int,
    pub material: Arc<Material>,
}

impl HitRecord {
    pub open spec fn view(self) -> HitView {
        HitView {
            t: self.t@,
            point: self.point@,
            normal: self.normal@,
            front_face: self.front_face,
            u: self.u@,
            v: self.v@,
            material: self.material,
        }
    }
}

impl HitView {
    /// The material the hit's `Arc` shares.
    pub open spec fn material_value(self) -> Material {
        *self.material
    }
}

/// The view of a hit, if any.
pub open spec fn view_of(r: Option<HitRecord>) -> Option<HitView> {
    match r {
        Some(h) => Some(h.view()),
        None => None,
    }
}

/// The hit with the smaller parameter; the second on a tie.
pub open spec fn nearer(a: Option<HitView>, b: Option<HitView>) -> Option<HitView> {
    match (a, b) {
        (Some(x), Some(y)) => if x.t < y.t {
            a
        } else {
            b
        },
        (Some(_), None) => a,
        (None, _) => b,
    }
}

/// `v` turned into the frame of a node turned about `y` by the angle with sine `s` and cosine `c`.
pub open spec fn unturned(s: int, c: int, v: (int, int, int)) -> (int, int, int) {
    (
        crate::scalar::clip(mul_spec(c, v.0) - mul_spec(s, v.2)),
        v.1,
        crate::scalar::clip(mul_spec(s, v.0) + mul_spec(c, v.2)),
    )
}

/// A hit turned back out of a turned node's frame: point and normal turned, the normal faced
/// against `d` again, and the front-face flag flipped if that took a flip.
pub open spec fn turned_view(x: HitView, s: int, c: int, d: (int, int, int)) -> HitView {
    let nw = turned(s, c, x.normal);
    HitView {
        point: turned(s, c, x.point),
        normal: facing(d, nw),
        front_face: if vdot(d, nw) > 0 {
            !x.front_face
        } else {
            x.front_face
        },
        ..x
    }
}

/// Whether a node holds no medium anywhere, so that its hits do not depend on chance.
pub open spec fn det(h: Hittable) -> bool
    decreases h, 0int,
{
    match h {
        Hittable::List(l) => det_all(l.objects@, l.objects@.len() as int),
        Hittable::Node(n) => det(*n.left) && det(*n.right),
        Hittable::Translation(t) => det(*t.object),
        Hittable::RotateY(r) => det(*r.object),
        Hittable::Medium(_) => false,
        _ => true,
    }
}

/// Whether the first `n` nodes hold no medium.
pub open spec fn det_all(objs: Seq<Arc<Hittable>>, n: int) -> bool
    decreases objs, n,
{
    if n <= 0 || n > objs.len() {
        true
    } else {
        det_all(objs, n - 1) && det(*objs[n - 1])
    }
}

/// The hit that a node without media reports for the ray `o + t d` with `t` in `[lo, hi]`.
pub open spec fn hit_spec(h: Hittable, o: (int, int, int), d: (int, int, int), lo: int, hi: int) -> Option<HitView>
    decreases h, 0int,
{
    match h {
        Hittable::List(l) => scan(l.objects@, l.objects@.len() as int, o, d, lo, hi),
        Hittable::Node(n) => if slab_spec(n.bounds, o, d, lo, hi, 0) {
            nearer(hit_spec(*n.left, o, d, lo, hi), hit_spec(*n.right, o, d, lo, hi))
        } else {
            None
        },
        Hittable::Translation(tr) => match hit_spec(*tr.object, vsub(o, tr.offset@), d, lo, hi) {
            Some(x) => Some(HitView { point: vadd(x.point, tr.offset@), ..x }),
            None => None,
        },
        Hittable::RotateY(r) => {
            let s = r.sin_theta@;
            let c = r.cos_theta@;
            match hit_spec(*r.object, unturned(s, c, o), unturned(s, c, d), lo, hi) {
                Some(x) => Some(turned_view(x, s, c, d)),
                None => None,
            }
        },
        Hittable::Medium(_) => None,
        _ => shape_view(h, o, d, lo, hi),
    }
}

/// The hit of a sphere or a flat shape, as a hit view; none for the other nodes.
#[verifier::opaque]
pub open spec fn shape_view(h: Hittable, o: (int, int, int), d: (int, int, int), lo: int, hi: int) -> Option<HitView> {
    match h {
        Hittable::Sphere(s) => sphere_view(s, o, d, lo, hi),
        Hittable::Triangle(t) => planar_view(t.frame(), true, t.material, o, d, lo, hi),
        Hittable::Parallelogram(p) => planar_view(p.frame(), false, p.material, o, d, lo, hi),
        Hittable::Planar(Planar::Triangle(t)) => planar_view(t.frame(), true, t.material, o, d, lo, hi),
        Hittable::Planar(Planar::Parallelogram(p)) => planar_view(p.frame(), false, p.material, o, d, lo, hi),
        _ => None,
    }
}

/// The nearest hit over the first `n` nodes, each searched up to the nearest hit before it.
pub open spec fn scan(objs: Seq<Arc<Hittable>>, n: int, o: (int, int, int), d: (int, int, int), lo: int, hi: int) -> Option<HitView>
    decreases objs, n,
{
    if n <= 0 || n > objs.len() {
        None
    } else {
        let prev = scan(objs, n - 1, o, d, lo, hi);
        let top = match prev {
            Some(p) => p.t,
            None => hi,
        };
        match hit_spec(*objs[n - 1], o, d, lo, top) {
            Some(x) => Some(x),
            None => prev,
        }
    }
}

/// Whether a material gives off light.
pub open spec fn lit(m: Material) -> bool {
    m is DiffuseLight
}

/// The property of a material that gives off no light.
pub open spec fn no_light() -> spec_fn(Material) -> bool {
    |m: Material| !lit(m)
}

/// Whether a hit, if any, is on a material with the property `p`.
pub open spec fn mat_ok(r: Option<HitRecord>, p: spec_fn(Material) -> bool) -> bool {
    r matches Some(h) ==> p(*h.material)
}

/// Whether every surface and medium of a node has a material with the property `p`.
pub open spec fn all_mats(h: Hittable, p: spec_fn(Material) -> bool) -> bool
    decreases h, 0int,
{
    match h {
        Hittable::Sphere(s) => p(*s.material),
        Hittable::Triangle(t) => p(*t.material),
        Hittable::Parallelogram(q) => p(*q.material),
        Hittable::Planar(Planar::Triangle(t)) => p(*t.material),
        Hittable::Planar(Planar::Parallelogram(q)) => p(*q.material),
        Hittable::List(l) => all_mats_seq(l.objects@, l.objects@.len() as int, p),
        Hittable::Node(n) => all_mats(*n.left, p) && all_mats(*n.right, p),
        Hittable::Translation(t) => all_mats(*t.object, p),
        Hittable::RotateY(r) => all_mats(*r.object, p),
        Hittable::Medium(m) => p(*m.phase_function),
    }
}

/// Whether every material of the first `n` nodes has the property `p`.
pub open spec fn all_mats_seq(objs: Seq<Arc<Hittable>>, n: int, p: spec_fn(Material) -> bool) -> bool
    decreases objs, n,
{
    if n <= 0 || n > objs.len() {
        true
    } else {
        all_mats_seq(objs, n - 1, p) && all_mats(*objs[n - 1], p)
    }
}

/// Whether no surface or medium of a node gives off light.
pub open spec fn dark(h: Hittable) -> bool {
    all_mats(h, no_light())
}

/// Whether none of the first `n` nodes gives off light.
pub open spec fn dark_all(objs: Seq<Arc<Hittable>>, n: int) -> bool {
    all_mats_seq(objs, n, no_light())
}

/// Each of the first `n` nodes has the materials the list has.
pub proof fn lemma_all_mats(objs: Seq<Arc<Hittable>>, n: int, i: int, p: spec_fn(Material) -> bool)
    requires
        all_mats_seq(objs, n, p),
        0 <= i < n <= objs.len(),
    ensures
        all_mats(*objs[i], p),
    decreases n,
{
    if i < n - 1 {
        lemma_all_mats(objs, n - 1, i, p);
    }
}

/// Each of the first `n` nodes of a list without media holds none.
pub proof fn lemma_det_all(objs: Seq<Arc<Hittable>>, n: int, i: int)
    requires
        det_all(objs, n),
        0 <= i < n <= objs.len(),
    ensures
        det_all(objs, i + 1),
        det(*objs[i]),
    decreases n,
{
    if i < n - 1 {
        lemma_det_all(objs, n - 1, i);
    }
}

/// The parameter of a hit view; 0 for none.
pub open spec fn hit_t(r: Option<HitView>) -> int {
    match r {
        Some(x) => x.t,
        None => 0,
    }
}

/// Whether a node is a sphere or a flat shape.
pub open spec fn is_shape(h: Hittable) -> bool {
    h is Sphere || h is Triangle || h is Parallelogram || h is Planar
}

/// A shape's hit lies in the interval searched.
proof fn lemma_shape_in_range(h: Hittable, o: (int, int, int), d: (int, int, int), lo: int, hi: int)
    requires
        is_shape(h),
        hit_spec(h, o, d, lo, hi) is Some,
    ensures
        lo <= hit_t(hit_spec(h, o, d, lo, hi)) <= hi,
{
    reveal(shape_view);
}

/// Searching a shape over a shorter interval that still reaches past its hit finds a hit no
/// farther away.
proof fn lemma_shape_narrowed(h: Hittable, o: (int, int, int), d: (int, int, int), lo: int, hi: int, top: int)
    requires
        is_shape(h),
        hit_spec(h, o, d, lo, hi) is Some,
        hit_t(hit_spec(h, o, d, lo, hi)) < top <= hi,
    ensures
        hit_spec(h, o, d, lo, top) is Some,
        hit_t(hit_spec(h, o, d, lo, top)) <= hit_t(hit_spec(h, o, d, lo, hi)),
{
    reveal(shape_view);
}

/// A scan over shapes reports a hit inside the interval searched.
proof fn lemma_scan_in_range(objs: Seq<Arc<Hittable>>, n: int, o: (int, int, int), d: (int, int, int), lo: int, hi: int)
    requires
        0 <= n <= objs.len(),
        forall|i: int| 0 <= i < n ==> is_shape(*#[trigger] objs[i]),
        scan(objs, n, o, d, lo, hi) is Some,
    ensures
        lo <= hit_t(scan(objs, n, o, d, lo, hi)) <= hi,
    decreases n,
{
    let prev = scan(objs, n - 1, o, d, lo, hi);
    let top = match prev {
        Some(p) => p.t,
        None => hi,
    };
    let last = *objs[n - 1];
    assert(is_shape(last));
    if prev is Some {
        lemma_scan_in_range(objs, n - 1, o, d, lo, hi);
    }
    if hit_spec(last, o, d, lo, top) is Some {
        lemma_shape_in_range(last, o, d, lo, top);
    }
}

/// A linear scan finds the nearest hit: over a list of spheres and flat shapes, the list's hit
/// is no farther along the ray than the hit of any one of its shapes searched alone over the
/// same interval.
pub proof fn lemma_scan_is_nearest(
    objs: Seq<Arc<Hittable>>,
    n: int,
    o: (int, int, int),
    d: (int, int, int),
    lo: int,
    hi: int,
    k: int,
)
    requires
        0 <= k < n <= objs.len(),
        forall|i: int| 0 <= i < n ==> is_shape(*#[trigger] objs[i]),
        hit_spec(*objs[k], o, d, lo, hi) is Some,
    ensures
        scan(objs, n, o, d, lo, hi) is Some,
        hit_t(scan(objs, n, o, d, lo, hi)) <= hit_t(hit_spec(*objs[k], o, d, lo, hi)),
    decreases n,
{
    let prev = scan(objs, n - 1, o, d, lo, hi);
    let top = match prev {
        Some(p) => p.t,
        None => hi,
    };
    let last = *objs[n - 1];
    let cur = hit_spec(last, o, d, lo, top);
    assert(is_shape(last));
    assert(scan(objs, n, o, d, lo, hi) == if cur is Some {
        cur
    } else {
        prev
    });
    if cur is Some {
        lemma_shape_in_range(last, o, d, lo, top);
    }
    if k < n - 1 {
        lemma_scan_is_nearest(objs, n - 1, o, d, lo, hi, k);
        assert(prev is Some);
    } else if prev is Some {
        lemma_scan_in_range(objs, n - 1, o, d, lo, hi);
        if hit_t(hit_spec(last, o, d, lo, hi)) < top {
            lemma_shape_narrowed(last, o, d, lo, hi, top);
        }
    } else {
        assert(top == hi);
    }
}

/// A node of the scene: a shape, a group of nodes, a transformed node or a medium.
pub enum Hittable {
    Sphere(Sphere),
    Triangle(Triangle),
    Parallelogram(Parallelogram),
    Planar(Planar),
    List(HittableList),
    Node(BoundNode),
    Translation(Translation),
    RotateY(RotateY),
    Medium(ConstantMedium),
}

impl Hittable {
    /// The box that the node's bounds report.
    pub closed spec fn bound_spec(self) -> BoundingBox {
        match self {
            Hittable::Sphere(s) => s.bounds,
            Hittable::Triangle(t) => t.bounds,
            Hittable::Parallelogram(p) => p.bounds,
            Hittable::Planar(Planar::Triangle(t)) => t.bounds,
            Hittable::Planar(Planar::Parallelogram(p)) => p.bounds,
            Hittable::List(l) => l.bounds,
            Hittable::Node(n) => n.bounds,
            Hittable::Translation(t) => t.bounds,
            Hittable::RotateY(r) => r.bounds,
            Hittable::Medium(m) => m.bounds,
        }
    }

    /// The nearest hit along `ray` with its parameter in `t`; a medium draws from `rng`.
    #[verifier::rlimit(80)]
    pub fn hit(&self, ray: &Ray, t: Interval, rng: &mut Rng) -> (r: Option<HitRecord>)
        ensures
            hit_ok(*ray, t, r),
            det(*self) ==> view_of(r) == hit_spec(*self, ray.origin@, ray.direction@, t.start@, t.end@),
            forall|p: spec_fn(Material) -> bool| #[trigger] all_mats(*self, p) ==> mat_ok(r, p),
        decreases self,
    {
        match self {
            Hittable::Sphere(s) => {
                let r = s.hit(ray, t);
                proof {
                    reveal(shape_view);
                    assert forall|p: spec_fn(Material) -> bool| #[trigger] all_mats(*self, p) implies mat_ok(r, p) by {
                        if r is Some {
                            assert(view_of(r)->Some_0.material == r->Some_0.material);
                        }
                    }
                }
                r
            },
            Hittable::Triangle(tri) => {
                let r = tri.hit(ray, t);
                proof {
                    reveal(shape_view);
                    assert forall|p: spec_fn(Material) -> bool| #[trigger] all_mats(*self, p) implies mat_ok(r, p) by {
                        if r is Some {
                            assert(view_of(r)->Some_0.material == r->Some_0.material);
                        }
                    }
                }
                r
            },
            Hittable::Parallelogram(q) => {
                let r = q.hit(ray, t);
                proof {
                    reveal(shape_view);
                    assert forall|p: spec_fn(Material) -> bool| #[trigger] all_mats(*self, p) implies mat_ok(r, p) by {
                        if r is Some {
                            assert(view_of(r)->Some_0.material == r->Some_0.material);
                        }
                    }
                }
                r
            },
            Hittable::Planar(q) => {
                let r = q.hit(ray, t);
                proof {
                    reveal(shape_view);
                    assert forall|p: spec_fn(Material) -> bool| #[trigger] all_mats(*self, p) implies mat_ok(r, p) by {
                        if r is Some {
                            assert(view_of(r)->Some_0.material == r->Some_0.material);
                        }
                    }
                }
                r
            },
            Hittable::List(l) => {
                let r = l.hit(ray, t, rng);
                assert forall|p: spec_fn(Material) -> bool| #[trigger] all_mats(*self, p) implies mat_ok(r, p) by {
                    assert(all_mats_seq(l.objects@, l.objects@.len() as int, p));
                }
                r
            },
            Hittable::Node(n) => {
                let r = n.hit(ray, t, rng);
                assert forall|p: spec_fn(Material) -> bool| #[trigger] all_mats(*self, p) implies mat_ok(r, p) by {
                    assert(all_mats(*n.left, p) && all_mats(*n.right, p));
                }
                r
            },
            Hittable::Translation(tr) => {
                let r = tr.hit(ray, t, rng);
                assert forall|p: spec_fn(Material) -> bool| #[trigger] all_mats(*self, p) implies mat_ok(r, p) by {
                    assert(all_mats(*tr.object, p));
                }
                r
            },
            Hittable::RotateY(rot) => {
                let r = rot.hit(ray, t, rng);
                assert forall|p: spec_fn(Material) -> bool| #[trigger] all_mats(*self, p) implies mat_ok(r, p) by {
                    assert(all_mats(*rot.object, p));
                }
                r
            },
            Hittable::Medium(m) => {
                let r = m.hit(ray, t, rng);
                assert forall|p: spec_fn(Material) -> bool| #[trigger] all_mats(*self, p) implies mat_ok(r, p) by {}
                r
            },
        }
    }

    pub fn bound(&self) -> (r: BoundingBox)
        ensures
            r == self.bound_spec(),
    {
        match self {
            Hittable::Sphere(s) => s.bounds,
            Hittable::Triangle(t) => t.bounds,
            Hittable::Parallelogram(p) => p.bounds,
            Hittable::Planar(Planar::Triangle(t)) => t.bounds,
            Hittable::Planar(Planar::Parallelogram(p)) => p.bounds,
            Hittable::List(l) => l.bounds,
            Hittable::Node(n) => n.bounds,
            Hittable::Translation(t) => t.bounds,
            Hittable::RotateY(r) => r.bounds,
            Hittable::Medium(m) => m.bounds,
        }
    }
}

/// Nodes searched one after the other, keeping the nearest hit.
pub struct HittableList {
    pub objects: Vec<Arc<Hittable>>,
    pub bounds: BoundingBox,
}

impl HittableList {
    /// Whether the list's box covers the box of every node in it.
    pub closed spec fn covers_all(self) -> bool {
        forall|i: int| 0 <= i < self.objects@.len() ==> self.bounds.covers(#[trigger] self.objects@[i].bound_spec())
    }

    pub fn new() -> (r: HittableList)
        ensures
            r.objects@.len() == 0,
            r.covers_all(),
    {
        HittableList { objects: Vec::new(), bounds: BoundingBox::empty() }
    }

    /// The list of one node.
    pub fn from(object: Arc<Hittable>) -> (r: HittableList)
        ensures
            r.objects@ == seq![object],
            r.covers_all(),
    {
        let mut list = HittableList::new();
        list.add_arc(object);
        list
    }

    pub fn add_arc(&mut self, object: Arc<Hittable>)
        requires
            old(self).covers_all(),
        ensures
            final(self).objects@ == old(self).objects@.push(object),
            final(self).covers_all(),
    {
        let b = object.bound();
        let old_bounds = self.bounds;
        self.bounds = BoundingBox::from_boxes(self.bounds, b);
        self.objects.push(object);
        assert forall|i: int| 0 <= i < self.objects@.len() implies self.bounds.covers(
            #[trigger] self.objects@[i].bound_spec(),
        ) by {
            if i < self.objects@.len() - 1 {
                assert(old_bounds.covers(self.objects@[i].bound_spec()));
                assert forall|k: int| 0 <= k < 3 implies #[trigger] self.bounds.intervals[k].covers(
                    self.objects@[i].bound_spec().intervals[k],
                ) by {
                    assert(self.bounds.intervals[k].covers(old_bounds.intervals[k]));
                    assert(old_bounds.intervals[k].covers(self.objects@[i].bound_spec().intervals[k]));
                }
            }
        }
    }

    pub fn add(&mut self, object: Hittable)
        requires
            old(self).covers_all(),
        ensures
            final(self).objects@ == old(self).objects@.push(Arc::new(object)),
            final(self).covers_all(),
    {
        self.add_arc(Arc::new(object));
    }

    pub fn bound(&self) -> (r: BoundingBox)
        ensures
            r == self.bounds,
    {
        self.bounds
    }

    /// The nearest hit over all the nodes: each is searched only up to the nearest hit so far.
    pub fn hit(&self, ray: &Ray, t: Interval, rng: &mut Rng) -> (r: Option<HitRecord>)
        ensures
            hit_ok(*ray, t, r),
            forall|p: spec_fn(Material) -> bool|
                #[trigger] all_mats_seq(self.objects@, self.objects@.len() as int, p) ==> mat_ok(r, p),
            det_all(self.objects@, self.objects@.len() as int) ==> view_of(r) == scan(
                self.objects@,
                self.objects@.len() as int,
                ray.origin@,
                ray.direction@,
                t.start@,
                t.end@,
            ),
        decreases self,
    {
        let mut closest_so_far = t.end;
        let mut hit_record: Option<HitRecord> = None;
        let mut i: usize = 0;
        while i < self.objects.len()
            invariant
                i <= self.objects@.len(),
                hit_ok(*ray, t, hit_record),
                closest_so_far@ <= t.end@,
                hit_record is None ==> closest_so_far == t.end,
                hit_record matches Some(h) ==> closest_so_far@ == h.t@,
                forall|p: spec_fn(Material) -> bool|
                    #[trigger] all_mats_seq(self.objects@, self.objects@.len() as int, p) ==> mat_ok(hit_record, p),
                det_all(self.objects@, self.objects@.len() as int) ==> view_of(hit_record) == scan(
                    self.objects@,
                    i as int,
                    ray.origin@,
                    ray.direction@,
                    t.start@,
                    t.end@,
                ),
            decreases self.objects.len() - i,
        {
            let object = &self.objects[i];
            proof {
                assert(decreases_to!(self => self.objects));
                vstd::std_specs::vec::axiom_vec_index_decreases(self.objects, i as int);
                if det_all(self.objects@, self.objects@.len() as int) {
                    lemma_det_all(self.objects@, self.objects@.len() as int, i as int);
                }
                assert forall|p: spec_fn(Material) -> bool|
                    #[trigger] all_mats_seq(self.objects@, self.objects@.len() as int, p) implies all_mats(
                    *self.objects@[i as int],
                    p,
                ) by {
                    lemma_all_mats(self.objects@, self.objects@.len() as int, i as int, p);
                }
            }
            match object.hit(ray, Interval::new(t.start, closest_so_far), rng) {
                Some(record) => {
                    closest_so_far = record.t;
                    hit_record = Some(record);
                },
                None => {},
            }
            i = i + 1;
        }
        hit_record
    }
}

/// A node moved by `offset`.
pub struct Translation {
    pub object: Arc<Hittable>,
    pub offset: Vec3,
    pub bounds: BoundingBox,
}

impl Translation {
    pub fn new(object: Arc<Hittable>, offset: Vec3) -> (r: Translation)
        ensures
            r.object == object,
            r.offset == offset,
    {
        let bounds = object.bound().shift(&offset);
        Translation { object, offset, bounds }
    }

    /// The hit of the node against the ray moved back by the offset, moved forward again.
    pub fn hit(&self, ray: &Ray, t: Interval, rng: &mut Rng) -> (r: Option<HitRecord>)
        ensures
            hit_ok(*ray, t, r),
            forall|p: spec_fn(Material) -> bool| #[trigger] all_mats(*self.object, p) ==> mat_ok(r, p),
            det(*self.object) ==> view_of(r) == match hit_spec(
                *self.object,
                vsub(ray.origin@, self.offset@),
                ray.direction@,
                t.start@,
                t.end@,
            ) {
                Some(x) => Some(HitView { point: vadd(x.point, self.offset@), ..x }),
                None => None,
            },
        decreases self,
    {
        let moved_ray = Ray { origin: Vec3::sub(&ray.origin, &self.offset), direction: ray.direction };
        match self.object.hit(&moved_ray, t, rng) {
            Some(mut record) => {
                record.point = Vec3::add(&record.point, &self.offset);
                Some(record)
            },
            None => None,
        }
    }
}

/// Corner `k` of the box `b`, for `k` in `0..8`: bit 0 picks the end on `x`, bit 1 on `y`, bit 2
/// on `z`.
pub open spec fn corner(b: BoundingBox, k: int) -> (int, int, int) {
    (
        if k % 2 == 1 { b.intervals[0].end@ } else { b.intervals[0].start@ },
        if (k / 2) % 2 == 1 { b.intervals[1].end@ } else { b.intervals[1].start@ },
        if k / 4 == 1 { b.intervals[2].end@ } else { b.intervals[2].start@ },
    )
}

/// The point `p` turned about the `y` axis by the angle with sine `s` and cosine `c`.
pub open spec fn turned(s: int, c: int, p: (int, int, int)) -> (int, int, int) {
    (
        crate::scalar::clip(mul_spec(c, p.0) + mul_spec(s, p.2)),
        p.1,
        crate::scalar::clip(mul_spec(-s, p.0) + mul_spec(c, p.2)),
    )
}

/// Whether both bounds of `iv` are coordinate `a` of one of the first `n` corners of `b`, turned
/// by the angle with sine `s` and cosine `c`.
#[verifier::opaque]
pub open spec fn reached(iv: Interval, s: int, c: int, b: BoundingBox, n: int, a: int) -> bool {
    &&& exists|j: int| 0 <= j < n && iv.start@ == comp(#[trigger] turned(s, c, corner(b, j)), a)
    &&& exists|j: int| 0 <= j < n && iv.end@ == comp(#[trigger] turned(s, c, corner(b, j)), a)
}

/// Growing an interval by one more turned corner keeps both its bounds reached.
proof fn lemma_reached_grows(old: Interval, new: Interval, v: int, s: int, c: int, b: BoundingBox, k: int, a: int)
    requires
        k >= 0,
        v == comp(turned(s, c, corner(b, k)), a),
        -LIMIT <= v <= LIMIT,
        new.start@ == if old.start@ <= v { old.start@ } else { v },
        new.end@ == if old.end@ >= v { old.end@ } else { v },
        k == 0 ==> old.start@ == LIMIT && old.end@ == -LIMIT,
        k > 0 ==> reached(old, s, c, b, k, a),
    ensures
        reached(new, s, c, b, k + 1, a),
{
    reveal(reached);
    let pt = turned(s, c, corner(b, k));
    if k > 0 {
        let j1 = choose|j: int| 0 <= j < k && old.start@ == comp(#[trigger] turned(s, c, corner(b, j)), a);
        let j2 = choose|j: int| 0 <= j < k && old.end@ == comp(#[trigger] turned(s, c, corner(b, j)), a);
        if new.start@ == v {
            assert(0 <= k < k + 1 && new.start@ == comp(pt, a));
        } else {
            assert(0 <= j1 < k + 1 && new.start@ == comp(turned(s, c, corner(b, j1)), a));
        }
        if new.end@ == v {
            assert(0 <= k < k + 1 && new.end@ == comp(pt, a));
        } else {
            assert(0 <= j2 < k + 1 && new.end@ == comp(turned(s, c, corner(b, j2)), a));
        }
    } else {
        assert(new.start@ == comp(pt, a));
        assert(new.end@ == comp(pt, a));
    }
}

/// A node turned about the `y` axis.
pub struct RotateY {
    pub object: Arc<Hittable>,
    pub sin_theta: Scalar,
    pub cos_theta: Scalar,
    pub bounds: BoundingBox,
}

impl RotateY {
    /// The node turned by `angle` degrees; its box is the padded box around the eight turned
    /// corners of the node's box.
    pub fn new(object: Arc<Hittable>, angle: Scalar) -> (r: RotateY)
        ensures
            r.object == object,
            forall|k: int|
                0 <= k < 8 ==> {
                    let p = #[trigger] turned(r.sin_theta@, r.cos_theta@, corner(object.bound_spec(), k));
                    r.bounds.intervals[0].has(p.0) && r.bounds.intervals[1].has(p.1)
                        && r.bounds.intervals[2].has(p.2)
                },
            (r.sin_theta@, r.cos_theta@) == sin_cos_spec(to_radians_spec(angle@)),
            exists|x: Interval, y: Interval, z: Interval|
                {
                    &&& reached(x, r.sin_theta@, r.cos_theta@, object.bound_spec(), 8, 0)
                    &&& reached(y, r.sin_theta@, r.cos_theta@, object.bound_spec(), 8, 1)
                    &&& reached(z, r.sin_theta@, r.cos_theta@, object.bound_spec(), 8, 2)
                    &&& (r.bounds.intervals[0].start@, r.bounds.intervals[0].end@) == #[trigger] pad_spec(x)
                    &&& (r.bounds.intervals[1].start@, r.bounds.intervals[1].end@) == #[trigger] pad_spec(y)
                    &&& (r.bounds.intervals[2].start@, r.bounds.intervals[2].end@) == #[trigger] pad_spec(z)
                },
    {
        let (sin_theta, cos_theta) = trig::sin_cos(trig::to_radians(angle));
        let inner = object.bound();
        let mut x = Interval::empty();
        let mut y = Interval::empty();
        let mut z = Interval::empty();
        let mut k: usize = 0;
        while k < 8
            invariant
                k <= 8,
                inner == object.bound_spec(),
                forall|j: int|
                    0 <= j < k ==> {
                        let p = #[trigger] turned(sin_theta@, cos_theta@, corner(inner, j));
                        x.has(p.0) && y.has(p.1) && z.has(p.2)
                    },
                k == 0 ==> x.start@ == LIMIT && x.end@ == -LIMIT && y.start@ == LIMIT && y.end@ == -LIMIT
                    && z.start@ == LIMIT && z.end@ == -LIMIT,
                k > 0 ==> reached(x, sin_theta@, cos_theta@, inner, k as int, 0),
                k > 0 ==> reached(y, sin_theta@, cos_theta@, inner, k as int, 1),
                k > 0 ==> reached(z, sin_theta@, cos_theta@, inner, k as int, 2),
            decreases 8 - k,
        {
            let cx = if k % 2 == 1 { inner.intervals[0].end } else { inner.intervals[0].start };
            let cy = if (k / 2) % 2 == 1 { inner.intervals[1].end } else { inner.intervals[1].start };
            let cz = if k / 4 == 1 { inner.intervals[2].end } else { inner.intervals[2].start };
            let new_x = cos_theta.mul(cx).add(sin_theta.mul(cz));
            let new_z = sin_theta.neg().mul(cx).add(cos_theta.mul(cz));
            let ghost p = turned(sin_theta@, cos_theta@, corner(inner, k as int));
            assert(new_x@ == p.0 && cy@ == p.1 && new_z@ == p.2);
            let ghost (x0, y0, z0) = (x, y, z);
            x = Interval::from_pair(x, Interval::new(new_x, new_x));
            y = Interval::from_pair(y, Interval::new(cy, cy));
            z = Interval::from_pair(z, Interval::new(new_z, new_z));
            proof {
                lemma_reached_grows(x0, x, new_x@, sin_theta@, cos_theta@, inner, k as int, 0);
                lemma_reached_grows(y0, y, cy@, sin_theta@, cos_theta@, inner, k as int, 1);
                lemma_reached_grows(z0, z, new_z@, sin_theta@, cos_theta@, inner, k as int, 2);
            }
            k = k + 1;
        }
        let bounds = BoundingBox::new(x, y, z);
        assert(bounds.intervals[0].covers(x) && bounds.intervals[1].covers(y) && bounds.intervals[2].covers(z));
        assert((bounds.intervals[0].start@, bounds.intervals[0].end@) == pad_spec(x));
        RotateY { object, sin_theta, cos_theta, bounds }
    }

    /// `v` turned by minus the angle.
    fn to_object(&self, v: &Vec3) -> (r: Vec3)
        ensures
            r@ == unturned(self.sin_theta@, self.cos_theta@, v@),
    {
        Vec3(
            self.cos_theta.mul(v.0).sub(self.sin_theta.mul(v.2)),
            v.1,
            self.sin_theta.mul(v.0).add(self.cos_theta.mul(v.2)),
        )
    }

    /// `v` turned by the angle.
    fn to_world(&self, v: &Vec3) -> (r: Vec3)
        ensures
            r@ == turned(self.sin_theta@, self.cos_theta@, v@),
    {
        Vec3(
            self.cos_theta.mul(v.0).add(self.sin_theta.mul(v.2)),
            v.1,
            self.sin_theta.neg().mul(v.0).add(self.cos_theta.mul(v.2)),
        )
    }

    /// The hit of the node against the ray turned into the node's frame, turned back; the
    /// normal is turned against the ray again should rounding have tipped it.
    pub fn hit(&self, ray: &Ray, t: Interval, rng: &mut Rng) -> (r: Option<HitRecord>)
        ensures
            hit_ok(*ray, t, r),
            forall|p: spec_fn(Material) -> bool| #[trigger] all_mats(*self.object, p) ==> mat_ok(r, p),
            det(*self.object) ==> view_of(r) == ({
                let s = self.sin_theta@;
                let c = self.cos_theta@;
                match hit_spec(
                    *self.object,
                    unturned(s, c, ray.origin@),
                    unturned(s, c, ray.direction@),
                    t.start@,
                    t.end@,
                ) {
                    Some(x) => Some(turned_view(x, s, c, ray.direction@)),
                    None => None,
                }
            }),
        decreases self,
    {
        let rotated = Ray { origin: self.to_object(&ray.origin), direction: self.to_object(&ray.direction) };
        match self.object.hit(&rotated, t, rng) {
            Some(mut record) => {
                record.point = self.to_world(&record.point);
                let normal = self.to_world(&record.normal);
                proof {
                    lemma_facing(ray.direction@, normal@);
                }
                let d = Vec3::dot(&ray.direction, &normal);
                if d.lt(Scalar::zero()) {
                    record.normal = normal;
                } else {
                    record.normal = normal.neg();
                    if Scalar::zero().lt(d) {
                        record.front_face = !record.front_face;
                    }
                }
                Some(record)
            },
            None => None,
        }
    }
}

} // verus!
