//! Participating media: volumes that scatter light at random depths.
use vstd::prelude::*;
use std::sync::Arc;
use crate::bounds::BoundingBox;
use crate::hittable::{det, facing, hit_ok, hit_spec, view_of, HitRecord, HitView, Hittable};
use crate::interval::Interval;
use crate::materials::{Isotropic, Material};
use crate::ray::{at_spec, Ray};
use crate::rng::Rng;
use crate::scalar::{clip, div_spec, mul_spec, Scalar, LIMIT, SCALE};
use crate::textures::{SolidColor, Texture};
use crate::trig;
use crate::vec3::{vdot, vlength, Color, Vec3};

verus! {

/// Gap past the entry point before the exit is searched: `1e-4`.
pub const EXIT_GAP: i64 = 100_000;

/// A volume of constant density inside `boundary`, which scatters with an isotropic phase.
pub struct ConstantMedium {
    pub boundary: Arc<Hittable>,
    pub neg_inv_density: Scalar,
    pub phase_function: Arc<Material>,
    pub bounds: BoundingBox,
}

/// The distance a ray travels into the medium before it scatters, for the draw `ln_u`, the
/// logarithm of a uniform draw from `(0, 1)`: `-ln_u / density`.
pub open spec fn free_flight(neg_inv_density: int, ln_u: int) -> int {
    mul_spec(neg_inv_density, ln_u)
}

/// A thinner medium lets a ray travel at least as far: for one draw `ln_u` (the logarithm of a
/// uniform draw from `(0, 1]`, so at most 0), the free flight through a medium of density `d1`
/// is no shorter than through a denser medium of density `d2`. So a ray that scatters inside
/// the thinner medium scatters inside the denser one as well, and the chance of scattering falls
/// as the density falls.
pub proof fn lemma_thinner_medium_flies_farther(d1: Scalar, d2: Scalar, ln_u: Scalar)
    requires
        0 < d1@ <= d2@,
        ln_u@ <= 0,
    ensures
        free_flight(div_spec(-SCALE, d1@), ln_u@) >= free_flight(div_spec(-SCALE, d2@), ln_u@),
{
    let s2: int = SCALE as int * SCALE as int;
    let q1 = s2 / d1@;
    let q2 = s2 / d2@;
    vstd::arithmetic::div_mod::lemma_div_is_ordered_by_denominator(s2, d1@, d2@);
    vstd::arithmetic::div_mod::lemma_div_pos_is_pos(s2, d2@);
    assert(-SCALE * SCALE == -s2);
    let n1 = div_spec(-SCALE, d1@);
    let n2 = div_spec(-SCALE, d2@);
    assert(n1 == crate::scalar::clip(-q1));
    assert(n2 == crate::scalar::clip(-q2));
    assert(n1 <= n2 <= 0);
    let l = ln_u@;
    assert(n1 * l >= n2 * l >= 0) by (nonlinear_arith)
        requires
            n1 <= n2 <= 0,
            l <= 0,
    ;
    vstd::arithmetic::div_mod::lemma_div_is_ordered(n2 * l, n1 * l, SCALE as int);
}

impl ConstantMedium {
    pub fn new(boundary: Arc<Hittable>, density: Scalar, texture: Arc<Texture>) -> (r: ConstantMedium)
        ensures
            r.boundary == boundary,
            r.neg_inv_density@ == div_spec(-SCALE, density@),
    {
        let bounds = boundary.bound();
        ConstantMedium {
            boundary,
            neg_inv_density: Scalar::one().neg().div(density),
            phase_function: Arc::new(Material::Isotropic(Isotropic::new(texture))),
            bounds,
        }
    }

    pub fn from_color(boundary: Arc<Hittable>, density: Scalar, color: Color) -> (r: ConstantMedium)
        ensures
            r.boundary == boundary,
            r.neg_inv_density@ == div_spec(-SCALE, density@),
    {
        ConstantMedium::new(boundary, density, Arc::new(Texture::Solid(SolidColor::new(color))))
    }

    pub fn bound(&self) -> (r: BoundingBox)
        ensures
            r == self.bounds,
    {
        self.bounds
    }

    /// Where a ray that is inside the medium over `[entry, exit]` scatters, given the logarithm
    /// `ln_u` of a uniform draw: nothing when the free flight outruns the distance inside.
    pub fn scatter_point(&self, ray: &Ray, entry: Scalar, exit: Scalar, ln_u: Scalar) -> (r: Option<Scalar>)
        ensures
            ({
                let len = crate::vec3::vlength(ray.direction@);
                let inside = mul_spec(crate::scalar::clip(exit@ - entry@), len);
                let flight = free_flight(self.neg_inv_density@, ln_u@);
                if flight > inside {
                    r is None
                } else {
                    r matches Some(t) && t@ == crate::scalar::clip(entry@ + div_spec(flight, len))
                }
            }),
    {
        let ray_length = ray.direction.length();
        let distance_inside = exit.sub(entry).mul(ray_length);
        let hit_distance = self.neg_inv_density.mul(ln_u);
        if distance_inside.lt(hit_distance) {
            return None;
        }
        Some(entry.add(hit_distance.div(ray_length)))
    }

    /// The hit of a ray that meets the boundary at `entry_t` and leaves it at `exit_t`, for the
    /// logarithm `ln_u` of a uniform draw: the span inside is clipped to `t` and to parameters
    /// not below 0, and the ray scatters where its free flight ends, if that is inside.
    pub fn hit_with_draw(&self, ray: &Ray, t: Interval, entry_t: Scalar, exit_t: Scalar, ln_u: Scalar) -> (r:
        Option<HitRecord>)
        ensures
            view_of(r) == medium_view(*self, ray.origin@, ray.direction@, t.start@, t.end@, entry_t@, exit_t@, ln_u@),
            hit_ok(*ray, t, r),
            r matches Some(h) ==> h.point@ == at_spec(ray.origin@, ray.direction@, h.t@) && h.t@ >= 0
                && h.material == self.phase_function,
    {
        reveal(medium_view);
        let entry = entry_t.max(t.start);
        let exit = exit_t.min(t.end);
        if exit.le(entry) {
            return None;
        }
        let entry = entry.max(Scalar::zero());
        match self.scatter_point(ray, entry, exit, ln_u) {
            None => None,
            Some(depth) => {
                if !t.contains(depth) || depth.lt(Scalar::zero()) {
                    return None;
                }
                let point = ray.at(depth);
                let normal = Vec3(Scalar::one(), Scalar::zero(), Scalar::zero());
                let material = self.phase_function.clone();
                assert(material == self.phase_function);
                Some(HitRecord::new(ray, depth, point, normal, material))
            },
        }
    }

    /// A hit at a random depth inside the boundary, or none when the ray passes through.
    pub fn hit(&self, ray: &Ray, t: Interval, rng: &mut Rng) -> (r: Option<HitRecord>)
        ensures
            hit_ok(*ray, t, r),
            r matches Some(h) ==> h.point@ == at_spec(ray.origin@, ray.direction@, h.t@) && h.t@ >= 0
                && h.material == self.phase_function,
            det(*self.boundary) ==> match hit_spec(*self.boundary, ray.origin@, ray.direction@, -LIMIT, LIMIT as int) {
                None => r is None,
                Some(x1) => match hit_spec(*self.boundary, ray.origin@, ray.direction@, clip(x1.t + EXIT_GAP), LIMIT as int) {
                    None => r is None,
                    Some(x2) => exists|ln_u: int|
                        ln_u <= 0 && view_of(r) == #[trigger] medium_view(
                            *self,
                            ray.origin@,
                            ray.direction@,
                            t.start@,
                            t.end@,
                            x1.t,
                            x2.t,
                            ln_u,
                        ),
                },
            },
        decreases self,
    {
        let whole = Interval::universe();
        let first = self.boundary.hit(ray, whole, rng);
        assert(det(*self.boundary) ==> view_of(first) == hit_spec(*self.boundary, ray.origin@, ray.direction@, -LIMIT, LIMIT as int));
        let rec1 = match first {
            Some(rec) => rec,
            None => return None,
        };
        let after = Interval::new(rec1.t.add(Scalar::from_raw(EXIT_GAP)), Scalar::infinity());
        assert(after.start@ == clip(rec1.t@ + EXIT_GAP) && after.end@ == LIMIT);
        let second = self.boundary.hit(ray, after, rng);
        assert(det(*self.boundary) ==> view_of(second) == hit_spec(*self.boundary, ray.origin@, ray.direction@, clip(rec1.t@ + EXIT_GAP), LIMIT as int));
        let rec2 = match second {
            Some(rec) => rec,
            None => return None,
        };
        let u = rng.uniform();
        let ln_u = trig::ln(u);
        let r = self.hit_with_draw(ray, t, rec1.t, rec2.t, ln_u);
        proof {
            assert(ln_u@ <= 0) by {
                if u@ <= 0 {
                    assert(ln_u@ == -LIMIT);
                }
            }
            assert(det(*self.boundary) ==> hit_spec(*self.boundary, ray.origin@, ray.direction@, -LIMIT, LIMIT as int) == Some(rec1.view()));
            assert(det(*self.boundary) ==> hit_spec(*self.boundary, ray.origin@, ray.direction@, clip(rec1.t@ + EXIT_GAP), LIMIT as int) == Some(rec2.view()));
            assert(view_of(r) == medium_view(
                *self,
                ray.origin@,
                ray.direction@,
                t.start@,
                t.end@,
                rec1.t@,
                rec2.t@,
                ln_u@,
            ));
            assert(det(*self.boundary) ==> {
                let x1 = hit_spec(*self.boundary, ray.origin@, ray.direction@, -LIMIT, LIMIT as int)->Some_0;
                let x2 = hit_spec(*self.boundary, ray.origin@, ray.direction@, clip(x1.t + EXIT_GAP), LIMIT as int)->Some_0;
                &&& x1 == rec1.view()
                &&& x2 == rec2.view()
                &&& view_of(r) == medium_view(*self, ray.origin@, ray.direction@, t.start@, t.end@, x1.t, x2.t, ln_u@)
            });
        }
        r
    }
}

/// Where a medium scatters the ray `o + t d`, `t` in `[lo, hi]`, that meets its boundary at
/// `e1` and leaves it at `e2`, for the draw `ln_u`.
#[verifier::opaque]
pub open spec fn medium_view(
    m: ConstantMedium,
    o: (int, int, int),
    d: (int, int, int),
    lo: int,
    hi: int,
    e1: int,
    e2: int,
    ln_u: int,
) -> Option<HitView> {
    let entry0 = if e1 >= lo { e1 } else { lo };
    let exit = if e2 <= hi { e2 } else { hi };
    if exit <= entry0 {
        None
    } else {
        let entry = if entry0 >= 0 { entry0 } else { 0 };
        let len = vlength(d);
        let inside = mul_spec(clip(exit - entry), len);
        let flight = free_flight(m.neg_inv_density@, ln_u);
        let depth = clip(entry + div_spec(flight, len));
        if flight > inside || !(lo <= depth <= hi) || depth < 0 {
            None
        } else {
            let n = (SCALE as int, 0int, 0int);
            Some(
                HitView {
                    t: depth,
                    point: at_spec(o, d, depth),
                    normal: facing(d, n),
                    front_face: vdot(d, n) < 0,
                    u: 0,
                    v: 0,
                    material: m.phase_function,
                },
            )
        }
    }
}

} // verus!
