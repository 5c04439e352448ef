//! How surfaces scatter and emit light.
use vstd::prelude::*;
use std::sync::Arc;
use crate::hittable::{HitRecord, HitView};
use crate::ray::Ray;
use crate::rng::{is_unit_draw, Rng};
use crate::scalar::{clip, div_spec, is_root, lemma_mul_unit, lemma_root_unique, mul_spec, sqrt_spec, Scalar, LIMIT, SCALE};
use crate::textures::{texture_value, SolidColor, Texture};
use crate::vec3::{vmul, vadd, vdiv, vdot, vlength, vneg, vrefract, vreflect, vscale, Color, Vec3};

verus! {

/// The random values one scattering event uses: a unit direction and a draw from `[0, 1)`.
#[derive(Clone, Copy, Debug, PartialEq, Eq)]
pub struct ScatterDraw {
    pub direction: Vec3,
    pub chance: Scalar,
}

/// Diffuse reflection.
pub struct Lambertian {
    pub texture: Arc<Texture>,
}

/// Mirror reflection blurred by `fuzz`.
pub struct Metal {
    pub albedo: Color,
    pub fuzz: Scalar,
}

/// A clear material that refracts or reflects.
#[derive(Clone, Copy, Debug)]
pub struct Dielectric {
    /// Refraction index relative to the enclosing medium.
    pub refraction_index: Scalar,
}

/// Neither scatters nor emits.
#[derive(Clone, Copy, Debug)]
pub struct Invisible;

/// Emits its texture and never scatters.
pub struct DiffuseLight {
    pub texture: Arc<Texture>,
}

/// Scatters uniformly in every direction: the phase function of a medium.
pub struct Isotropic {
    pub texture: Arc<Texture>,
}

pub enum Material {
    Lambertian(Lambertian),
    Metal(Metal),
    Dielectric(Dielectric),
    DiffuseLight(DiffuseLight),
    Isotropic(Isotropic),
    Invisible(Invisible),
}

/// Schlick's approximation of reflectance at `cosine` for the index ratio `ratio`:
/// `r0 + (1 - r0) (1 - cosine)^5` with `r0 = ((1 - ratio) / (1 + ratio))^2`.
pub open spec fn schlick(cosine: int, ratio: int) -> int {
    let q = div_spec(clip(SCALE - ratio), clip(SCALE + ratio));
    let r0 = mul_spec(q, q);
    let c = clip(SCALE - cosine);
    let c2 = mul_spec(c, c);
    let c5 = mul_spec(mul_spec(c2, c2), c);
    clip(r0 + mul_spec(clip(SCALE - r0), c5))
}

/// The ratio of refraction indices for a ray entering (`front`) or leaving a dielectric.
pub open spec fn index_ratio(index: int, front: bool) -> int {
    if front {
        div_spec(SCALE as int, index)
    } else {
        index
    }
}

/// Cosine of the angle between the reversed unit direction `unit_dir` and the normal, at most 1.
pub open spec fn incidence_cos(unit_dir: (int, int, int), n: (int, int, int)) -> int {
    let d = vdot(vneg(unit_dir), n);
    if d <= SCALE {
        d
    } else {
        SCALE as int
    }
}

/// Whether a dielectric reflects: total internal reflection, or a draw below the reflectance.
pub open spec fn dielectric_reflects(unit_dir: (int, int, int), n: (int, int, int), ratio: int, chance: int) -> bool {
    let cos_theta = incidence_cos(unit_dir, n);
    let sin_theta = sqrt_spec(clip(SCALE - mul_spec(cos_theta, cos_theta)));
    mul_spec(ratio, sin_theta) > SCALE || schlick(cos_theta, ratio) > chance
}

/// Outcome of scattering at `hit`: the new ray's origin and direction and the attenuation.
pub open spec fn scatter_spec(m: Material, ray: Ray, hit: HitView, draw: ScatterDraw) -> Option<
    ((int, int, int), (int, int, int), (int, int, int)),
> {
    match m {
        Material::Lambertian(l) => {
            let d = vadd(hit.normal, draw.direction@);
            let near_zero = -10 < d.0 < 10 && -10 < d.1 < 10 && -10 < d.2 < 10;
            Some(
                (
                    hit.point,
                    if near_zero {
                        hit.normal
                    } else {
                        d
                    },
                    texture_value(*l.texture, hit.u, hit.v, hit.point),
                ),
            )
        },
        Material::Metal(m) => {
            let r = vreflect(ray.direction@, hit.normal);
            Some(
                (
                    hit.point,
                    vadd(vdiv(r, vlength(r)), vscale(draw.direction@, m.fuzz@)),
                    m.albedo@,
                ),
            )
        },
        Material::Dielectric(g) => {
            let unit_dir = vdiv(ray.direction@, vlength(ray.direction@));
            let ratio = index_ratio(g.refraction_index@, hit.front_face);
            Some(
                (
                    hit.point,
                    if dielectric_reflects(unit_dir, hit.normal, ratio, draw.chance@) {
                        vreflect(unit_dir, hit.normal)
                    } else {
                        vrefract(unit_dir, hit.normal, ratio)
                    },
                    (SCALE as int, SCALE as int, SCALE as int),
                ),
            )
        },
        Material::Isotropic(i) => Some(
            (hit.point, draw.direction@, texture_value(*i.texture, hit.u, hit.v, hit.point)),
        ),
        Material::DiffuseLight(_) => None,
        Material::Invisible(_) => None,
    }
}

/// Light given off at surface parameters `(u, v)` and point `p`.
pub open spec fn emitted_spec(m: Material, u: int, v: int, p: (int, int, int)) -> (int, int, int) {
    match m {
        Material::DiffuseLight(l) => texture_value(*l.texture, u, v, p),
        _ => (0int, 0int, 0int),
    }
}

/// Whether every channel of a color is at least 0.
pub open spec fn nonneg(c: (int, int, int)) -> bool {
    c.0 >= 0 && c.1 >= 0 && c.2 >= 0
}

/// Whether a texture gives only colors with no negative channel.
pub open spec fn nonneg_tex(t: Texture) -> bool
    decreases t,
{
    match t {
        Texture::Solid(s) => nonneg(s.color@),
        Texture::Checker(c) => nonneg_tex(*c.odd) && nonneg_tex(*c.even),
        Texture::Grid(g) => forall|i: int| 0 <= i < g.data@.len() ==> nonneg(#[trigger] g.data@[i]@),
    }
}

/// Whether a material attenuates and emits with no negative channel.
pub open spec fn nonneg_mat(m: Material) -> bool {
    match m {
        Material::Lambertian(l) => nonneg_tex(*l.texture),
        Material::Metal(x) => nonneg(x.albedo@),
        Material::DiffuseLight(l) => nonneg_tex(*l.texture),
        Material::Isotropic(i) => nonneg_tex(*i.texture),
        _ => true,
    }
}

/// The property of a material that attenuates and emits with no negative channel.
pub open spec fn no_negative() -> spec_fn(Material) -> bool {
    |m: Material| nonneg_mat(m)
}

/// The texture an `Arc` shares.
pub open spec fn texture_in(a: Arc<Texture>) -> Texture {
    *a
}

/// A texture with no negative channel gives none.
pub proof fn lemma_tex_nonneg(t: Texture, u: int, v: int, p: (int, int, int))
    requires
        nonneg_tex(t),
    ensures
        nonneg(texture_value(t, u, v, p)),
    decreases t,
{
    match t {
        Texture::Checker(c) => {
            lemma_tex_nonneg(texture_in(c.odd), u, v, p);
            lemma_tex_nonneg(texture_in(c.even), u, v, p);
        },
        _ => {},
    }
}

/// A material with no negative channel emits and attenuates with none.
pub proof fn lemma_mat_nonneg(m: Material, ray: Ray, hit: HitView, draw: ScatterDraw)
    requires
        nonneg_mat(m),
    ensures
        nonneg(emitted_spec(m, hit.u, hit.v, hit.point)),
        scatter_spec(m, ray, hit, draw) matches Some((_, _, a)) ==> nonneg(a),
{
    match m {
        Material::Lambertian(l) => lemma_tex_nonneg(texture_in(l.texture), hit.u, hit.v, hit.point),
        Material::DiffuseLight(l) => lemma_tex_nonneg(texture_in(l.texture), hit.u, hit.v, hit.point),
        Material::Isotropic(i) => lemma_tex_nonneg(texture_in(i.texture), hit.u, hit.v, hit.point),
        _ => {},
    }
}

/// Light with no negative channel, attenuated by such a color and added to such light, has none.
pub proof fn lemma_shade_nonneg(e: (int, int, int), a: (int, int, int), incoming: (int, int, int))
    requires
        nonneg(e),
        nonneg(a),
        nonneg(incoming),
    ensures
        nonneg(vadd(e, vmul(a, incoming))),
{
    assert(a.0 * incoming.0 >= 0 && a.1 * incoming.1 >= 0 && a.2 * incoming.2 >= 0) by (nonlinear_arith)
        requires
            nonneg(a),
            nonneg(incoming),
    ;
    vstd::arithmetic::div_mod::lemma_div_pos_is_pos(a.0 * incoming.0, SCALE as int);
    vstd::arithmetic::div_mod::lemma_div_pos_is_pos(a.1 * incoming.1, SCALE as int);
    vstd::arithmetic::div_mod::lemma_div_pos_is_pos(a.2 * incoming.2, SCALE as int);
}

/// Whether `draw` is one that `Material::scatter` can make: a unit direction drawn from the
/// ball (or the fallback along `x`) and a chance in `[0, 1)`.
pub open spec fn draw_ok(draw: ScatterDraw) -> bool {
    (is_unit_draw(draw.direction@) || draw.direction@ == (SCALE as int, 0int, 0int)) && 0
        <= draw.chance@ < SCALE
}

/// The light leaving a surface: its emission, plus the attenuated incoming light when it
/// scatters.
pub open spec fn shade_spec(
    emitted: (int, int, int),
    scattered: Option<((int, int, int), (int, int, int), (int, int, int))>,
    incoming: (int, int, int),
) -> (int, int, int) {
    match scattered {
        Some((_, _, a)) => vadd(emitted, vmul(a, incoming)),
        None => emitted,
    }
}

/// The light leaving a surface that emits `emitted`, scatters as `scattered` says, and receives
/// `incoming` along the scattered ray.
pub fn shade(emitted: &Color, scattered: &Option<(Ray, Color)>, incoming: &Color) -> (r: Color)
    ensures
        r@ == shade_spec(emitted@, scatter_view(*scattered), incoming@),
{
    match scattered {
        Some((_, attenuation)) => Vec3::add(emitted, &Vec3::mul(attenuation, incoming)),
        None => *emitted,
    }
}

/// The view of a scattering outcome.
pub open spec fn scatter_view(r: Option<(Ray, Color)>) -> Option<
    ((int, int, int), (int, int, int), (int, int, int)),
> {
    match r {
        Some((ray, c)) => Some((ray.origin@, ray.direction@, c@)),
        None => None,
    }
}

/// Whether `n` is a unit vector along one of the axes.
pub open spec fn axis_unit(n: (int, int, int)) -> bool {
    ||| n == (SCALE as int, 0int, 0int)
    ||| n == (-SCALE, 0int, 0int)
    ||| n == (0int, SCALE as int, 0int)
    ||| n == (0int, -SCALE, 0int)
    ||| n == (0int, 0int, SCALE as int)
    ||| n == (0int, 0int, -SCALE)
}

/// A dielectric of index 1 has Schlick's `r0` equal to 0 and an index ratio of 1 on either
/// face, so its reflectance at any incidence is `(1 - cos)^5` alone.
pub proof fn lemma_index_one_reflectance(cosine: Scalar, front: bool)
    ensures
        index_ratio(SCALE as int, front) == SCALE,
        ({
            let c = clip(SCALE - cosine@);
            let c2 = mul_spec(c, c);
            schlick(cosine@, SCALE as int) == clip(mul_spec(mul_spec(c2, c2), c))
        }),
{
    let s = SCALE as int;
    lemma_mul_unit(s);
    vstd::arithmetic::div_mod::lemma_div_by_multiple(s, s);
    assert(div_spec(s, s) == s);
    let c = clip(SCALE - cosine@);
    let c2 = mul_spec(c, c);
    let c5 = mul_spec(mul_spec(c2, c2), c);
    lemma_mul_unit(0);
    assert(div_spec(0, 2 * s) == 0);
    lemma_mul_unit(c5);
}

/// A dielectric of index 1 lets a ray through unbent: at normal incidence on an axis-aligned
/// surface, whatever the draw, it refracts rather than reflects, and the refracted direction is
/// the incident one.
pub proof fn lemma_index_one_passes_straight(n: Vec3, front: bool, chance: Scalar)
    requires
        axis_unit(n@),
        0 <= chance@,
    ensures
        !dielectric_reflects(vneg(n@), n@, index_ratio(SCALE as int, front), chance@),
        vrefract(vneg(n@), n@, index_ratio(SCALE as int, front)) == vneg(n@),
{
    let s = SCALE as int;
    lemma_mul_unit(s);
    lemma_mul_unit(0);
    lemma_mul_unit(-s);
    vstd::arithmetic::div_mod::lemma_div_by_multiple(s, s);
    assert(div_spec(s, s) == s);
    assert(is_root(s, s));
    let c = choose|r: int| is_root(r, s);
    lemma_root_unique(c, s, s);
    assert(sqrt_spec(s) == s);
    assert(sqrt_spec(0) == 0);
    assert(vdot(vneg(vneg(n@)), n@) == s);
    assert(schlick(s, s) == 0);
}

impl Lambertian {
    pub fn new(texture: Arc<Texture>) -> (r: Lambertian)
        ensures
            r.texture == texture,
    {
        Lambertian { texture }
    }

    pub fn from(albedo: Color) -> (r: Lambertian)
        ensures
            *r.texture == Texture::Solid(SolidColor { color: albedo }),
    {
        Lambertian { texture: Arc::new(Texture::Solid(SolidColor::new(albedo))) }
    }
}

impl Metal {
    /// A metal whose fuzz is moved into `[0, 1]`.
    pub fn new(albedo: Color, fuzz: Scalar) -> (r: Metal)
        ensures
            r.albedo == albedo,
            r.fuzz@ == if fuzz@ < 0 {
                0
            } else if fuzz@ > SCALE {
                SCALE as int
            } else {
                fuzz@
            },
    {
        let fuzz = if fuzz.lt(Scalar::zero()) {
            Scalar::zero()
        } else if Scalar::one().lt(fuzz) {
            Scalar::one()
        } else {
            fuzz
        };
        Metal { albedo, fuzz }
    }
}

impl Dielectric {
    pub fn new(refraction_index: Scalar) -> (r: Dielectric)
        ensures
            r.refraction_index == refraction_index,
    {
        Dielectric { refraction_index }
    }

    /// Schlick's approximation of the reflectance.
    pub fn reflectance(cosine: Scalar, refraction_index: Scalar) -> (r: Scalar)
        ensures
            r@ == schlick(cosine@, refraction_index@),
    {
        let one = Scalar::one();
        let q = one.sub(refraction_index).div(one.add(refraction_index));
        let r0 = q.mul(q);
        let c = one.sub(cosine);
        let c2 = c.mul(c);
        let c5 = c2.mul(c2).mul(c);
        r0.add(one.sub(r0).mul(c5))
    }
}

impl DiffuseLight {
    pub fn new(texture: Arc<Texture>) -> (r: DiffuseLight)
        ensures
            r.texture == texture,
    {
        DiffuseLight { texture }
    }

    pub fn from(color: Color) -> (r: DiffuseLight)
        ensures
            *r.texture == Texture::Solid(SolidColor { color }),
    {
        DiffuseLight { texture: Arc::new(Texture::Solid(SolidColor::new(color))) }
    }
}

impl Isotropic {
    pub fn new(texture: Arc<Texture>) -> (r: Isotropic)
        ensures
            r.texture == texture,
    {
        Isotropic { texture }
    }

    pub fn from(color: Color) -> (r: Isotropic)
        ensures
            *r.texture == Texture::Solid(SolidColor { color }),
    {
        Isotropic { texture: Arc::new(Texture::Solid(SolidColor::new(color))) }
    }
}

impl Material {
    /// Scattering at `hit` with the random values `draw` given.
    pub fn scatter_with(&self, ray: &Ray, hit: &HitRecord, draw: &ScatterDraw) -> (r: Option<
        (Ray, Color),
    >)
        ensures
            scatter_view(r) == scatter_spec(*self, *ray, hit.view(), *draw),
    {
        match self {
            Material::Lambertian(l) => {
                let mut direction = Vec3::add(&hit.normal, &draw.direction);
                if direction.near_zero() {
                    direction = hit.normal;
                }
                let scattered = Ray { origin: hit.point, direction };
                Some((scattered, l.texture.value(hit.u, hit.v, &hit.point)))
            },
            Material::Metal(m) => {
                let reflected = Vec3::add(
                    &ray.direction.reflect(&hit.normal).unit(),
                    &Vec3::scale(&draw.direction, m.fuzz),
                );
                Some((Ray { origin: hit.point, direction: reflected }, m.albedo))
            },
            Material::Dielectric(g) => {
                let one = Scalar::one();
                let ratio = if hit.front_face {
                    one.div(g.refraction_index)
                } else {
                    g.refraction_index
                };
                let unit_dir = ray.direction.unit();
                let cos_theta = Vec3::dot(&unit_dir.neg(), &hit.normal).min(one);
                let sin_theta = one.sub(cos_theta.mul(cos_theta)).sqrt();
                let cannot_refract = one.lt(ratio.mul(sin_theta));
                let direction = if cannot_refract || draw.chance.lt(
                    Dielectric::reflectance(cos_theta, ratio),
                ) {
                    unit_dir.reflect(&hit.normal)
                } else {
                    unit_dir.refract(&hit.normal, ratio)
                };
                Some((Ray { origin: hit.point, direction }, Vec3(one, one, one)))
            },
            Material::Isotropic(i) => {
                let scattered = Ray { origin: hit.point, direction: draw.direction };
                Some((scattered, i.texture.value(hit.u, hit.v, &hit.point)))
            },
            Material::DiffuseLight(_) => None,
            Material::Invisible(_) => None,
        }
    }

    /// Scattering at `hit`, drawing a unit direction and a chance from `rng`.
    pub fn scatter(&self, ray: &Ray, hit: &HitRecord, rng: &mut Rng) -> (r: Option<(Ray, Color)>)
        ensures
            exists|draw: ScatterDraw|
                (is_unit_draw(draw.direction@) || draw.direction@ == (SCALE as int, 0int, 0int))
                    && 0 <= draw.chance@ < SCALE && scatter_view(r) == #[trigger] scatter_spec(
                    *self,
                    *ray,
                    hit.view(),
                    draw,
                ),
    {
        let direction = Vec3::random_unit(rng);
        let chance = rng.uniform();
        let draw = ScatterDraw { direction, chance };
        self.scatter_with(ray, hit, &draw)
    }

    /// Light given off at surface parameters `(u, v)` and point `p`.
    pub fn emitted(&self, u: Scalar, v: Scalar, p: &Vec3) -> (r: Color)
        ensures
            r@ == emitted_spec(*self, u@, v@, p@),
    {
        match self {
            Material::DiffuseLight(l) => l.texture.value(u, v, p),
            _ => Vec3::zero(),
        }
    }
}

} // verus!
