//! The camera, the radiance estimate along a ray, and the per-pixel integrator.
use vstd::prelude::*;
use crate::hittable::{all_mats_seq, dark_all, det_all, hit_ok, scan, HitRecord, Hittable, HittableList};
use crate::materials::{lemma_mat_nonneg, lemma_shade_nonneg, no_negative, nonneg, nonneg_mat, draw_ok, emitted_spec, scatter_spec, scatter_view, shade, shade_spec, ScatterDraw};
use crate::interval::Interval;
use crate::ray::Ray;
use crate::rng::Rng;
use crate::scalar::{clip, div_spec, lemma_mul_unit, mul_spec, sqrt_spec, Scalar, LIMIT, SCALE};
use crate::trig::{self, tan_spec, to_radians_spec};
use crate::vec3::{vadd, vcross, vdiv, vlength, vneg, vscale, vsub, Color, Point, Vec3};

verus! {

/// Lower end of the parameter interval searched from a scattering point: `1e-4`.
pub const T_MIN: i64 = 100_000;

/// Largest channel value before quantization: `0.999`.
pub const CHANNEL_MAX: i64 = 999_000_000;

/// The byte for a gamma-encoded channel: the channel clamped to `[0, 0.999]`, times 256,
/// rounded down.
pub open spec fn channel_byte(c: int) -> int {
    let k = if c < 0 {
        0
    } else if c > CHANNEL_MAX {
        CHANNEL_MAX as int
    } else {
        c
    };
    k * 256 / (SCALE as int)
}

/// The image height for a width and an aspect ratio: the width over the ratio, rounded down,
/// and at least 1.
pub open spec fn height_for(width: int, aspect: int) -> int {
    let h = div_spec(clip(width * SCALE), aspect) / (SCALE as int);
    if h < 1 {
        1
    } else if h > 0x7fff_ffff {
        0x7fff_ffff
    } else {
        h
    }
}

/// Whether a camera at `look_from` facing `look_at` with vertical `up` has a basis: the view
/// direction is not zero and `up` is not parallel to it.
pub open spec fn basis_ok(look_from: (int, int, int), look_at: (int, int, int), up: (int, int, int)) -> bool {
    vcross(up, vsub(look_from, look_at)) != (0int, 0int, 0int)
}

/// The tangent of half the vertical field of view `vfov`, given in degrees.
pub open spec fn half_fov_tan(vfov: int) -> int {
    tan_spec(div_spec(to_radians_spec(vfov), 2 * SCALE))
}

/// The pixel grid of a camera at `from` facing `at` with vertical `up`, an image of `width` by
/// `height` pixels, and `tan_half` the tangent of half the vertical field of view: the centre of
/// pixel `(0, 0)` and the steps to the next pixel across and down.
pub open spec fn pixel_grid(
    from: (int, int, int),
    at: (int, int, int),
    up: (int, int, int),
    width: int,
    height: int,
    tan_half: int,
) -> ((int, int, int), (int, int, int), (int, int, int)) {
    let two = 2 * SCALE;
    let back = vsub(from, at);
    let focal = vlength(back);
    let viewport_height = mul_spec(mul_spec(two, tan_half), focal);
    let w_s = clip(width * SCALE);
    let h_s = clip(height * SCALE);
    let viewport_width = mul_spec(viewport_height, div_spec(w_s, h_s));
    let w = vdiv(back, vlength(back));
    let side = vcross(up, w);
    let u = vdiv(side, vlength(side));
    let v = vcross(w, u);
    let viewport_u = vscale(u, viewport_width);
    let viewport_v = vscale(vneg(v), viewport_height);
    let du = vdiv(viewport_u, w_s);
    let dv = vdiv(viewport_v, h_s);
    let upper_left = vsub(
        vsub(vsub(from, vscale(w, focal)), vdiv(viewport_u, two)),
        vdiv(viewport_v, two),
    );
    (vadd(upper_left, vdiv(vadd(du, dv), two)), du, dv)
}

impl Vec3 {
    /// The three bytes of a gamma-encoded color.
    pub fn to_bytes(&self) -> (r: (u8, u8, u8))
        ensures
            r.0 == channel_byte(self.0@),
            r.1 == channel_byte(self.1@),
            r.2 == channel_byte(self.2@),
    {
        (channel_to_byte(self.0), channel_to_byte(self.1), channel_to_byte(self.2))
    }
}

fn channel_to_byte(c: Scalar) -> (r: u8)
    ensures
        r == channel_byte(c@),
{
    let intensity = Interval::new(Scalar::zero(), Scalar::from_raw(CHANNEL_MAX));
    let k = intensity.clamp(c).value();
    proof {
        assert(0 <= k * 256 <= CHANNEL_MAX * 256) by (nonlinear_arith)
            requires
                0 <= k <= CHANNEL_MAX,
        ;
        assert(k * 256 / (SCALE as int) < 256) by (nonlinear_arith)
            requires
                0 <= k <= CHANNEL_MAX,
        ;
    }
    ((k * 256) / SCALE) as u8
}

impl Ray {
    pub fn hit(&self, object: &Hittable, t: Interval, rng: &mut Rng) -> (r: Option<HitRecord>)
        ensures
            hit_ok(*self, t, r),
    {
        object.hit(self, t, rng)
    }

    /// Radiance along the ray: black at depth 0 or below and for a ray that leaves the scene;
    /// else what the surface hit emits, plus, when it scatters, the attenuated radiance of the
    /// scattered ray one level deeper. A scene where nothing gives off light is black.
    #[verifier::rlimit(80)]
    pub fn send(&self, world: &HittableList, depth: i32, rng: &mut Rng) -> (r: Color)
        ensures
            radiance_ok(*world, *self, depth as int, r@),
        decreases depth,
    {
        if depth <= 0 {
            return Vec3::zero();
        }
        let range = Interval::new(Scalar::from_raw(T_MIN), Scalar::infinity());
        match world.hit(self, range, rng) {
            Some(record) => {
                let emitted = record.material.emitted(record.u, record.v, &record.point);
                let scattered = record.material.scatter(self, &record, rng);
                let incoming = match &scattered {
                    Some((next, _)) => next.send(world, depth - 1, rng),
                    None => Vec3::zero(),
                };
                let r = shade(&emitted, &scattered, &incoming);
                proof {
                    let h = record.view();
                    let draw = choose|draw: ScatterDraw|
                        draw_ok(draw) && scatter_view(scattered) == #[trigger] scatter_spec(
                            *record.material,
                            *self,
                            record.view(),
                            draw,
                        );
                    assert(r@ == shade_spec(
                        emitted_spec(*h.material, h.u, h.v, h.point),
                        scatter_spec(*h.material, *self, h, draw),
                        incoming@,
                    ));
                    if all_mats_seq(world.objects@, world.objects@.len() as int, no_negative()) {
                        assert(nonneg_mat(h.material_value()));
                        lemma_mat_nonneg(h.material_value(), *self, h, draw);
                        if let Some((_, a)) = scattered {
                            lemma_shade_nonneg(emitted@, a@, incoming@);
                        }
                    }
                    if dark_all(world.objects@, world.objects@.len() as int) {
                        assert(emitted@ == (0int, 0int, 0int));
                        assert(incoming@ == (0int, 0int, 0int));
                        if let Some((_, a)) = scattered {
                            lemma_mul_unit(a.0@);
                            lemma_mul_unit(a.1@);
                            lemma_mul_unit(a.2@);
                        }
                    }
                }
                r
            },
            None => self.background(),
        }
    }
}

/// The direction from the camera's centre through the point of pixel `(x, y)` moved by
/// `offset` pixel steps.
pub open spec fn through(cam: Camera, x: int, y: int, offset: (int, int, int)) -> (int, int, int) {
    let sx = clip(clip(x * SCALE) + offset.0);
    let sy = clip(clip(y * SCALE) + offset.1);
    let sample = vadd(vadd(cam.pixel_00@, vscale(cam.pixel_delta_u@, sx)), vscale(cam.pixel_delta_v@, sy));
    vsub(sample, cam.center@)
}

/// Whether `ray` leaves the camera's centre through a point of the square of pixel `(x, y)`,
/// `[-1/2, 1/2)` pixel steps around its centre on both axes.
pub open spec fn pixel_ray(cam: Camera, x: int, y: int, ray: Ray) -> bool {
    ray.origin == cam.center && exists|o: (int, int, int)|
        -SCALE / 2 <= o.0 < SCALE / 2 && -SCALE / 2 <= o.1 < SCALE / 2 && o.2 == 0
            && ray.direction@ == #[trigger] through(cam, x, y, o)
}

/// Whether `c` is the radiance of some ray through the square of pixel `(x, y)`.
pub open spec fn sample_ok(cam: Camera, world: HittableList, x: int, y: int, c: (int, int, int)) -> bool {
    exists|ray: Ray| pixel_ray(cam, x, y, ray) && #[trigger] radiance_ok(world, ray, cam.max_depth as int, c)
}

/// The sum of the colors, in order.
pub open spec fn sum_colors(s: Seq<Color>) -> (int, int, int)
    decreases s.len(),
{
    if s.len() == 0 {
        (0int, 0int, 0int)
    } else {
        vadd(sum_colors(s.drop_last()), s.last()@)
    }
}

/// The bytes of a mean color: gamma-encoded, then quantized.
pub open spec fn bytes_spec(mean: (int, int, int)) -> (u8, u8, u8) {
    (
        channel_byte(sqrt_spec(mean.0)) as u8,
        channel_byte(sqrt_spec(mean.1)) as u8,
        channel_byte(sqrt_spec(mean.2)) as u8,
    )
}

/// Whether `p` are the bytes of pixel `(x, y)`: the mean, by `aa_scale`, of `aa_samples` (or no)
/// samples, each the radiance of a ray through the pixel's square.
pub open spec fn pixel_ok(cam: Camera, world: HittableList, x: int, y: int, p: (u8, u8, u8)) -> bool {
    exists|samples: Seq<Color>|
        {
            &&& samples.len() == if cam.aa_samples > 0 {
                cam.aa_samples as int
            } else {
                0
            }
            &&& forall|i: int| 0 <= i < samples.len() ==> sample_ok(cam, world, x, y, #[trigger] samples[i]@)
            &&& p == #[trigger] bytes_spec(vscale(sum_colors(samples), cam.aa_scale@))
        }
}

/// Colors that are all black sum to black.
proof fn lemma_black_sum(s: Seq<Color>)
    requires
        forall|i: int| 0 <= i < s.len() ==> #[trigger] s[i]@ == (0int, 0int, 0int),
    ensures
        sum_colors(s) == (0int, 0int, 0int),
    decreases s.len(),
{
    if s.len() > 0 {
        assert forall|i: int| 0 <= i < s.drop_last().len() implies #[trigger] s.drop_last()[i]@ == (
            0int,
            0int,
            0int,
        ) by {
            assert(s.drop_last()[i] == s[i]);
        }
        lemma_black_sum(s.drop_last());
        assert(s.last() == s[s.len() - 1]);
    }
}

/// A scene in which nothing gives off light renders black: every pixel's bytes are zero,
/// whatever the depth, the samples and the random draws.
pub proof fn lemma_dark_scene_is_black(cam: Camera, world: HittableList, x: int, y: int, p: (u8, u8, u8))
    requires
        dark_all(world.objects@, world.objects@.len() as int),
        pixel_ok(cam, world, x, y, p),
    ensures
        p == (0u8, 0u8, 0u8),
{
    let samples = choose|samples: Seq<Color>|
        {
            &&& samples.len() == if cam.aa_samples > 0 {
                cam.aa_samples as int
            } else {
                0
            }
            &&& forall|i: int| 0 <= i < samples.len() ==> sample_ok(cam, world, x, y, #[trigger] samples[i]@)
            &&& p == #[trigger] bytes_spec(vscale(sum_colors(samples), cam.aa_scale@))
        };
    assert forall|i: int| 0 <= i < samples.len() implies #[trigger] samples[i]@ == (0int, 0int, 0int) by {
        assert(sample_ok(cam, world, x, y, samples[i]@));
    }
    lemma_black_sum(samples);
    lemma_mul_unit(cam.aa_scale@);
    assert(sqrt_spec(0) == 0);
}

/// The bytes of a pixel from its samples: their sum scaled by `aa_scale`, gamma-encoded and
/// quantized.
pub fn pixel_bytes(samples: &Vec<Color>, aa_scale: Scalar) -> (r: (u8, u8, u8))
    ensures
        r == bytes_spec(vscale(sum_colors(samples@), aa_scale@)),
{
    let mut sum = Vec3::zero();
    let mut i: usize = 0;
    while i < samples.len()
        invariant
            i <= samples@.len(),
            sum@ == sum_colors(samples@.subrange(0, i as int)),
        decreases samples@.len() - i,
    {
        proof {
            let s = samples@.subrange(0, i as int + 1);
            assert(s.drop_last() =~= samples@.subrange(0, i as int));
        }
        sum = Vec3::add(&sum, &samples[i]);
        i = i + 1;
    }
    proof {
        assert(samples@.subrange(0, i as int) =~= samples@);
    }
    Vec3::scale(&sum, aa_scale).to_gamma().to_bytes()
}

/// What the radiance `c` along `ray` at recursion depth `depth` satisfies. It is black at depth
/// 0 or below and in a scene where nothing gives off light. In a scene without media it is black
/// for a ray that leaves the scene; for a ray that meets a surface it is that surface's emission
/// plus, if it scatters (for some draw `Material::scatter` can make), the attenuated light coming
/// in along the scattered ray, which is black when no depth is left.
pub open spec fn radiance_ok(world: HittableList, ray: Ray, depth: int, c: (int, int, int)) -> bool {
    let n = world.objects@.len() as int;
    &&& depth <= 0 ==> c == (0int, 0int, 0int)
    &&& dark_all(world.objects@, n) ==> c == (0int, 0int, 0int)
    &&& all_mats_seq(world.objects@, n, no_negative()) ==> nonneg(c)
    &&& depth > 0 && det_all(world.objects@, n) ==> match scan(
        world.objects@,
        n,
        ray.origin@,
        ray.direction@,
        T_MIN as int,
        LIMIT as int,
    ) {
        None => c == (0int, 0int, 0int),
        Some(h) => exists|draw: ScatterDraw, incoming: (int, int, int)|
            {
                &&& draw_ok(draw)
                &&& (depth == 1 || scatter_spec(*h.material, ray, h, draw) is None) ==> incoming == (
                    0int,
                    0int,
                    0int,
                )
                &&& c == #[trigger] shade_spec(
                    emitted_spec(*h.material, h.u, h.v, h.point),
                    scatter_spec(*h.material, ray, h, draw),
                    incoming,
                )
            },
    }
}

pub struct Camera {
    pub aspect_ratio: Scalar,
    pub image_width: i32,
    pub image_height: i32,
    pub center: Point,
    pub pixel_00: Point,
    pub pixel_delta_u: Vec3,
    pub pixel_delta_v: Vec3,
    pub vfov: Scalar,
    pub look_from: Point,
    pub look_at: Point,
    pub up: Vec3,
    pub aa_samples: i32,
    pub aa_scale: Scalar,
    pub max_depth: i32,
}

impl Camera {
    /// A camera at `look_from` facing `look_at`, with `up` giving the image's vertical, a
    /// vertical field of view of `vfov` degrees, `aa_samples` samples per pixel and rays
    /// followed through at most `max_depth` surfaces.
    pub fn new(
        aspect_ratio: Scalar,
        image_width: i32,
        vfov: Scalar,
        look_from: Point,
        look_at: Point,
        up: Vec3,
        aa_samples: i32,
        max_depth: i32,
    ) -> (r: Camera)
        requires
            basis_ok(look_from@, look_at@, up@),
        ensures
            r.image_height == height_for(image_width as int, aspect_ratio@),
            r.aspect_ratio == aspect_ratio,
            r.image_width == image_width,
            r.vfov == vfov,
            r.look_from == look_from,
            r.look_at == look_at,
            r.up == up,
            r.center == look_from,
            r.aa_samples == aa_samples,
            r.aa_scale@ == div_spec(SCALE as int, clip(aa_samples * SCALE)),
            r.max_depth == max_depth,
            (r.pixel_00@, r.pixel_delta_u@, r.pixel_delta_v@) == pixel_grid(
                look_from@,
                look_at@,
                up@,
                image_width as int,
                r.image_height as int,
                half_fov_tan(vfov@),
            ),
    {
        let h = Scalar::from_int(image_width as i64).div(aspect_ratio).floor();
        let image_height: i32 = if h < 1 {
            1
        } else if h > 0x7fff_ffff {
            0x7fff_ffff
        } else {
            h as i32
        };
        let zero = Vec3::zero();
        let mut camera = Camera {
            aspect_ratio,
            image_width,
            image_height,
            center: look_from,
            pixel_00: zero,
            pixel_delta_u: zero,
            pixel_delta_v: zero,
            vfov,
            look_from,
            look_at,
            up,
            aa_samples,
            aa_scale: Scalar::one().div(Scalar::from_int(aa_samples as i64)),
            max_depth,
        };
        camera.move_camera(look_from, look_at, up);
        camera
    }

    /// Whether a camera at `look_from` facing `look_at` with vertical `up` has a basis.
    pub fn has_basis(look_from: &Point, look_at: &Point, up: &Vec3) -> (r: bool)
        ensures
            r == basis_ok(look_from@, look_at@, up@),
    {
        let c = Vec3::cross(up, &Vec3::sub(look_from, look_at));
        !(c.0.value() == 0 && c.1.value() == 0 && c.2.value() == 0)
    }

    pub fn set_aa_samples(&mut self, aa_samples: i32)
        ensures
            *final(self) == (Camera {
                aa_samples,
                aa_scale: final(self).aa_scale,
                ..*old(self)
            }),
            final(self).aa_scale@ == div_spec(SCALE as int, clip(aa_samples * SCALE)),
    {
        self.aa_samples = aa_samples;
        self.aa_scale = Scalar::one().div(Scalar::from_int(aa_samples as i64));
    }

    pub fn set_max_depth(&mut self, max_depth: i32)
        ensures
            *final(self) == (Camera { max_depth, ..*old(self) }),
    {
        self.max_depth = max_depth;
    }

    /// Places the camera at `look_from` facing `look_at` and derives the pixel grid: the basis
    /// `w = unit(look_from - look_at)`, `u = unit(up x w)`, `v = w x u`, a viewport
    /// `2 tan(vfov / 2) |look_from - look_at|` high, and pixel steps across it, with row 0 at
    /// the top.
    pub fn move_camera(&mut self, look_from: Point, look_at: Point, up: Vec3)
        requires
            basis_ok(look_from@, look_at@, up@),
        ensures
            final(self).look_from == look_from,
            final(self).look_at == look_at,
            final(self).up == up,
            final(self).center == look_from,
            final(self).aspect_ratio == old(self).aspect_ratio,
            final(self).image_width == old(self).image_width,
            final(self).image_height == old(self).image_height,
            final(self).vfov == old(self).vfov,
            final(self).aa_samples == old(self).aa_samples,
            final(self).aa_scale == old(self).aa_scale,
            final(self).max_depth == old(self).max_depth,
            (final(self).pixel_00@, final(self).pixel_delta_u@, final(self).pixel_delta_v@)
                == pixel_grid(
                look_from@,
                look_at@,
                up@,
                old(self).image_width as int,
                old(self).image_height as int,
                half_fov_tan(old(self).vfov@),
            ),
    {
        self.look_from = look_from;
        self.look_at = look_at;
        self.up = up;
        self.center = look_from;
        let one = Scalar::one();
        let two = Scalar::from_int(2);
        let back = Vec3::sub(&look_from, &look_at);
        let focal_length = back.length();
        let theta = trig::to_radians(self.vfov);
        let h = trig::tan(theta.div(two));
        let viewport_height = two.mul(h).mul(focal_length);
        let width = Scalar::from_int(self.image_width as i64);
        let height = Scalar::from_int(self.image_height as i64);
        let viewport_width = viewport_height.mul(width.div(height));
        let w = back.unit();
        let u = Vec3::cross(&up, &w).unit();
        let v = Vec3::cross(&w, &u);
        let viewport_u = Vec3::scale(&u, viewport_width);
        let viewport_v = Vec3::scale(&v.neg(), viewport_height);
        self.pixel_delta_u = Vec3::div(&viewport_u, width);
        self.pixel_delta_v = Vec3::div(&viewport_v, height);
        let upper_left = Vec3::sub(
            &Vec3::sub(
                &Vec3::sub(&self.center, &Vec3::scale(&w, focal_length)),
                &Vec3::div(&viewport_u, two),
            ),
            &Vec3::div(&viewport_v, two),
        );
        self.pixel_00 = Vec3::add(
            &upper_left,
            &Vec3::div(&Vec3::add(&self.pixel_delta_u, &self.pixel_delta_v), two),
        );
        assert((self.pixel_00@, self.pixel_delta_u@, self.pixel_delta_v@) == pixel_grid(
            look_from@,
            look_at@,
            up@,
            self.image_width as int,
            self.image_height as int,
            h@,
        ));
    }

    /// The ray from the camera's centre through the point of pixel `(x, y)` moved by `offset`
    /// pixel steps.
    pub fn ray_through(&self, x: i32, y: i32, offset: &Vec3) -> (r: Ray)
        ensures
            r.origin == self.center,
            r.direction@ == through(*self, x as int, y as int, offset@),
    {
        let sx = Scalar::from_int(x as i64).add(offset.0);
        let sy = Scalar::from_int(y as i64).add(offset.1);
        let pixel_sample = Vec3::add(
            &Vec3::add(&self.pixel_00, &Vec3::scale(&self.pixel_delta_u, sx)),
            &Vec3::scale(&self.pixel_delta_v, sy),
        );
        Ray { origin: self.center, direction: Vec3::sub(&pixel_sample, &self.center) }
    }

    /// A ray through a point drawn uniformly from the square of pixel `(x, y)`.
    pub fn sample_ray(&self, x: i32, y: i32, rng: &mut Rng) -> (r: Ray)
        ensures
            pixel_ray(*self, x as int, y as int, r),
    {
        let offset = Vec3::sample_square(rng);
        self.ray_through(x, y, &offset)
    }

    /// The bytes of pixel `(x, y)`: the mean radiance over `aa_samples` sampled rays,
    /// gamma-encoded and quantized.
    pub fn pixel(&self, world: &HittableList, x: i32, y: i32, rng: &mut Rng) -> (r: (u8, u8, u8))
        ensures
            pixel_ok(*self, *world, x as int, y as int, r),
    {
        let mut samples: Vec<Color> = Vec::new();
        let mut k: i32 = 0;
        while k < self.aa_samples
            invariant
                0 <= k,
                k <= self.aa_samples || k == 0,
                samples@.len() == k,
                forall|i: int| 0 <= i < samples@.len() ==> sample_ok(*self, *world, x as int, y as int, #[trigger] samples@[i]@),
            decreases self.aa_samples - k,
        {
            let ray = self.sample_ray(x, y, rng);
            let c = ray.send(world, self.max_depth, rng);
            assert(sample_ok(*self, *world, x as int, y as int, c@));
            samples.push(c);
            k = k + 1;
        }
        pixel_bytes(&samples, self.aa_scale)
    }

    /// Every pixel of the image, row by row from the top, each row from left to right.
    pub fn render(&self, world: &HittableList, rng: &mut Rng) -> (r: Vec<(u8, u8, u8)>)
        requires
            self.image_width >= 0,
            self.image_height >= 0,
        ensures
            r@.len() == self.image_width * self.image_height,
            forall|i: int|
                0 <= i < r@.len() ==> pixel_ok(*self, *world, i % self.image_width as int, i / self.image_width as int, #[trigger] r@[i]),
    {
        let mut pixels: Vec<(u8, u8, u8)> = Vec::new();
        let mut y: i32 = 0;
        while y < self.image_height
            invariant
                0 <= y <= self.image_height,
                self.image_width >= 0,
                pixels@.len() == y * self.image_width,
                forall|i: int|
                    0 <= i < pixels@.len() ==> pixel_ok(*self, *world, i % self.image_width as int, i / self.image_width as int, #[trigger] pixels@[i]),
            decreases self.image_height - y,
        {
            let mut x: i32 = 0;
            while x < self.image_width
                invariant
                    0 <= x <= self.image_width,
                    0 <= y < self.image_height,
                    pixels@.len() == y * self.image_width + x,
                    forall|i: int|
                        0 <= i < pixels@.len() ==> pixel_ok(*self, *world, i % self.image_width as int, i / self.image_width as int, #[trigger] pixels@[i]),
                decreases self.image_width - x,
            {
                let p = self.pixel(world, x, y, rng);
                proof {
                    vstd::arithmetic::div_mod::lemma_fundamental_div_mod_converse(
                        y * self.image_width + x,
                        self.image_width as int,
                        y as int,
                        x as int,
                    );
                    assert((y * self.image_width + x) == y as int * self.image_width as int + x as int);
                }
                pixels.push(p);
                x = x + 1;
            }
            proof {
                assert((y + 1) * self.image_width == y * self.image_width + self.image_width) by (nonlinear_arith);
            }
            y = y + 1;
        }
        assert(y * self.image_width == self.image_width * self.image_height) by (nonlinear_arith)
            requires
                y == self.image_height,
        ;
        pixels
    }
}

} // verus!
