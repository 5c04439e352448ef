//! The random stream that sampling draws from, and the random vectors built on it.
use vstd::prelude::*;
use rand::rngs::StdRng;
use crate::scalar::{Scalar, SCALE};
use crate::vec3::{vdiv, vdot, vlength, vneg, Vec3};

verus! {

#[verifier::external_type_specification]
#[verifier::external_body]
pub struct ExStdRng(StdRng);

/// Relies on rand's `SeedableRng::seed_from_u64`: a generator whose stream the seed fixes.
#[verifier::external_body]
fn seeded_generator(seed: u64) -> StdRng {
    <StdRng as rand::SeedableRng>::seed_from_u64(seed)
}

/// Relies on rand's `Rng::gen_range`: a value drawn uniformly from `[0, n)`.
#[verifier::external_body]
fn draw_below(g: &mut StdRng, n: u64) -> (r: u64)
    requires
        n > 0,
    ensures
        r < n,
{
    rand::Rng::gen_range(g, 0..n)
}

/// How many candidates `Vec3::random_unit` draws before it settles for a fixed direction.
pub const UNIT_TRIES: u32 = 64;

/// An owned, seedable source of random numbers.
pub struct Rng {
    generator: StdRng,
}

impl Rng {
    /// A stream determined by `seed`: two streams with one seed give the same draws.
    pub fn seeded(seed: u64) -> (r: Rng) {
        Rng { generator: seeded_generator(seed) }
    }

    /// A whole number drawn from `[0, n)`.
    pub fn below(&mut self, n: u64) -> (r: u64)
        requires
            n > 0,
        ensures
            r < n,
    {
        draw_below(&mut self.generator, n)
    }

    /// A scalar drawn from `[lo, hi)`.
    pub fn range(&mut self, lo: Scalar, hi: Scalar) -> (r: Scalar)
        requires
            lo@ < hi@,
        ensures
            lo@ <= r@ < hi@,
    {
        let a = lo.value();
        let b = hi.value();
        let width = (b - a) as u64;
        let k = self.below(width);
        Scalar::from_raw(a + k as i64)
    }

    /// A scalar drawn from `[0, 1)`.
    pub fn uniform(&mut self) -> (r: Scalar)
        ensures
            0 <= r@ < SCALE,
    {
        self.range(Scalar::zero(), Scalar::one())
    }
}

/// Whether `r` is the unit vector along some nonzero vector inside the unit ball.
pub open spec fn is_unit_draw(r: (int, int, int)) -> bool {
    exists|v: (int, int, int)| 0 < vdot(v, v) < SCALE && r == #[trigger] vdiv(v, vlength(v))
}

/// `u` itself when it points to the side of `n`, else its opposite.
pub open spec fn toward(u: (int, int, int), n: (int, int, int)) -> (int, int, int) {
    if vdot(u, n) > 0 {
        u
    } else {
        vneg(u)
    }
}

impl Vec3 {
    /// A vector with each component drawn from `[0, 1)`.
    pub fn random(rng: &mut Rng) -> (r: Vec3)
        ensures
            0 <= r.0@ < SCALE && 0 <= r.1@ < SCALE && 0 <= r.2@ < SCALE,
    {
        let x = rng.uniform();
        let y = rng.uniform();
        let z = rng.uniform();
        Vec3(x, y, z)
    }

    /// A vector with each component drawn from `[min, max)`.
    pub fn random_range(rng: &mut Rng, min: Scalar, max: Scalar) -> (r: Vec3)
        requires
            min@ < max@,
        ensures
            min@ <= r.0@ < max@ && min@ <= r.1@ < max@ && min@ <= r.2@ < max@,
    {
        let x = rng.range(min, max);
        let y = rng.range(min, max);
        let z = rng.range(min, max);
        Vec3(x, y, z)
    }

    /// An offset in the unit square centred on zero, `[-0.5, 0.5)` on two axes.
    pub fn sample_square(rng: &mut Rng) -> (r: Vec3)
        ensures
            -SCALE / 2 <= r.0@ < SCALE / 2 && -SCALE / 2 <= r.1@ < SCALE / 2 && r.2@ == 0,
    {
        let half = Scalar::from_raw(SCALE / 2);
        let x = rng.range(half.neg(), half);
        let y = rng.range(half.neg(), half);
        Vec3(x, y, Scalar::zero())
    }

    /// A direction drawn uniformly from the unit sphere by rejection from the cube; should
    /// `UNIT_TRIES` candidates in a row fall outside the ball, the direction along `x`.
    pub fn random_unit(rng: &mut Rng) -> (r: Vec3)
        ensures
            is_unit_draw(r@) || r@ == (SCALE as int, 0int, 0int),
    {
        let mut tries: u32 = 0;
        while tries < UNIT_TRIES
            decreases UNIT_TRIES - tries,
        {
            let v = Vec3::random_range(rng, Scalar::one().neg(), Scalar::one());
            let l = v.length_squared();
            if l.lt(Scalar::one()) && Scalar::zero().lt(l) {
                let r = v.unit();
                assert(r@ == vdiv(v@, vlength(v@)));
                return r;
            }
            tries = tries + 1;
        }
        Vec3(Scalar::one(), Scalar::zero(), Scalar::zero())
    }

    /// A random unit direction on the side of the surface that `normal` points to.
    pub fn random_on_hemisphere(rng: &mut Rng, normal: Vec3) -> (r: Vec3)
        ensures
            exists|u: (int, int, int)|
                (is_unit_draw(u) || u == (SCALE as int, 0int, 0int)) && r@ == #[trigger] toward(u, normal@),
    {
        let on_unit_sphere = Vec3::random_unit(rng);
        let r = if Scalar::zero().lt(Vec3::dot(&on_unit_sphere, &normal)) {
            on_unit_sphere
        } else {
            on_unit_sphere.neg()
        };
        assert(r@ == toward(on_unit_sphere@, normal@));
        r
    }
}

} // verus!
