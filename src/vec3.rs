//! Three-component vectors, used as points, directions and linear colors.
use vstd::prelude::*;
use crate::scalar::{clip, div_spec, mul_spec, sqrt_spec, Scalar, LIMIT, SCALE};

verus! {

/// Componentwise sum, saturated.
pub open spec fn vadd(a: (int, int, int), b: (int, int, int)) -> (int, int, int) {
    (clip(a.0 + b.0), clip(a.1 + b.1), clip(a.2 + b.2))
}

/// Componentwise difference, saturated.
pub open spec fn vsub(a: (int, int, int), b: (int, int, int)) -> (int, int, int) {
    (clip(a.0 - b.0), clip(a.1 - b.1), clip(a.2 - b.2))
}

pub open spec fn vneg(a: (int, int, int)) -> (int, int, int) {
    (-a.0, -a.1, -a.2)
}

/// Every component multiplied by `s`.
pub open spec fn vscale(a: (int, int, int), s: int) -> (int, int, int) {
    (mul_spec(a.0, s), mul_spec(a.1, s), mul_spec(a.2, s))
}

/// Componentwise product.
pub open spec fn vmul(a: (int, int, int), b: (int, int, int)) -> (int, int, int) {
    (mul_spec(a.0, b.0), mul_spec(a.1, b.1), mul_spec(a.2, b.2))
}

/// Every component divided by `s`.
pub open spec fn vdiv(a: (int, int, int), s: int) -> (int, int, int) {
    (div_spec(a.0, s), div_spec(a.1, s), div_spec(a.2, s))
}

pub open spec fn vdot(a: (int, int, int), b: (int, int, int)) -> int {
    clip(clip(mul_spec(a.0, b.0) + mul_spec(a.1, b.1)) + mul_spec(a.2, b.2))
}

pub open spec fn vcross(a: (int, int, int), b: (int, int, int)) -> (int, int, int) {
    (
        clip(mul_spec(a.1, b.2) - mul_spec(a.2, b.1)),
        clip(mul_spec(a.2, b.0) - mul_spec(a.0, b.2)),
        clip(mul_spec(a.0, b.1) - mul_spec(a.1, b.0)),
    )
}

/// Reflection of `v` about the normal `n`: `v - (2 n) (v . n)`.
pub open spec fn vreflect(v: (int, int, int), n: (int, int, int)) -> (int, int, int) {
    vsub(v, vscale(vscale(n, 2 * SCALE), vdot(v, n)))
}

pub open spec fn vlength(a: (int, int, int)) -> int {
    sqrt_spec(vdot(a, a))
}

/// Refraction of the unit vector `v` through a surface with normal `n` for the ratio of
/// refraction indices `ratio`: the part perpendicular to `n`, scaled by `ratio`, plus the part
/// along `n` that completes a unit vector.
pub open spec fn vrefract(v: (int, int, int), n: (int, int, int), ratio: int) -> (int, int, int) {
    let d = vdot(vneg(v), n);
    let cos_theta = if d <= SCALE { d } else { SCALE as int };
    let perp = vscale(vadd(v, vscale(n, cos_theta)), ratio);
    let rest = clip(SCALE - vdot(perp, perp));
    let along = sqrt_spec(if rest >= 0 { rest } else { -rest });
    vadd(perp, vscale(n, -along))
}

/// Component `i` of a vector view.
pub open spec fn comp(a: (int, int, int), i: int) -> int {
    if i == 0 {
        a.0
    } else if i == 1 {
        a.1
    } else {
        a.2
    }
}

/// Whether every component lies strictly within `LIMIT` of zero.
pub open spec fn finite(a: (int, int, int)) -> bool {
    -LIMIT < a.0 < LIMIT && -LIMIT < a.1 < LIMIT && -LIMIT < a.2 < LIMIT
}

pub proof fn lemma_clip_neg(x: int)
    ensures
        clip(-x) == -clip(x),
{
}

pub proof fn lemma_mul_neg(a: int, b: int)
    ensures
        mul_spec(a, -b) == -mul_spec(a, b),
{
    assert(a * (-b) == -(a * b)) by (nonlinear_arith);
}

/// Negating one argument negates the dot product.
pub proof fn lemma_dot_neg(a: (int, int, int), b: (int, int, int))
    ensures
        vdot(a, vneg(b)) == -vdot(a, b),
{
    lemma_mul_neg(a.0, b.0);
    lemma_mul_neg(a.1, b.1);
    lemma_mul_neg(a.2, b.2);
}

#[derive(Clone, Copy, Debug, PartialEq, Eq)]
pub struct Vec3(pub Scalar, pub Scalar, pub Scalar);

pub type Point = Vec3;

pub type Color = Vec3;

impl View for Vec3 {
    type V = (int, int, int);

    open spec fn view(&self) -> (int, int, int) {
        (self.0@, self.1@, self.2@)
    }
}

impl Vec3 {
    pub fn x(&self) -> (r: Scalar)
        ensures
            r == self.0,
    {
        self.0
    }

    pub fn y(&self) -> (r: Scalar)
        ensures
            r == self.1,
    {
        self.1
    }

    pub fn z(&self) -> (r: Scalar)
        ensures
            r == self.2,
    {
        self.2
    }

    pub fn zero() -> (r: Vec3)
        ensures
            r@ == (0int, 0int, 0int),
    {
        Vec3(Scalar::zero(), Scalar::zero(), Scalar::zero())
    }

    /// The component on axis `i`.
    pub open spec fn axis(self, i: int) -> Scalar {
        if i == 0 {
            self.0
        } else if i == 1 {
            self.1
        } else {
            self.2
        }
    }

    pub fn index(&self, i: usize) -> (r: Scalar)
        requires
            i < 3,
        ensures
            r == self.axis(i as int),
            r@ == comp(self@, i as int),
    {
        if i == 0 {
            self.0
        } else if i == 1 {
            self.1
        } else {
            self.2
        }
    }

    pub fn cross(v: &Vec3, w: &Vec3) -> (r: Vec3)
        ensures
            r@ == vcross(v@, w@),
    {
        Vec3(
            v.1.mul(w.2).sub(v.2.mul(w.1)),
            v.2.mul(w.0).sub(v.0.mul(w.2)),
            v.0.mul(w.1).sub(v.1.mul(w.0)),
        )
    }

    pub fn dot(v: &Vec3, w: &Vec3) -> (r: Scalar)
        ensures
            r@ == vdot(v@, w@),
    {
        v.0.mul(w.0).add(v.1.mul(w.1)).add(v.2.mul(w.2))
    }

    pub fn sub(v: &Vec3, w: &Vec3) -> (r: Vec3)
        ensures
            r@ == vsub(v@, w@),
    {
        Vec3(v.0.sub(w.0), v.1.sub(w.1), v.2.sub(w.2))
    }

    pub fn add(v: &Vec3, w: &Vec3) -> (r: Vec3)
        ensures
            r@ == vadd(v@, w@),
    {
        Vec3(v.0.add(w.0), v.1.add(w.1), v.2.add(w.2))
    }

    pub fn scale(v: &Vec3, s: Scalar) -> (r: Vec3)
        ensures
            r@ == vscale(v@, s@),
    {
        Vec3(v.0.mul(s), v.1.mul(s), v.2.mul(s))
    }

    /// Componentwise product.
    pub fn mul(v: &Vec3, w: &Vec3) -> (r: Vec3)
        ensures
            r@ == vmul(v@, w@),
    {
        Vec3(v.0.mul(w.0), v.1.mul(w.1), v.2.mul(w.2))
    }

    /// Every component divided by `s`.
    pub fn div(v: &Vec3, s: Scalar) -> (r: Vec3)
        ensures
            r@ == vdiv(v@, s@),
    {
        Vec3(v.0.div(s), v.1.div(s), v.2.div(s))
    }

    pub fn neg(&self) -> (r: Vec3)
        ensures
            r@ == vneg(self@),
    {
        Vec3(self.0.neg(), self.1.neg(), self.2.neg())
    }

    pub fn length_squared(&self) -> (r: Scalar)
        ensures
            r@ == vdot(self@, self@),
    {
        Vec3::dot(self, self)
    }

    pub fn length(&self) -> (r: Scalar)
        ensures
            r@ == vlength(self@),
    {
        self.length_squared().sqrt()
    }

    /// The vector divided by its length.
    pub fn unit(&self) -> (r: Vec3)
        ensures
            r@ == vdiv(self@, vlength(self@)),
    {
        let l = self.length();
        Vec3::div(self, l)
    }

    /// Whether every component is below `1e-8` in magnitude.
    pub fn near_zero(&self) -> (r: bool)
        ensures
            r == (-10 < self.0@ < 10 && -10 < self.1@ < 10 && -10 < self.2@ < 10),
    {
        let s = Scalar::from_raw(10);
        self.0.abs().lt(s) && self.1.abs().lt(s) && self.2.abs().lt(s)
    }

    /// Mirror image about the normal `n`.
    pub fn reflect(&self, n: &Vec3) -> (r: Vec3)
        ensures
            r@ == vreflect(self@, n@),
    {
        let two = Scalar::from_int(2);
        Vec3::sub(self, &Vec3::scale(&Vec3::scale(n, two), Vec3::dot(self, n)))
    }

    /// Refraction of the unit vector `self` through a surface with normal `n`, for the ratio of
    /// refraction indices `ratio`.
    pub fn refract(&self, n: &Vec3, ratio: Scalar) -> (r: Vec3)
        ensures
            r@ == vrefract(self@, n@, ratio@),
    {
        let cos_theta = Vec3::dot(&self.neg(), n).min(Scalar::one());
        let perp = Vec3::scale(&Vec3::add(self, &Vec3::scale(n, cos_theta)), ratio);
        let root = Scalar::one().sub(perp.length_squared()).abs().sqrt();
        let par = Vec3::scale(n, root.neg());
        Vec3::add(&perp, &par)
    }

    /// Gamma-2 encoding: the square root of each positive channel, zero for the others.
    pub fn to_gamma(&self) -> (r: Vec3)
        ensures
            r@ == (sqrt_spec(self.0@), sqrt_spec(self.1@), sqrt_spec(self.2@)),
    {
        Vec3(self.0.sqrt(), self.1.sqrt(), self.2.sqrt())
    }
}

pub fn point(x: Scalar, y: Scalar, z: Scalar) -> (r: Point)
    ensures
        r == Vec3(x, y, z),
{
    Vec3(x, y, z)
}

pub fn color(r: Scalar, g: Scalar, b: Scalar) -> (c: Color)
    ensures
        c == Vec3(r, g, b),
{
    Vec3(r, g, b)
}

} // verus!
