//! Elementary functions on scalars, computed by series in fixed point: within about `1e-8` of
//! the true values over the ranges the renderer uses. Each is stated exactly by a spec function
//! that follows the same steps, so that two computations from the same inputs agree.
use vstd::prelude::*;
use crate::scalar::{clip, div_spec, mul_spec, sqrt_spec, Scalar, LIMIT, SCALE};

verus! {

/// Pi in raw units.
pub const PI: i64 = 3_141_592_654;

/// Half of pi in raw units.
pub const HALF_PI: i64 = 1_570_796_327;

/// The natural logarithm of 2 in raw units.
pub const LN_2: i64 = 693_147_181;

/// Number of terms each series sums.
pub const TERMS: i64 = 24;

/// Degrees to radians.
pub open spec fn to_radians_spec(d: int) -> int {
    div_spec(mul_spec(d, PI as int), clip(180 * SCALE))
}

/// The angle moved into `[-pi, pi)` by whole turns.
pub open spec fn reduce_spec(x: int) -> int {
    let turn = clip(PI + PI);
    let k = div_spec(clip(x + PI), turn) / (SCALE as int);
    clip(x - mul_spec(clip(k * SCALE), turn))
}

/// The sine and cosine series from term `i` on, with the last terms `st`, `ct` and the sums
/// `s`, `c` so far, for `m2` the negated square of the angle.
pub open spec fn sc_series(m2: int, i: int, st: int, ct: int, s: int, c: int) -> (int, int)
    decreases TERMS - i,
{
    if i >= TERMS {
        (s, c)
    } else {
        let a = clip(2 * i * SCALE);
        let b = clip((2 * i + 1) * SCALE);
        let d = clip((2 * i - 1) * SCALE);
        let st2 = div_spec(mul_spec(st, m2), mul_spec(a, b));
        let ct2 = div_spec(mul_spec(ct, m2), mul_spec(d, a));
        sc_series(m2, i + 1, st2, ct2, clip(s + st2), clip(c + ct2))
    }
}

/// Sine and cosine of an angle in radians.
pub open spec fn sin_cos_spec(x: int) -> (int, int) {
    let y = reduce_spec(x);
    sc_series(-mul_spec(y, y), 1, y, SCALE as int, y, SCALE as int)
}

pub open spec fn tan_spec(x: int) -> int {
    div_spec(sin_cos_spec(x).0, sin_cos_spec(x).1)
}

/// One halving of the angle whose tangent is `y`.
pub open spec fn halve(y: int) -> int {
    div_spec(y, clip(SCALE + sqrt_spec(clip(SCALE + mul_spec(y, y)))))
}

/// The arctangent series from term `i` on, with the last power `p` and the sum so far.
pub open spec fn at_series(m2: int, i: int, p: int, sum: int) -> int
    decreases TERMS - i,
{
    if i >= TERMS {
        sum
    } else {
        let p2 = mul_spec(p, m2);
        at_series(m2, i + 1, p2, clip(sum + div_spec(p2, clip((2 * i + 1) * SCALE))))
    }
}

/// Arctangent of a value at most 1 in magnitude.
pub open spec fn atan_series_spec(x: int) -> int {
    let y = halve(halve(x));
    mul_spec(at_series(-mul_spec(y, y), 1, y, y), 4 * SCALE)
}

pub open spec fn atan_spec(x: int) -> int {
    if SCALE < (if x >= 0 { x } else { -x }) {
        let inner = atan_series_spec(div_spec(SCALE as int, x));
        if x < 0 {
            clip(-HALF_PI - inner)
        } else {
            clip(HALF_PI - inner)
        }
    } else {
        atan_series_spec(x)
    }
}

pub open spec fn atan2_spec(y: int, x: int) -> int {
    if 0 < x {
        atan_spec(div_spec(y, x))
    } else if x < 0 {
        if y < 0 {
            clip(atan_spec(div_spec(y, x)) - PI)
        } else {
            clip(atan_spec(div_spec(y, x)) + PI)
        }
    } else if 0 < y {
        HALF_PI as int
    } else if y < 0 {
        -HALF_PI
    } else {
        0
    }
}

pub open spec fn acos_spec(x: int) -> int {
    atan2_spec(sqrt_spec(clip(SCALE - mul_spec(x, x))), x)
}

/// Halves `m` until it is below 2, counting the halvings (up to 64) in `k`.
pub open spec fn norm_down(m: int, k: int) -> (int, int)
    decreases m,
{
    if m >= 2 * SCALE && m > 0 {
        norm_down(m / 2, if k < 64 { k + 1 } else { k })
    } else {
        (m, k)
    }
}

/// Doubles a positive `m` until it is at least 1, counting the doublings (down to -64) in `k`.
pub open spec fn norm_up(m: int, k: int) -> (int, int)
    decreases 2 * SCALE - m,
{
    if 0 < m < SCALE {
        norm_up(m * 2, if k > -64 { k - 1 } else { k })
    } else {
        (m, k)
    }
}

/// Natural logarithm; the lowest scalar for a value that is not positive, and never above 0 for
/// a value at most 1.
pub open spec fn ln_spec(x: int) -> int {
    if x <= 0 {
        -LIMIT
    } else {
        let down = norm_down(x, 0);
        let up = norm_up(down.0, down.1);
        let m = up.0;
        let z = div_spec(clip(m - SCALE), clip(m + SCALE));
        let sum = at_series(mul_spec(z, z), 1, z, z);
        let r = clip(mul_spec(sum, 2 * SCALE) + mul_spec(clip(up.1 * SCALE), LN_2 as int));
        if x <= SCALE && r > 0 {
            0
        } else {
            r
        }
    }
}

/// Degrees to radians.
pub fn to_radians(degrees: Scalar) -> (r: Scalar)
    ensures
        r@ == to_radians_spec(degrees@),
{
    degrees.mul(Scalar::from_raw(PI)).div(Scalar::from_int(180))
}

/// The angle moved into `[-pi, pi)` by whole turns.
fn reduce_angle(x: Scalar) -> (r: Scalar)
    ensures
        r@ == reduce_spec(x@),
{
    let pi = Scalar::from_raw(PI);
    let turn = pi.add(pi);
    let k = x.add(pi).div(turn).floor();
    x.sub(Scalar::from_int(k).mul(turn))
}

/// Sine and cosine of an angle in radians.
pub fn sin_cos(x: Scalar) -> (r: (Scalar, Scalar))
    ensures
        (r.0@, r.1@) == sin_cos_spec(x@),
{
    let ghost x0 = x@;
    let x = reduce_angle(x);
    let minus_x2 = x.mul(x).neg();
    let mut s_term = x;
    let mut c_term = Scalar::one();
    let mut s = x;
    let mut c = Scalar::one();
    let mut i: i64 = 1;
    while i < TERMS
        invariant
            1 <= i <= TERMS,
            minus_x2@ == -mul_spec(x@, x@),
            x@ == reduce_spec(x0),
            sc_series(minus_x2@, i as int, s_term@, c_term@, s@, c@) == sin_cos_spec(x0),
        decreases TERMS - i,
    {
        let a = Scalar::from_int(2 * i);
        let b = Scalar::from_int(2 * i + 1);
        let d = Scalar::from_int(2 * i - 1);
        s_term = s_term.mul(minus_x2).div(a.mul(b));
        c_term = c_term.mul(minus_x2).div(d.mul(a));
        s = s.add(s_term);
        c = c.add(c_term);
        i = i + 1;
    }
    (s, c)
}

/// Tangent of an angle in radians.
pub fn tan(x: Scalar) -> (r: Scalar)
    ensures
        r@ == tan_spec(x@),
{
    let (s, c) = sin_cos(x);
    s.div(c)
}

/// Arctangent: for a value beyond 1 in magnitude, the complement of the arctangent of its
/// reciprocal.
pub fn atan(x: Scalar) -> (r: Scalar)
    ensures
        r@ == atan_spec(x@),
{
    let one = Scalar::one();
    if one.lt(x.abs()) {
        let half_pi = Scalar::from_raw(HALF_PI);
        let inner = atan_series(one.div(x));
        if x.lt(Scalar::zero()) {
            half_pi.neg().sub(inner)
        } else {
            half_pi.sub(inner)
        }
    } else {
        atan_series(x)
    }
}

/// Arctangent by its series, after halving the angle twice.
fn atan_series(x: Scalar) -> (r: Scalar)
    ensures
        r@ == atan_series_spec(x@),
{
    let one = Scalar::one();
    let y1 = x.div(one.add(one.add(x.mul(x)).sqrt()));
    let y = y1.div(one.add(one.add(y1.mul(y1)).sqrt()));
    let minus_y2 = y.mul(y).neg();
    let mut power = y;
    let mut sum = y;
    let mut i: i64 = 1;
    while i < TERMS
        invariant
            1 <= i <= TERMS,
            y@ == halve(halve(x@)),
            minus_y2@ == -mul_spec(y@, y@),
            at_series(minus_y2@, i as int, power@, sum@) == at_series(-mul_spec(y@, y@), 1, y@, y@),
        decreases TERMS - i,
    {
        power = power.mul(minus_y2);
        sum = sum.add(power.div(Scalar::from_int(2 * i + 1)));
        i = i + 1;
    }
    sum.mul(Scalar::from_int(4))
}

/// The angle of the point `(x, y)` from the positive `x` axis, in `(-pi, pi]`.
pub fn atan2(y: Scalar, x: Scalar) -> (r: Scalar)
    ensures
        r@ == atan2_spec(y@, x@),
{
    let zero = Scalar::zero();
    let pi = Scalar::from_raw(PI);
    if zero.lt(x) {
        atan(y.div(x))
    } else if x.lt(zero) {
        if y.lt(zero) {
            atan(y.div(x)).sub(pi)
        } else {
            atan(y.div(x)).add(pi)
        }
    } else if zero.lt(y) {
        Scalar::from_raw(HALF_PI)
    } else if y.lt(zero) {
        Scalar::from_raw(-HALF_PI)
    } else {
        zero
    }
}

/// Arccosine, for a value in `[-1, 1]`.
pub fn acos(x: Scalar) -> (r: Scalar)
    ensures
        r@ == acos_spec(x@),
{
    let s = Scalar::one().sub(x.mul(x)).sqrt();
    atan2(s, x)
}

/// Natural logarithm; the lowest scalar for a value that is not positive. For a value at most 1
/// the result is at most 0: a rounding above 0 there is taken back to 0.
pub fn ln(x: Scalar) -> (r: Scalar)
    ensures
        r@ == ln_spec(x@),
        0 < x@ <= SCALE ==> r@ <= 0,
{
    if x.le(Scalar::zero()) {
        return Scalar::neg_infinity();
    }
    let one = Scalar::one();
    let two = Scalar::from_int(2);
    let mut m = x.value();
    let mut k: i64 = 0;
    while m >= 2 * SCALE
        invariant
            0 < m <= LIMIT,
            -64 <= k <= 64,
            norm_down(m as int, k as int) == norm_down(x@, 0),
        decreases m,
    {
        m = m / 2;
        if k < 64 {
            k = k + 1;
        }
    }
    let ghost down = norm_down(x@, 0);
    assert(down == (m as int, k as int));
    while m < SCALE
        invariant
            0 < m < 2 * SCALE,
            -64 <= k <= 64,
            norm_up(m as int, k as int) == norm_up(down.0, down.1),
        decreases 2 * SCALE - m,
    {
        m = m * 2;
        if k > -64 {
            k = k - 1;
        }
    }
    let m = Scalar::from_raw(m);
    let z = m.sub(one).div(m.add(one));
    let z2 = z.mul(z);
    let mut power = z;
    let mut sum = z;
    let mut i: i64 = 1;
    while i < TERMS
        invariant
            1 <= i <= TERMS,
            at_series(z2@, i as int, power@, sum@) == at_series(mul_spec(z@, z@), 1, z@, z@),
        decreases TERMS - i,
    {
        power = power.mul(z2);
        sum = sum.add(power.div(Scalar::from_int(2 * i + 1)));
        i = i + 1;
    }
    let r = sum.mul(two).add(Scalar::from_int(k).mul(Scalar::from_raw(LN_2)));
    if x.le(one) && Scalar::zero().lt(r) {
        Scalar::zero()
    } else {
        r
    }
}

} // verus!
