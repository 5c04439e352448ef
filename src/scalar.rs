//! Saturating fixed-point numbers with nine decimal digits after the point.
use vstd::prelude::*;

verus! {

/// Raw units in one whole unit.
pub const SCALE: i64 = 1_000_000_000;

/// Largest magnitude a scalar takes; a value at this bound stands for infinity.
pub const LIMIT: i64 = 4_000_000_000_000_000_000;

/// Saturates an exact value into the representable range.
pub open spec fn clip(x: int) -> int {
    if x > LIMIT {
        LIMIT as int
    } else if x < -LIMIT {
        -LIMIT
    } else {
        x
    }
}

/// Division that rounds toward zero, for a positive divisor.
pub open spec fn tdiv(x: int, d: int) -> int {
    if x >= 0 {
        x / d
    } else {
        -((-x) / d)
    }
}

/// Product of two scalar values, rounded toward zero and saturated.
pub open spec fn mul_spec(a: int, b: int) -> int {
    clip(tdiv(a * b, SCALE as int))
}

/// Quotient of two scalar values; a zero divisor gives an infinity of the dividend's sign.
pub open spec fn div_spec(a: int, b: int) -> int {
    if b == 0 {
        if a > 0 {
            LIMIT as int
        } else if a < 0 {
            -LIMIT
        } else {
            0
        }
    } else if b > 0 {
        clip(tdiv(a * SCALE, b))
    } else {
        clip(tdiv(-a * SCALE, -b))
    }
}

/// Whether `r` is the square root of the scalar value `x`, rounded down.
pub open spec fn is_root(r: int, x: int) -> bool {
    r >= 0 && r * r <= x * SCALE < (r + 1) * (r + 1)
}

/// Square root of a scalar value, rounded down; zero for a value that is not positive.
pub open spec fn sqrt_spec(x: int) -> int {
    if x <= 0 {
        0
    } else {
        choose|r: int| is_root(r, x)
    }
}

/// The rounded-down root is unique.
pub proof fn lemma_root_unique(r1: int, r2: int, x: int)
    requires
        is_root(r1, x),
        is_root(r2, x),
    ensures
        r1 == r2,
{
    if r1 < r2 {
        assert((r1 + 1) * (r1 + 1) <= r2 * r2) by (nonlinear_arith)
            requires
                0 <= r1 + 1 <= r2,
        ;
    } else if r2 < r1 {
        assert((r2 + 1) * (r2 + 1) <= r1 * r1) by (nonlinear_arith)
            requires
                0 <= r2 + 1 <= r1,
        ;
    }
}

/// One is neutral for multiplication, and zero absorbs it.
pub proof fn lemma_mul_unit(x: int)
    requires
        -LIMIT <= x <= LIMIT,
    ensures
        mul_spec(x, SCALE as int) == x,
        mul_spec(SCALE as int, x) == x,
        mul_spec(x, -SCALE) == -x,
        mul_spec(x, 0) == 0,
        mul_spec(0, x) == 0,
{
    let s = SCALE as int;
    assert(x * s == s * x && x * (-s) == -(x * s) && x * 0 == 0 && 0 * x == 0)
        by (nonlinear_arith);
    if x >= 0 {
        vstd::arithmetic::div_mod::lemma_div_by_multiple(x, s);
        vstd::arithmetic::mul::lemma_mul_nonnegative(x, s);
    } else {
        vstd::arithmetic::div_mod::lemma_div_by_multiple(-x, s);
        assert((-x) * s == -(x * s)) by (nonlinear_arith);
        vstd::arithmetic::mul::lemma_mul_strictly_positive(-x, s);
    }
}

/// A real number held as a count of billionths; magnitudes saturate at `LIMIT`.
#[derive(Clone, Copy, Debug, PartialEq, Eq)]
pub struct Scalar {
    pub raw: i64,
}

impl View for Scalar {
    type V = int;

    open spec fn view(&self) -> int {
        clip(self.raw as int)
    }
}

fn clip_wide(x: i128) -> (r: i64)
    ensures
        r == clip(x as int),
{
    if x > LIMIT as i128 {
        LIMIT
    } else if x < -(LIMIT as i128) {
        -LIMIT
    } else {
        x as i64
    }
}

/// Division of a wide value by a positive divisor, rounding toward zero.
fn tdiv_wide(x: i128, d: i128) -> (r: i128)
    requires
        d > 0,
        -0x1000_0000_0000_0000_0000_0000_0000_0000 < x < 0x1000_0000_0000_0000_0000_0000_0000_0000,
    ensures
        r == tdiv(x as int, d as int),
{
    if x >= 0 {
        x / d
    } else {
        let m: i128 = -x;
        -(m / d)
    }
}

impl Scalar {
    pub fn from_raw(raw: i64) -> (r: Scalar)
        ensures
            r.raw == raw,
    {
        Scalar { raw }
    }

    /// The value in range, as raw units.
    pub fn value(self) -> (r: i64)
        ensures
            r == self@,
            -LIMIT <= r <= LIMIT,
    {
        clip_wide(self.raw as i128)
    }

    pub fn zero() -> (r: Scalar)
        ensures
            r@ == 0,
    {
        Scalar { raw: 0 }
    }

    pub fn one() -> (r: Scalar)
        ensures
            r@ == SCALE,
    {
        Scalar { raw: SCALE }
    }

    pub fn infinity() -> (r: Scalar)
        ensures
            r@ == LIMIT,
    {
        Scalar { raw: LIMIT }
    }

    pub fn neg_infinity() -> (r: Scalar)
        ensures
            r@ == -LIMIT,
    {
        Scalar { raw: -LIMIT }
    }

    /// A whole number.
    pub fn from_int(n: i64) -> (r: Scalar)
        ensures
            r@ == clip(n * SCALE),
    {
        proof {
            assert(-0x8000_0000_0000_0000 * 1_000_000_000 <= n * SCALE <= 0x8000_0000_0000_0000
                * 1_000_000_000) by (nonlinear_arith)
                requires
                    -0x8000_0000_0000_0000 <= n <= 0x8000_0000_0000_0000,
            ;
        }
        Scalar { raw: clip_wide((n as i128) * (SCALE as i128)) }
    }

    /// `n` thousandths.
    pub fn milli(n: i64) -> (r: Scalar)
        ensures
            r@ == clip(n * 1_000_000),
    {
        proof {
            assert(-0x8000_0000_0000_0000 * 1_000_000 <= n * 1_000_000 <= 0x8000_0000_0000_0000
                * 1_000_000) by (nonlinear_arith)
                requires
                    -0x8000_0000_0000_0000 <= n <= 0x8000_0000_0000_0000,
            ;
        }
        Scalar { raw: clip_wide((n as i128) * 1_000_000) }
    }

    /// The quotient `num / den` of two whole numbers.
    pub fn ratio(num: i64, den: i64) -> (r: Scalar)
        ensures
            r@ == div_spec(clip(num * SCALE), clip(den * SCALE)),
    {
        Scalar::from_int(num).div(Scalar::from_int(den))
    }

    pub fn add(self, o: Scalar) -> (r: Scalar)
        ensures
            r@ == clip(self@ + o@),
    {
        Scalar { raw: clip_wide(self.value() as i128 + o.value() as i128) }
    }

    pub fn sub(self, o: Scalar) -> (r: Scalar)
        ensures
            r@ == clip(self@ - o@),
    {
        Scalar { raw: clip_wide(self.value() as i128 - o.value() as i128) }
    }

    pub fn neg(self) -> (r: Scalar)
        ensures
            r@ == -self@,
    {
        Scalar { raw: -self.value() }
    }

    pub fn mul(self, o: Scalar) -> (r: Scalar)
        ensures
            r@ == mul_spec(self@, o@),
    {
        let a = self.value();
        let b = o.value();
        proof {
            assert(-LIMIT * LIMIT <= a * b <= LIMIT * LIMIT) by (nonlinear_arith)
                requires
                    -LIMIT <= a <= LIMIT,
                    -LIMIT <= b <= LIMIT,
            ;
        }
        let p: i128 = (a as i128) * (b as i128);
        Scalar { raw: clip_wide(tdiv_wide(p, SCALE as i128)) }
    }

    pub fn div(self, o: Scalar) -> (r: Scalar)
        ensures
            r@ == div_spec(self@, o@),
    {
        let a = self.value();
        let b = o.value();
        if b == 0 {
            if a > 0 {
                Scalar::infinity()
            } else if a < 0 {
                Scalar::neg_infinity()
            } else {
                Scalar::zero()
            }
        } else {
            proof {
                assert(-LIMIT * SCALE <= a * SCALE <= LIMIT * SCALE) by (nonlinear_arith)
                    requires
                        -LIMIT <= a <= LIMIT,
                ;
            }
            let n: i128 = (a as i128) * (SCALE as i128);
            if b > 0 {
                Scalar { raw: clip_wide(tdiv_wide(n, b as i128)) }
            } else {
                Scalar { raw: clip_wide(tdiv_wide(-n, -(b as i128))) }
            }
        }
    }

    pub fn lt(self, o: Scalar) -> (r: bool)
        ensures
            r == (self@ < o@),
    {
        self.value() < o.value()
    }

    pub fn le(self, o: Scalar) -> (r: bool)
        ensures
            r == (self@ <= o@),
    {
        self.value() <= o.value()
    }

    pub fn min(self, o: Scalar) -> (r: Scalar)
        ensures
            r@ == if self@ <= o@ { self@ } else { o@ },
    {
        if self.le(o) {
            self
        } else {
            o
        }
    }

    pub fn max(self, o: Scalar) -> (r: Scalar)
        ensures
            r@ == if self@ >= o@ { self@ } else { o@ },
    {
        if o.le(self) {
            self
        } else {
            o
        }
    }

    /// Square root, rounded down; zero for a value that is not positive.
    pub fn sqrt(self) -> (r: Scalar)
        ensures
            r@ == sqrt_spec(self@),
    {
        let a = self.value();
        if a <= 0 {
            return Scalar::zero();
        }
        proof {
            assert(a * SCALE <= LIMIT * SCALE) by (nonlinear_arith)
                requires
                    0 < a <= LIMIT,
            ;
        }
        let n: i128 = (a as i128) * (SCALE as i128);
        let mut lo: i128 = 0;
        let mut hi: i128 = 0x4000_0000_0000;
        assert(hi * hi > n) by (nonlinear_arith)
            requires
                hi == 0x4000_0000_0000,
                n <= LIMIT * SCALE,
        ;
        while hi - lo > 1
            invariant
                0 <= lo < hi <= 0x4000_0000_0000,
                lo * lo <= n < hi * hi,
                n == a * SCALE,
            decreases hi - lo,
        {
            let mid: i128 = lo + (hi - lo) / 2;
            proof {
                assert(0 <= mid * mid <= 0x4000_0000_0000 * 0x4000_0000_0000) by (nonlinear_arith)
                    requires
                        0 <= mid <= 0x4000_0000_0000,
                ;
            }
            if mid * mid <= n {
                lo = mid;
            } else {
                hi = mid;
            }
        }
        assert(lo < LIMIT);
        proof {
            assert(is_root(lo as int, a as int));
            let c = choose|r: int| is_root(r, a as int);
            lemma_root_unique(c, lo as int, a as int);
        }
        Scalar { raw: lo as i64 }
    }

    /// The largest whole number not above the value.
    pub fn floor(self) -> (r: i64)
        ensures
            r == self@ / (SCALE as int),
    {
        let v = self.value();
        let q = v / SCALE;
        if q * SCALE > v {
            q - 1
        } else {
            q
        }
    }

    pub fn abs(self) -> (r: Scalar)
        ensures
            r@ == if self@ >= 0 { self@ } else { -self@ },
    {
        if self.value() >= 0 {
            self
        } else {
            self.neg()
        }
    }
}

} // verus!
