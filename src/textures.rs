//! Surface color sources.
use vstd::prelude::*;
use std::sync::Arc;
use crate::interval::Interval;
use crate::scalar::{mul_spec, Scalar, SCALE};
use crate::vec3::{Color, Point, Vec3};

verus! {

/// One color everywhere.
#[derive(Clone, Copy, Debug)]
pub struct SolidColor {
    pub color: Color,
}

/// A 3D checkerboard of cubes of side `1 / inv_scale`, alternating between two textures.
pub struct CheckerTexture {
    pub inv_scale: Scalar,
    pub odd: Arc<Texture>,
    pub even: Arc<Texture>,
}

/// A grid of colors, row by row from the top, sampled by surface parameters.
pub struct ColorTexture {
    pub data: Vec<Color>,
    pub width: usize,
    pub height: usize,
}

pub enum Texture {
    Solid(SolidColor),
    Checker(CheckerTexture),
    Grid(ColorTexture),
}

/// Whether the checker cell that holds `p` is an even one.
pub open spec fn checker_even(inv_scale: int, p: (int, int, int)) -> bool {
    (mul_spec(inv_scale, p.0) / (SCALE as int) + mul_spec(inv_scale, p.1) / (SCALE as int) + mul_spec(
        inv_scale,
        p.2,
    ) / (SCALE as int)) % 2 == 0
}

/// A parameter moved into `[0, 1]`.
pub open spec fn unit_clamp(x: int) -> int {
    if x < 0 {
        0
    } else if x > SCALE {
        SCALE as int
    } else {
        x
    }
}

/// The cell, among `n` cells over `[0, 1]`, that holds the clamped parameter `x`.
pub open spec fn cell(x: int, n: int) -> int {
    let c = unit_clamp(x) * n / (SCALE as int);
    if c < n {
        c
    } else {
        n - 1
    }
}

/// The position in `data` of the pixel at surface parameters `(u, v)`; rows run from `v = 1`
/// at the top down to `v = 0`.
pub open spec fn grid_index(u: int, v: int, width: int, height: int) -> int {
    cell(SCALE - unit_clamp(v), height) * width + cell(u, width)
}

pub open spec fn texture_value(t: Texture, u: int, v: int, p: (int, int, int)) -> (int, int, int)
    decreases t,
{
    match t {
        Texture::Solid(s) => s.color@,
        Texture::Checker(c) => {
            if checker_even(c.inv_scale@, p) {
                texture_value(*c.even, u, v, p)
            } else {
                texture_value(*c.odd, u, v, p)
            }
        },
        Texture::Grid(g) => {
            let i = grid_index(u, v, g.width as int, g.height as int);
            if g.width > 0 && g.height > 0 && i < g.data@.len() {
                g.data@[i]@
            } else {
                (0int, 0int, 0int)
            }
        },
    }
}

impl SolidColor {
    pub fn new(color: Color) -> (r: SolidColor)
        ensures
            r.color == color,
    {
        SolidColor { color }
    }

    pub fn value(&self, u: Scalar, v: Scalar, p: &Point) -> (r: Color)
        ensures
            r == self.color,
    {
        self.color
    }
}

impl CheckerTexture {
    /// Cells of side `scale`.
    pub fn new(scale: Scalar, odd: Arc<Texture>, even: Arc<Texture>) -> (r: CheckerTexture)
        ensures
            r.inv_scale@ == crate::scalar::div_spec(SCALE as int, scale@),
            r.odd == odd,
            r.even == even,
    {
        CheckerTexture { inv_scale: Scalar::one().div(scale), odd, even }
    }

    /// Cells of side `scale` in two solid colors.
    pub fn from(scale: Scalar, odd: Color, even: Color) -> (r: CheckerTexture)
        ensures
            r.inv_scale@ == crate::scalar::div_spec(SCALE as int, scale@),
            *r.odd == Texture::Solid(SolidColor { color: odd }),
            *r.even == Texture::Solid(SolidColor { color: even }),
    {
        CheckerTexture::new(
            scale,
            Arc::new(Texture::Solid(SolidColor::new(odd))),
            Arc::new(Texture::Solid(SolidColor::new(even))),
        )
    }
}

impl ColorTexture {
    pub fn new(data: Vec<Color>, width: usize, height: usize) -> (r: ColorTexture)
        ensures
            r.data@ == data@,
            r.width == width,
            r.height == height,
    {
        ColorTexture { data, width, height }
    }

    /// The pixel at surface parameters `(u, v)`; black when the grid is smaller than its
    /// dimensions say.
    pub fn value(&self, u: Scalar, v: Scalar, p: &Point) -> (r: Color)
        ensures
            ({
                let i = grid_index(u@, v@, self.width as int, self.height as int);
                r@ == if self.width > 0 && self.height > 0 && i < self.data@.len() {
                    self.data@[i]@
                } else {
                    (0int, 0int, 0int)
                }
            }),
    {
        if self.width == 0 || self.height == 0 {
            return Vec3::zero();
        }
        let unit = Interval::new(Scalar::zero(), Scalar::one());
        let cu = unit.clamp(u).value();
        let cv = SCALE - unit.clamp(v).value();
        let x = grid_cell(cu, self.width);
        let y = grid_cell(cv, self.height);
        proof {
            assert(y * self.width + x <= (self.height - 1) * self.width + self.width - 1)
                by (nonlinear_arith)
                requires
                    y <= self.height - 1,
                    x <= self.width - 1,
            ;
            assert((self.height - 1) * self.width + self.width <= 0x1_0000_0000_0000_0000
                * 0x1_0000_0000_0000_0000) by (nonlinear_arith)
                requires
                    self.height <= 0x1_0000_0000_0000_0000,
                    self.width <= 0x1_0000_0000_0000_0000,
                    self.height >= 1,
            ;
        }
        let i: u128 = (y as u128) * (self.width as u128) + (x as u128);
        if i < self.data.len() as u128 {
            self.data[i as usize]
        } else {
            Vec3::zero()
        }
    }
}

/// The cell among `n > 0` cells that holds the parameter `x` of `[0, 1]`.
fn grid_cell(x: i64, n: usize) -> (r: usize)
    requires
        0 <= x <= SCALE,
        n > 0,
    ensures
        r == cell(x as int, n as int),
        r < n,
{
    proof {
        assert(x * n <= SCALE * 0x1_0000_0000_0000_0000) by (nonlinear_arith)
            requires
                0 <= x <= SCALE,
                0 <= n <= 0x1_0000_0000_0000_0000,
        ;
        assert(0 <= x * n) by (nonlinear_arith)
            requires
                0 <= x,
                0 <= n,
        ;
        assert(x * n / (SCALE as int) <= n) by (nonlinear_arith)
            requires
                0 <= x <= SCALE,
                0 <= n,
        ;
    }
    let c: u128 = (x as u128) * (n as u128) / (SCALE as u128);
    if c < n as u128 {
        c as usize
    } else {
        n - 1
    }
}

impl Texture {
    /// The color at surface parameters `(u, v)` and point `p`.
    pub fn value(&self, u: Scalar, v: Scalar, p: &Point) -> (r: Color)
        ensures
            r@ == texture_value(*self, u@, v@, p@),
        decreases self,
    {
        match self {
            Texture::Solid(s) => s.value(u, v, p),
            Texture::Checker(c) => {
                let x = c.inv_scale.mul(p.x()).floor();
                let y = c.inv_scale.mul(p.y()).floor();
                let z = c.inv_scale.mul(p.z()).floor();
                if (x + y + z) % 2 == 0 {
                    c.even.value(u, v, p)
                } else {
                    c.odd.value(u, v, p)
                }
            },
            Texture::Grid(g) => g.value(u, v, p),
        }
    }
}

} // verus!
