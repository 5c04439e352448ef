//! Parametric rays.
use vstd::prelude::*;
use crate::scalar::Scalar;
use crate::vec3::{vadd, vscale, Color, Point, Vec3};

verus! {

/// The half-line `t -> origin + t * direction`.
#[derive(Clone, Copy, Debug, PartialEq, Eq)]
pub struct Ray {
    pub origin: Point,
    pub direction: Vec3,
}

/// The point at parameter `t` on the ray with the given origin and direction.
pub open spec fn at_spec(o: (int, int, int), d: (int, int, int), t: int) -> (int, int, int) {
    vadd(o, vscale(d, t))
}

impl Ray {
    pub fn at(&self, t: Scalar) -> (r: Point)
        ensures
            r@ == at_spec(self.origin@, self.direction@, t@),
    {
        Vec3::add(&self.origin, &Vec3::scale(&self.direction, t))
    }

    /// The radiance of a ray that leaves the scene: black.
    pub fn background(&self) -> (r: Color)
        ensures
            r@ == (0int, 0int, 0int),
    {
        Vec3::zero()
    }
}

} // verus!
