//! A path tracer: rays, shapes, a bounding-volume hierarchy, materials, participating media and
//! a camera that estimates each pixel's radiance by Monte Carlo sampling.
//!
//! All arithmetic is on `Scalar`, a saturating fixed-point number with nine decimal digits, so
//! every operation has an exact meaning that the contracts state.
pub mod scalar;
pub mod vec3;
pub mod trig;
pub mod interval;
pub mod ray;
pub mod bounds;
pub mod rng;
pub mod textures;
pub mod materials;
pub mod hittable;
pub mod shapes;
pub mod bvh;
pub mod volumes;
pub mod camera;
pub mod scenes;
pub mod ppm;
