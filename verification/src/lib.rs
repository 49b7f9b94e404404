//! The verified core of a Monte Carlo path tracer for scenes of spheres.
//!
//! A renderer of this kind computes in binary64 and decides on what it
//! computed: which root of a quadratic counts, which sphere is nearest, which
//! way a surface faces, whether a material scatters a ray and in which
//! direction, when a path ends, which byte a colour becomes and where the
//! byte goes. The decisions are made here, and each is stated and proved. The
//! numbers reach the library as bit patterns, on which it compares, negates,
//! clamps and converts exactly; sums, products, quotients and roots are
//! rounded and are left to the caller.
//!
//! - [`ieee`]: binary64 patterns, the numbers that they encode, and what is
//!   exact on them.
//! - [`vec3`]: triples of patterns.
//! - [`rand`]: the random source, from entropy to uniform doubles.
//! - [`geometry`]: rays, spheres and the nearest hit.
//! - [`material`]: the three materials.
//! - [`integrator`]: the path of a ray, bounce after bounce.
//! - [`render`]: the scheduler, from a shader to the output buffer.

pub mod geometry;
pub mod ieee;
pub mod integrator;
pub mod material;
pub mod rand;
pub mod render;
pub mod vec3;
