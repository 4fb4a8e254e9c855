//! A recursive, stochastic ray tracer over exact fixed-point arithmetic.
//!
//! Scalars are fixed-point numbers (`Fx`): an `i64` raw value denoting
//! `raw / 65536`. All geometry, material and color computations are stated
//! and proved over this exact integer model; randomness comes from a
//! seedable generator, and window/file output lives outside the library.

pub mod camera;
pub mod color;
pub mod fx;
pub mod hittable;
pub mod hittable_list;
pub mod interval;
pub mod material;
pub mod pyramid;
pub mod ray;
pub mod rng;
pub mod sphere;
pub mod triangle;
pub mod vec3;

pub use fx::Fx;
