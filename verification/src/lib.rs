//! The intersection and light-transport core of a recursive ray tracer.
//!
//! Scalars are carried as single-precision bit patterns ([`scalar::Real`]); the
//! library orders them, negates them and hands them on, and leaves arithmetic
//! to its caller. What it owns is the structure around the numbers: bounding
//! boxes and their unions, the bounding-volume hierarchy and its traversal,
//! closest-hit selection, and the bounded walk of a light path.

pub mod scalar;
pub mod vec3;
pub mod ray;
pub mod aabb;
pub mod slab;
pub mod hittable;
pub mod material;
pub mod rng;
pub mod bvh;
pub mod scene;
pub mod sphere;
pub mod portal;
pub mod compare;
