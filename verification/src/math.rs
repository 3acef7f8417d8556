//! Value types: scalars, 3-vectors, rays, bases and axis-aligned boxes.

pub mod scalar;
pub mod vec3;
pub mod ray;
pub mod onb;
pub mod aabb;

pub use scalar::Scalar;
pub use vec3::{Color, Point3, Vec3};
pub use ray::Ray;
pub use onb::Onb;
pub use aabb::{Aabb, Slab};
