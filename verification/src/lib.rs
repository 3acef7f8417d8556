//! The decision core of an offline Monte Carlo ray tracer.
//!
//! Every real number is held as a [`math::Scalar`]: the bit pattern of an IEEE-754
//! double, compared and ordered on the bits. The library owns what the renderer
//! decides and arranges (bounding-volume hierarchy, closest-hit search, root and
//! extent selection, lattice hashing, frame layout, the path tracer's branching);
//! the arithmetic on the reals is done by the caller and handed in as scalars or
//! through closures.

pub mod math;

pub mod hittable;
pub mod random;
pub mod bvh;
pub mod primitives;
pub mod material;
pub mod pdf;
pub mod texture;
pub mod scene;
pub mod render;
