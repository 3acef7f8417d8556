//! The shapes of a scene, as far as their intersection with a ray is decided
//! by comparing and arranging scalars.

pub mod plane;
pub mod aabox;
pub mod sphere;
pub mod volume;

pub use plane::{PlaneCrossing, XyPlane, XzPlane, YzPlane};
pub use aabox::{AaBox, Side};
pub use sphere::{MovingSphere, Roots, Sphere, SurfacePoint};
pub use volume::{ConstantMedium, Flight};
