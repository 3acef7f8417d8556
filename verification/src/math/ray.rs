use vstd::prelude::*;
use crate::math::scalar::Scalar;
use crate::math::vec3::{Point3, Vec3};

verus! {

/// A ray: where it starts, where it goes (not necessarily of unit length),
/// and the moment at which it is cast.
#[derive(Clone, Copy, Debug)]
pub struct Ray {
    pub origin: Point3,
    pub direction: Vec3,
    pub time: Scalar,
}

impl Ray {
    pub fn new(origin: Point3, direction: Vec3, time: Scalar) -> (ray: Self)
        ensures
            ray == (Ray { origin, direction, time }),
    {
        Self { origin, direction, time }
    }

    pub fn origin(&self) -> (p: Point3)
        ensures
            p == self.origin,
    {
        self.origin
    }

    pub fn direction(&self) -> (v: Vec3)
        ensures
            v == self.direction,
    {
        self.direction
    }

    pub fn time(&self) -> (t: Scalar)
        ensures
            t == self.time,
    {
        self.time
    }
}

impl Default for Ray {
    fn default() -> (ray: Self)
        ensures
            ray == (Ray {
                origin: Vec3::origin(),
                direction: Vec3::origin(),
                time: Scalar { bits: 0 },
            }),
    {
        Self { origin: Point3::default(), direction: Vec3::default(), time: Scalar::zero() }
    }
}

} // verus!
