use vstd::prelude::*;
use crate::math::scalar::Scalar;

verus! {

/// Three scalars: a direction, a position or a colour.
#[derive(Clone, Copy, Debug)]
pub struct Vec3 {
    pub x: Scalar,
    pub y: Scalar,
    pub z: Scalar,
}

pub type Color = Vec3;

pub type Point3 = Vec3;

impl Vec3 {
    /// The component on `axis`: 0 for x, 1 for y, anything else for z.
    pub open spec fn component(self, axis: int) -> Scalar {
        if axis == 0 {
            self.x
        } else if axis == 1 {
            self.y
        } else {
            self.z
        }
    }

    /// The vector of three positive zeros.
    pub open spec fn origin() -> Vec3 {
        Vec3 { x: Scalar { bits: 0 }, y: Scalar { bits: 0 }, z: Scalar { bits: 0 } }
    }

    /// The vector with every sign bit flipped.
    pub open spec fn negated(self) -> Vec3 {
        Vec3 { x: self.x.negated(), y: self.y.negated(), z: self.z.negated() }
    }

    pub fn new(v1: Scalar, v2: Scalar, v3: Scalar) -> (v: Vec3)
        ensures
            v == (Vec3 { x: v1, y: v2, z: v3 }),
    {
        Vec3 { x: v1, y: v2, z: v3 }
    }

    pub fn x(&self) -> (r: Scalar)
        ensures
            r == self.x,
    {
        self.x
    }

    pub fn y(&self) -> (r: Scalar)
        ensures
            r == self.y,
    {
        self.y
    }

    pub fn z(&self) -> (r: Scalar)
        ensures
            r == self.z,
    {
        self.z
    }

    /// The component on `axis`.
    pub fn get(&self, axis: usize) -> (r: Scalar)
        requires
            axis < 3,
        ensures
            r == self.component(axis as int),
    {
        if axis == 0 {
            self.x
        } else if axis == 1 {
            self.y
        } else {
            self.z
        }
    }

    /// The vector turned into the hemisphere of a normal: itself where
    /// `facing`, its dot product with the normal, is above zero, its opposite
    /// otherwise.
    pub fn in_hemisphere(&self, facing: Scalar) -> (v: Vec3)
        ensures
            v == if (Scalar { bits: 0 }).precedes(facing) {
                *self
            } else {
                self.negated()
            },
    {
        if Scalar::zero().lt(facing) {
            *self
        } else {
            self.neg()
        }
    }

    /// The opposite vector.
    pub fn neg(&self) -> (v: Vec3)
        ensures
            v == self.negated(),
    {
        Vec3 { x: self.x.neg(), y: self.y.neg(), z: self.z.neg() }
    }
}

impl Default for Vec3 {
    fn default() -> (v: Vec3)
        ensures
            v == Vec3::origin(),
    {
        Vec3 { x: Scalar::zero(), y: Scalar::zero(), z: Scalar::zero() }
    }
}

} // verus!
