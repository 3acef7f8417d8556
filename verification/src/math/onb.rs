use vstd::prelude::*;
use crate::math::scalar::{Scalar, ONE_BITS};
use crate::math::vec3::Vec3;

verus! {

/// The pattern of `0.9`.
pub const NINE_TENTHS_BITS: u64 = 0x3FEC_CCCC_CCCC_CCCD;

/// An orthonormal basis.
#[derive(Clone, Copy, Debug)]
pub struct Onb {
    pub axis: [Vec3; 3],
}

impl Onb {
    /// The axis that is crossed with `w` to start a basis around `w`: the y
    /// axis where `w` leans towards the x axis (the magnitude of its x is above
    /// 0.9), the x axis otherwise.
    pub open spec fn helper_for(w_x: Scalar) -> Vec3 {
        if (Scalar { bits: NINE_TENTHS_BITS }).precedes(w_x.absolute()) {
            Vec3 { x: Scalar { bits: 0 }, y: Scalar { bits: ONE_BITS }, z: Scalar { bits: 0 } }
        } else {
            Vec3 { x: Scalar { bits: ONE_BITS }, y: Scalar { bits: 0 }, z: Scalar { bits: 0 } }
        }
    }

    /// The basis of the three given axes.
    pub fn new(u: Vec3, v: Vec3, w: Vec3) -> (basis: Self)
        ensures
            basis.axis@ == seq![u, v, w],
    {
        Self { axis: [u, v, w] }
    }

    /// Picks the axis that is not nearly parallel to a unit vector whose x is `w_x`.
    pub fn helper(w_x: Scalar) -> (a: Vec3)
        ensures
            a == Self::helper_for(w_x),
    {
        if Scalar::from_bits(NINE_TENTHS_BITS).lt(w_x.abs()) {
            Vec3::new(Scalar::zero(), Scalar::one(), Scalar::zero())
        } else {
            Vec3::new(Scalar::one(), Scalar::zero(), Scalar::zero())
        }
    }

    pub fn u(&self) -> (a: Vec3)
        ensures
            a == self.axis@[0],
    {
        self.axis[0]
    }

    pub fn v(&self) -> (a: Vec3)
        ensures
            a == self.axis@[1],
    {
        self.axis[1]
    }

    pub fn w(&self) -> (a: Vec3)
        ensures
            a == self.axis@[2],
    {
        self.axis[2]
    }
}

} // verus!
