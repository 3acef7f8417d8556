use vstd::prelude::*;
use crate::math::scalar::Scalar;
use crate::math::vec3::{Color, Point3};

verus! {

/// One colour everywhere.
#[derive(Clone, Copy, Debug)]
pub struct SolidColor {
    pub value: Color,
}

impl SolidColor {
    pub fn new(c: Color) -> (t: Self)
        ensures
            t.value == c,
    {
        Self { value: c }
    }

    /// The colour, whatever the place.
    pub fn sample(&self, u: Scalar, v: Scalar, p: &Point3) -> (c: Color)
        ensures
            c == self.value,
    {
        self.value
    }
}

} // verus!
