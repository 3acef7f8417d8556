use vstd::prelude::*;
use crate::math::scalar::Scalar;
use crate::math::vec3::Color;
use crate::texture::solidcolor::SolidColor;

verus! {

/// A checkerboard in space, of two textures.
pub struct CheckerPattern<T> {
    pub even: T,
    pub odd: T,
}

impl<T> CheckerPattern<T> {
    pub fn from_textures(even: T, odd: T) -> (t: Self)
        ensures
            t.even == even,
            t.odd == odd,
    {
        Self { even, odd }
    }

    /// The texture of the cell in which a point lies. `sines` is the product
    /// of the sines of ten times each coordinate of the point: the odd texture
    /// where it is below zero, the even one otherwise.
    pub fn select(&self, sines: Scalar) -> (t: &T)
        ensures
            *t == if sines.precedes(Scalar { bits: 0 }) {
                self.odd
            } else {
                self.even
            },
    {
        if sines.lt(Scalar::zero()) {
            &self.odd
        } else {
            &self.even
        }
    }
}

impl CheckerPattern<SolidColor> {
    pub fn from_colors(even: Color, odd: Color) -> (t: Self)
        ensures
            t.even.value == even,
            t.odd.value == odd,
    {
        Self { even: SolidColor::new(even), odd: SolidColor::new(odd) }
    }
}

} // verus!
