//! Distributions of directions, as far as they are decided by comparing scalars.

use vstd::prelude::*;
use crate::math::scalar::{Scalar, HALF_BITS};
use crate::math::vec3::Vec3;

verus! {

/// The cosine-weighted distribution around a normal.
pub struct CosinePdf;

impl CosinePdf {
    /// The density of a direction: zero where its cosine with the normal is
    /// not above zero, `density` (the cosine over pi) otherwise.
    pub open spec fn density_for(cosine: Scalar, density: Scalar) -> Scalar {
        if cosine.at_most(Scalar { bits: 0 }) {
            Scalar { bits: 0 }
        } else {
            density
        }
    }

    /// The density of a direction whose cosine with the normal is `cosine`;
    /// `density` is that cosine over pi.
    pub fn value(cosine: Scalar, density: Scalar) -> (r: Scalar)
        ensures
            r == Self::density_for(cosine, density),
    {
        if cosine.le(Scalar::zero()) {
            Scalar::zero()
        } else {
            density
        }
    }
}

/// An even mixture of two distributions.
pub struct MixturePdf<P> {
    pub pdfs: [P; 2],
}

impl<P> MixturePdf<P> {
    /// Which of the two distributions a sample from `[0, 1)` selects: the
    /// first below one half, the second otherwise.
    pub open spec fn selected(sample: Scalar) -> int {
        if sample.precedes(Scalar { bits: HALF_BITS }) {
            0
        } else {
            1
        }
    }

    pub fn new(pdf0: P, pdf1: P) -> (m: Self)
        ensures
            m.pdfs@ == seq![pdf0, pdf1],
    {
        Self { pdfs: [pdf0, pdf1] }
    }

    /// The distribution that `sample` selects.
    pub fn select(&self, sample: Scalar) -> (pdf: &P)
        ensures
            *pdf == self.pdfs@[Self::selected(sample)],
    {
        if sample.lt(Scalar::from_bits(HALF_BITS)) {
            &self.pdfs[0]
        } else {
            &self.pdfs[1]
        }
    }

    /// A direction drawn from the mixture: `sample` selects one of the two
    /// distributions, and `draw` draws from the one at the index it is given.
    /// The other one is not asked.
    pub fn generate<F: Fn(usize) -> Vec3>(&self, sample: Scalar, draw: &F) -> (v: Vec3)
        requires
            forall|i: usize| i < 2 ==> call_requires(*draw, (i,)),
        ensures
            call_ensures(*draw, (Self::selected(sample) as usize,), v),
    {
        if sample.lt(Scalar::from_bits(HALF_BITS)) {
            draw(0)
        } else {
            draw(1)
        }
    }
}

} // verus!
