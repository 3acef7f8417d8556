//! The frame that a render fills, and the finishing of a pixel.

use vstd::prelude::*;
use crate::math::scalar::Scalar;
use crate::math::vec3::{Color, Vec3};

verus! {

/// The number of bytes of a pixel: red, green, blue.
pub const CHANNELS: usize = 3;

/// An image under construction: rows from the top, pixels from the left,
/// three bytes each.
pub struct Frame {
    pub width: usize,
    pub height: usize,
    pub data: Vec<u8>,
}

/// The colour with each component that is NaN put to zero, so that one
/// degenerate sample does not spoil more than its own pixel.
pub open spec fn scrubbed(c: Color) -> Color {
    Vec3 {
        x: if c.x.nan() { Scalar { bits: 0 } } else { c.x },
        y: if c.y.nan() { Scalar { bits: 0 } } else { c.y },
        z: if c.z.nan() { Scalar { bits: 0 } } else { c.z },
    }
}

/// The pattern of `0.999`, the brightest that a channel is allowed to be.
pub const BRIGHTEST_BITS: u64 = 0x3FEF_F7CE_D916_872B;

/// Holds the square root of a channel to `[0, 0.999]`, so that 255 times the
/// result is a byte once its fraction is dropped.
pub fn hold_channel(root: Scalar) -> (r: Scalar)
    ensures
        r == root.clamped(Scalar { bits: 0 }, Scalar { bits: BRIGHTEST_BITS }),
{
    root.clamp(Scalar::zero(), Scalar::from_bits(BRIGHTEST_BITS))
}

/// Replaces what is NaN in a pixel's mean colour by zero.
pub fn scrub(c: Color) -> (r: Color)
    ensures
        r == scrubbed(c),
        !r.x.nan() && !r.y.nan() && !r.z.nan(),
{
    Vec3::new(
        if c.x().is_nan() { Scalar::zero() } else { c.x() },
        if c.y().is_nan() { Scalar::zero() } else { c.y() },
        if c.z().is_nan() { Scalar::zero() } else { c.z() },
    )
}

impl Frame {
    /// The buffer holds every pixel.
    pub open spec fn wf(&self) -> bool {
        self.data@.len() == self.width * self.height * CHANNELS
    }

    /// Where the pixel in column `i` of row `j` starts in the buffer, the rows
    /// being counted from the bottom of the image and stored from its top.
    pub open spec fn offset_of(&self, i: int, j: int) -> int {
        ((self.height - 1 - j) * self.width + i) * CHANNELS
    }

    /// A black frame of the given size; none where its buffer would be longer
    /// than memory can be.
    pub fn new(width: usize, height: usize) -> (r: Option<Self>)
        ensures
            r is Some <==> width * height * CHANNELS <= usize::MAX,
            r is Some ==> {
                let f = r.unwrap();
                &&& f.wf()
                &&& f.width == width
                &&& f.height == height
                &&& forall|k: int| 0 <= k < f.data@.len() ==> f.data@[k] == 0
            },
    {
        let pixels: usize = match width.checked_mul(height) {
            Some(n) => n,
            None => {
                assert(width * height * CHANNELS > usize::MAX) by (nonlinear_arith)
                    requires
                        width * height > usize::MAX,
                ;
                return None;
            },
        };
        let bytes: usize = match pixels.checked_mul(CHANNELS) {
            Some(n) => n,
            None => {
                return None;
            },
        };
        let data: Vec<u8> = vec![0u8; bytes];
        Some(Self { width, height, data })
    }

    /// Writes one pixel. `i` is its column from the left, `j` its row from
    /// the bottom.
    pub fn put(&mut self, i: usize, j: usize, pixel: (u8, u8, u8))
        requires
            old(self).wf(),
            i < old(self).width,
            j < old(self).height,
        ensures
            final(self).wf(),
            final(self).width == old(self).width,
            final(self).height == old(self).height,
            0 <= old(self).offset_of(i as int, j as int),
            old(self).offset_of(i as int, j as int) + 2 < old(self).data@.len(),
            final(self).data@ == old(self).data@.update(
                old(self).offset_of(i as int, j as int),
                pixel.0,
            ).update(old(self).offset_of(i as int, j as int) + 1, pixel.1).update(
                old(self).offset_of(i as int, j as int) + 2,
                pixel.2,
            ),
    {
        let row: usize = self.height - 1 - j;
        assert(self.data@.len() == self.data.len());
        assert(0 <= row * self.width && (row * self.width + i) * 3 + 3 <= self.width * self.height
            * 3) by (nonlinear_arith)
            requires
                0 <= row < self.height,
                0 <= i < self.width,
        ;
        let at: usize = (row * self.width + i) * CHANNELS;
        self.data[at] = pixel.0;
        self.data[at + 1] = pixel.1;
        self.data[at + 2] = pixel.2;
    }

    /// The finished image.
    pub fn into_bytes(self) -> (data: Vec<u8>)
        ensures
            data == self.data,
    {
        self.data
    }
}

/// Every pixel of a frame has its three bytes within the buffer, and two
/// different pixels share none: pixels can be written in any order, and by
/// several hands at once.
pub proof fn lemma_pixels_are_apart(frame: Frame, i: int, j: int, k: int, l: int)
    requires
        frame.wf(),
        0 <= i < frame.width,
        0 <= j < frame.height,
        0 <= k < frame.width,
        0 <= l < frame.height,
        i != k || j != l,
    ensures
        0 <= frame.offset_of(i, j),
        frame.offset_of(i, j) + CHANNELS <= frame.data@.len(),
        frame.offset_of(i, j) + CHANNELS <= frame.offset_of(k, l) || frame.offset_of(k, l)
            + CHANNELS <= frame.offset_of(i, j),
{
    let w = frame.width as int;
    let h = frame.height as int;
    let a = h - 1 - j;
    let b = h - 1 - l;
    assert(0 <= a * w && (a * w + i) * 3 + 3 <= w * h * 3) by (nonlinear_arith)
        requires
            0 <= a < h,
            0 <= i < w,
    ;
    if a < b {
        assert((a * w + i) * 3 + 3 <= (b * w + k) * 3) by (nonlinear_arith)
            requires
                a + 1 <= b,
                0 <= i < w,
                0 <= k,
        ;
    } else if b < a {
        assert((b * w + k) * 3 + 3 <= (a * w + i) * 3) by (nonlinear_arith)
            requires
                b + 1 <= a,
                0 <= k < w,
                0 <= i,
        ;
    }
}

} // verus!
