use vstd::prelude::*;
use crate::math::scalar::Scalar;

verus! {

/// The number of bytes of a pixel.
pub const CHANNELS: usize = 3;

/// A decoded picture: rows from the top, pixels from the left, three bytes
/// (red, green, blue) each.
pub struct Image {
    pub data: Vec<u8>,
    pub width: u32,
    pub height: u32,
    pub bytes_per_scanline: usize,
}

impl Image {
    /// The picture is not empty, and its buffer holds all of its rows.
    pub open spec fn wf(&self) -> bool {
        &&& self.width > 0
        &&& self.height > 0
        &&& self.width <= i32::MAX
        &&& self.height <= i32::MAX
        &&& self.bytes_per_scanline == CHANNELS * self.width
        &&& self.data@.len() == self.height * self.bytes_per_scanline
    }

    /// The column or row in which a pixel is looked up: the last one where
    /// the index lies beyond.
    pub open spec fn held(index: int, count: int) -> int {
        if index >= count {
            count - 1
        } else {
            index
        }
    }

    /// Where the pixel in column `i` of row `j` starts in the buffer.
    pub open spec fn offset_of(&self, i: int, j: int) -> int {
        j * self.bytes_per_scanline + i * CHANNELS
    }

    /// The picture of the given size over a decoded buffer; none where the
    /// picture would be empty or the buffer has another length than three
    /// bytes for each pixel.
    pub fn new(width: u32, height: u32, data: Vec<u8>) -> (r: Option<Self>)
        ensures
            r is Some <==> 0 < width <= i32::MAX && 0 < height <= i32::MAX && data@.len()
                == CHANNELS * width * height,
            r is Some ==> r.unwrap().wf() && r.unwrap().data == data && r.unwrap().width == width
                && r.unwrap().height == height,
    {
        if width == 0 || height == 0 || width > i32::MAX as u32 || height > i32::MAX as u32 {
            return None;
        }
        let row: u64 = CHANNELS as u64 * width as u64;
        assert(row * height <= 3 * 0x7fff_ffff * 0x7fff_ffff) by (nonlinear_arith)
            requires
                row <= 3 * 0x7fff_ffff,
                height <= 0x7fff_ffff,
        ;
        let all: u64 = row * height as u64;
        assert(CHANNELS * width * height == row * height) by (nonlinear_arith)
            requires
                row == CHANNELS * width,
        ;
        if data.len() as u64 != all {
            return None;
        }
        assert(row <= all) by (nonlinear_arith)
            requires
                all == row * height,
                height >= 1,
        ;
        assert(height * (row as usize) == row * height) by (nonlinear_arith)
            requires
                row as usize == row,
        ;
        Some(Self { data, width, height, bytes_per_scanline: row as usize })
    }

    /// The texture coordinate held to `[0, 1]`.
    pub fn clamp_coordinate(c: Scalar) -> (r: Scalar)
        ensures
            r == c.clamped(Scalar { bits: 0 }, Scalar { bits: crate::math::scalar::ONE_BITS }),
    {
        c.clamp(Scalar::zero(), Scalar::one())
    }

    /// The pixel nearest to a place in the picture: `i` counts columns from the
    /// left and `j` rows from the top, each held to the last one.
    pub fn texel(&self, i: i32, j: i32) -> (pixel: (u8, u8, u8))
        requires
            self.wf(),
            i >= 0,
            j >= 0,
        ensures
            ({
                let at = self.offset_of(
                    Self::held(i as int, self.width as int),
                    Self::held(j as int, self.height as int),
                );
                &&& 0 <= at
                &&& at + 2 < self.data@.len()
                &&& pixel == (self.data@[at], self.data@[at + 1], self.data@[at + 2])
            }),
    {
        let mut i: i32 = i;
        let mut j: i32 = j;
        if i >= self.width as i32 {
            i = self.width as i32 - 1;
        }
        if j >= self.height as i32 {
            j = self.height as i32 - 1;
        }
        let row: usize = j as usize;
        let column: usize = i as usize;
        assert(self.data@.len() == self.data.len());
        assert(row * self.bytes_per_scanline + column * 3 + 3 <= self.height
            * self.bytes_per_scanline) by (nonlinear_arith)
            requires
                row < self.height,
                column < self.width,
                self.bytes_per_scanline == 3 * self.width,
        ;
        assert(0 <= row * self.bytes_per_scanline <= self.height * self.bytes_per_scanline)
            by (nonlinear_arith)
            requires
                0 <= row < self.height,
                0 <= self.bytes_per_scanline,
        ;
        let offset: usize = row * self.bytes_per_scanline + column * CHANNELS;
        (self.data[offset], self.data[offset + 1], self.data[offset + 2])
    }
}

} // verus!
