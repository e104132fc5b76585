//! Uncompressed RGBA pixel buffers.
use vstd::prelude::*;

verus! {

/// An RGBA image: `width * height` pixels, four bytes each, row by row.
pub struct Bitmap {
    pub width: u32,
    pub height: u32,
    pub pixels: Vec<u8>,
}

impl Bitmap {
    /// The buffer holds exactly four bytes for every pixel.
    pub open spec fn wf(&self) -> bool {
        self.pixels@.len() == self.width * self.height * 4
    }

    /// Wraps a buffer when its length matches the dimensions.
    pub fn from_rgba(width: u32, height: u32, pixels: Vec<u8>) -> (r: Option<Bitmap>)
        ensures
            r is Some <==> pixels@.len() == width * height * 4,
            r matches Some(b) ==> b.width == width && b.height == height && b.pixels@ == pixels@,
    {
        assert(width as u128 * height as u128 * 4 <= u128::MAX) by (nonlinear_arith)
            requires
                width <= u32::MAX,
                height <= u32::MAX,
        ;
        let expected: u128 = width as u128 * height as u128 * 4;
        if pixels.len() as u128 == expected {
            Some(Bitmap { width, height, pixels })
        } else {
            None
        }
    }
}

} // verus!
