//! Images as grids of 3-channel 8-bit pixels.

use vstd::prelude::*;

verus! {

/// One pixel: red, green and blue channel values.
#[derive(Clone, Copy, Debug, PartialEq, Eq, Structural)]
pub struct Pixel {
    pub r: u8,
    pub g: u8,
    pub b: u8,
}

/// A 2D grid of pixels, stored row-major: the pixel at column `x`, row `y`
/// sits at index `y * width + x`. Well-formed when the buffer length equals
/// `width * height`.
pub struct Image {
    pub width: u32,
    pub height: u32,
    pub pixels: Vec<Pixel>,
}

impl View for Image {
    type V = Seq<Pixel>;

    open spec fn view(&self) -> Seq<Pixel> {
        self.pixels@
    }
}

impl Image {
    /// The pixel buffer holds exactly one pixel per grid cell.
    pub open spec fn wf(self) -> bool {
        self.pixels@.len() == self.width as int * self.height as int
    }

    /// Builds an image from a row-major pixel buffer; `None` exactly when the
    /// buffer length does not equal `width * height`.
    pub fn from_pixels(width: u32, height: u32, pixels: Vec<Pixel>) -> (r: Option<Image>)
        ensures
            r is Some <==> pixels@.len() == width as int * height as int,
            r matches Some(img) ==> img.wf() && img.width == width && img.height == height
                && img@ == pixels@,
    {
        proof {
            vstd::arithmetic::mul::lemma_mul_upper_bound(
                width as int, u32::MAX as int, height as int, u32::MAX as int);
        }
        let expected: u64 = width as u64 * height as u64;
        if pixels.len() as u64 == expected {
            Some(Image { width, height, pixels })
        } else {
            None
        }
    }

    /// The number of pixels in the grid.
    pub fn pixel_count(&self) -> (n: usize)
        ensures
            n == self@.len(),
    {
        self.pixels.len()
    }

    /// The pixel at row-major index `i`.
    pub fn pixel_index(&self, i: usize) -> (p: Pixel)
        requires
            i < self@.len(),
        ensures
            p == self@[i as int],
    {
        self.pixels[i]
    }

    /// The pixel at column `x`, row `y`.
    pub fn pixel_at(&self, x: u32, y: u32) -> (p: Pixel)
        requires
            self.wf(),
            x < self.width,
            y < self.height,
        ensures
            p == self@[y as int * self.width as int + x as int],
    {
        let n = self.pixels.len();
        proof {
            vstd::arithmetic::mul::lemma_mul_inequality(
                y as int, self.height as int - 1, self.width as int);
            vstd::arithmetic::mul::lemma_mul_is_distributive_sub_other_way(
                self.width as int, self.height as int, 1);
            assert((y as int) * (self.width as int) + (x as int) < (n as int));
        }
        let i: usize = (y as usize) * (self.width as usize) + (x as usize);
        self.pixels[i]
    }
}

} // verus!
