//! The source image as the encoder sees it: dimensions and RGBA8 samples.

use crate::pixel::Rgba8;
use vstd::prelude::*;

verus! {

/// What a [`Raster`] holds: its dimensions and its samples, four bytes
/// each (red, green, blue, alpha), rows top to bottom and columns left to
/// right.
pub struct RasterView {
    pub width: nat,
    pub height: nat,
    pub rgba: Seq<u8>,
}

impl RasterView {
    /// Both dimensions are positive and fit in 32 bits, and there are four
    /// bytes for every pixel.
    pub open spec fn wf(self) -> bool {
        &&& 0 < self.width <= u32::MAX
        &&& 0 < self.height <= u32::MAX
        &&& self.rgba.len() == 4 * self.width * self.height
    }

    /// The sample in column `x` of row `y`.
    pub open spec fn sample(self, x: int, y: int) -> Rgba8
        recommends
            0 <= x < self.width,
            0 <= y < self.height,
    {
        let at = 4 * (y * self.width + x);
        Rgba8 { r: self.rgba[at], g: self.rgba[at + 1], b: self.rgba[at + 2], a: self.rgba[at + 3] }
    }
}

/// A decoded image: positive dimensions and one RGBA8 sample per pixel.
pub struct Raster {
    width: u32,
    height: u32,
    data: Vec<u8>,
}

impl View for Raster {
    type V = RasterView;

    closed spec fn view(&self) -> RasterView {
        RasterView { width: self.width as nat, height: self.height as nat, rgba: self.data@ }
    }
}

/// The position of a pixel's four bytes lies inside the sample buffer.
pub proof fn lemma_sample_in_bounds(width: int, height: int, x: int, y: int)
    requires
        0 <= x < width,
        0 <= y < height,
    ensures
        0 <= 4 * (y * width + x),
        4 * (y * width + x) + 4 <= 4 * width * height,
{
    assert(y * width + width <= height * width) by (nonlinear_arith)
        requires
            y + 1 <= height,
            width >= 0,
    ;
    assert(4 * width * height == 4 * (height * width)) by (nonlinear_arith);
}

impl Raster {
    #[verifier::type_invariant]
    spec fn inv(&self) -> bool {
        self@.wf()
    }

    /// Takes a sample buffer as an image. `None` unless both dimensions are
    /// positive and the buffer holds exactly four bytes per pixel.
    pub fn new(width: u32, height: u32, data: Vec<u8>) -> (raster: Option<Raster>)
        ensures
            match raster {
                Some(r) => r@ == (RasterView {
                    width: width as nat,
                    height: height as nat,
                    rgba: data@,
                }) && r@.wf(),
                None => !(RasterView {
                    width: width as nat,
                    height: height as nat,
                    rgba: data@,
                }).wf(),
            },
    {
        if width == 0 || height == 0 {
            return None;
        }
        assert(width * height <= 0xFFFF_FFFF * 0xFFFF_FFFF) by (nonlinear_arith)
            requires
                width <= 0xFFFF_FFFF,
                height <= 0xFFFF_FFFF,
        ;
        let pixels: u64 = (width as u64) * (height as u64);
        let wanted: u128 = 4 * (pixels as u128);
        assert(wanted == 4 * width * height) by (nonlinear_arith)
            requires
                wanted == 4 * pixels,
                pixels == width * height,
        ;
        if data.len() as u128 != wanted {
            return None;
        }
        Some(Raster { width, height, data })
    }

    pub fn width(&self) -> (width: u32)
        ensures
            width == self@.width,
            self@.wf(),
    {
        proof {
            use_type_invariant(self);
        }
        self.width
    }

    pub fn height(&self) -> (height: u32)
        ensures
            height == self@.height,
            self@.wf(),
    {
        proof {
            use_type_invariant(self);
        }
        self.height
    }

    /// The sample buffer.
    pub fn data(&self) -> (data: &Vec<u8>)
        ensures
            data@ == self@.rgba,
            self@.wf(),
    {
        proof {
            use_type_invariant(self);
        }
        &self.data
    }

    /// The sample in column `x` of row `y`.
    pub fn get_pixel(&self, x: u32, y: u32) -> (sample: Rgba8)
        requires
            x < self@.width,
            y < self@.height,
        ensures
            sample == self@.sample(x as int, y as int),
    {
        proof {
            use_type_invariant(self);
            lemma_sample_in_bounds(self.width as int, self.height as int, x as int, y as int);
            assert(self.data@.len() == self.data.len());
        }
        let at: usize = 4 * ((y as usize) * (self.width as usize) + (x as usize));
        Rgba8 { r: self.data[at], g: self.data[at + 1], b: self.data[at + 2], a: self.data[at + 3] }
    }
}

} // verus!
