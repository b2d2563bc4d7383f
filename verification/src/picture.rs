//! The decoded source image, held as plain values: RGB bytes, row-major,
//! three bytes per pixel.

use vstd::prelude::*;

verus! {

/// A decoded raster image: `rgb` holds `3 * width * height` bytes, row-major,
/// three bytes (red, green, blue) per pixel.
pub struct SourceImage {
    pub width: u32,
    pub height: u32,
    pub rgb: Vec<u8>,
}

impl SourceImage {
    /// The buffer holds exactly one RGB triple per pixel and the image is
    /// not empty.
    pub open spec fn wf(&self) -> bool {
        &&& self.width >= 1
        &&& self.height >= 1
        &&& self.rgb@.len() == 3 * self.width * self.height
    }

    pub fn new(width: u32, height: u32, rgb: Vec<u8>) -> (img: SourceImage)
        requires
            width >= 1,
            height >= 1,
            rgb@.len() == 3 * width * height,
        ensures
            img.wf(),
            img.width == width,
            img.height == height,
            img.rgb@ == rgb@,
    {
        SourceImage { width, height, rgb }
    }
}

} // verus!
