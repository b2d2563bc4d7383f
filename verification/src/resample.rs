//! Resampling of pixel grids, done by the `image` crate behind trusted
//! wrappers.
//!
//! Each resampled result is a pure function of the pixel bytes and the sizes
//! handed in, so it is given a name (an uninterpreted spec function) that the
//! wrapper's contract equates the result with; contracts downstream speak of
//! that name.

use vstd::prelude::*;

verus! {

/// The luminance grid that Lanczos3 resampling of an RGB image (3 bytes per
/// pixel, row-major) of size `w` x `h` to size `nw` x `nh`, followed by the
/// standard RGB-to-luma transform, produces.
pub uninterp spec fn lanczos_luma_spec(rgb: Seq<u8>, w: int, h: int, nw: int, nh: int) -> Seq<u8>;

/// The grayscale grid that Gaussian resampling of a grayscale image
/// (1 byte per pixel, row-major) of size `w` x `h` to size `nw` x `nh`
/// produces.
pub uninterp spec fn gaussian_gray_spec(gray: Seq<u8>, w: int, h: int, nw: int, nh: int) -> Seq<u8>;

/// The luminance grid, with its width and height, that aspect-preserving
/// Gaussian resampling of an RGB image of size `w` x `h` into the bounds
/// `mw` x `mh`, followed by the standard RGB-to-luma transform, produces.
pub uninterp spec fn gaussian_fit_luma_spec(rgb: Seq<u8>, w: int, h: int, mw: int, mh: int) -> (
    Seq<u8>,
    int,
    int,
);

/// Relies on image::DynamicImage::resize_exact with the Lanczos3 filter and
/// on DynamicImage::to_luma8: the result is an `nw` x `nh` luminance buffer
/// and depends on the pixel bytes and the sizes alone.
#[verifier::external_body]
pub(crate) fn resize_exact_luma(rgb: &Vec<u8>, w: u32, h: u32, nw: u32, nh: u32) -> (r: Vec<u8>)
    requires
        rgb@.len() == 3 * w * h,
        w >= 1,
        h >= 1,
        nw >= 1,
        nh >= 1,
    ensures
        r@ == lanczos_luma_spec(rgb@, w as int, h as int, nw as int, nh as int),
        r@.len() == nw * nh,
{
    let buf = image::RgbImage::from_raw(w, h, rgb.clone()).unwrap();
    let img = image::DynamicImage::ImageRgb8(buf);
    img.resize_exact(nw, nh, image::imageops::FilterType::Lanczos3).to_luma8().into_raw()
}

/// Relies on image::imageops::resize with the Gaussian filter on a grayscale
/// image: the result is an `nw` x `nh` grayscale buffer and depends on the
/// pixel bytes and the sizes alone.
#[verifier::external_body]
pub(crate) fn resize_gaussian_gray(gray: &Vec<u8>, w: u32, h: u32, nw: u32, nh: u32) -> (r: Vec<
    u8,
>)
    requires
        gray@.len() == w * h,
        w >= 1,
        h >= 1,
        nw >= 1,
        nh >= 1,
    ensures
        r@ == gaussian_gray_spec(gray@, w as int, h as int, nw as int, nh as int),
        r@.len() == nw * nh,
{
    let buf = image::GrayImage::from_raw(w, h, gray.clone()).unwrap();
    image::imageops::resize(&buf, nw, nh, image::imageops::FilterType::Gaussian).into_raw()
}

/// Relies on image::DynamicImage::resize with the Gaussian filter and on
/// DynamicImage::to_luma8: the image is scaled, aspect ratio preserved, to
/// the largest size that fits within `mw` x `mh` (never smaller than 1 x 1),
/// and the resulting luminance buffer, returned with its width and height,
/// depends on the pixel bytes and the sizes alone.
#[verifier::external_body]
pub(crate) fn resize_fit_luma(rgb: &Vec<u8>, w: u32, h: u32, mw: u32, mh: u32) -> (r: (
    Vec<u8>,
    u32,
    u32,
))
    requires
        rgb@.len() == 3 * w * h,
        w >= 1,
        h >= 1,
        mw >= 1,
        mh >= 1,
    ensures
        r.0@ == gaussian_fit_luma_spec(rgb@, w as int, h as int, mw as int, mh as int).0,
        r.1 as int == gaussian_fit_luma_spec(rgb@, w as int, h as int, mw as int, mh as int).1,
        r.2 as int == gaussian_fit_luma_spec(rgb@, w as int, h as int, mw as int, mh as int).2,
        r.0@.len() == r.1 * r.2,
        1 <= r.1 <= mw,
        1 <= r.2 <= mh,
{
    let buf = image::RgbImage::from_raw(w, h, rgb.clone()).unwrap();
    let img = image::DynamicImage::ImageRgb8(buf);
    let small = img.resize(mw, mh, image::imageops::FilterType::Gaussian).to_luma8();
    let (sw, sh) = small.dimensions();
    (small.into_raw(), sw, sh)
}

} // verus!
