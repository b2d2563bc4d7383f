//! Renders a raster image as text in a monospace font.
//!
//! Two renderers are offered. The `simple` renderer maps each pixel's
//! luminance to a character drawn from a lightness-ordered character set.
//! The `subpixel` renderer resamples the image into small luminance patches
//! and picks, for every output cell, the glyph of a bitmap font whose own
//! resampled luminance pattern is closest to the patch.
//!
//! Luminance is carried everywhere as a byte: `0` is darkest, `255` is
//! brightest, so a value `v` stands for the normalized luminance `v / 255`.

pub mod font;
pub mod kernel;
pub mod luma;
pub mod picture;
pub mod resample;
pub mod simple;
pub mod subpixel;
pub mod text;
