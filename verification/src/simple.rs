//! The flat charset-by-brightness renderer: each pixel's luminance picks a
//! character from a lightness-ordered character set, with no kernel matching.

use vstd::prelude::*;

use crate::luma::{apply_invert, apply_invert_spec};
use crate::picture::SourceImage;
use crate::resample::{gaussian_fit_luma_spec, resize_fit_luma};
use crate::text::{ascii_chars, ascii_to_string, trim_spec, trim_trailing_spaces};

verus! {

/// A lightness-ordered set of renderable ASCII characters, darkest first.
pub struct Charset {
    chars: Vec<u8>,
}

impl View for Charset {
    type V = Seq<u8>;

    closed spec fn view(&self) -> Seq<u8> {
        self.chars@
    }
}

/// Index into the character set that a luminance byte maps to, linearly.
pub open spec fn charset_index_spec(chars: Seq<u8>, lightness: u8) -> int {
    lightness * (chars.len() - 1) / 255
}

/// The character that a luminance byte maps to.
pub open spec fn charset_char_spec(chars: Seq<u8>, lightness: u8) -> u8 {
    chars[charset_index_spec(chars, lightness)]
}

/// The default character set, darkest to lightest.
pub open spec fn default_charset_spec() -> Seq<u8> {
    seq![
        0x20u8,
        0x20u8,
        0x2Eu8,
        0x60u8,
        0x2Cu8,
        0x2Du8,
        0x3Du8,
        0x2Bu8,
        0x3Au8,
        0x3Bu8,
        0x23u8,
        0x25u8,
        0x26u8,
        0x40u8,
    ]
}

impl Charset {
    /// The set holds at least one character, all of them ASCII, and is small
    /// enough that the index arithmetic fits the machine word.
    pub open spec fn wf(&self) -> bool {
        &&& 1 <= self@.len()
        &&& 255 * (self@.len() - 1) <= usize::MAX
        &&& forall|i: int| 0 <= i < self@.len() ==> (#[trigger] self@[i]) < 0x80
    }

    pub fn new(chars: Vec<u8>) -> (c: Charset)
        requires
            1 <= chars@.len(),
            255 * (chars@.len() - 1) <= usize::MAX,
            forall|i: int| 0 <= i < chars@.len() ==> (#[trigger] chars@[i]) < 0x80,
        ensures
            c.wf(),
            c@ == chars@,
    {
        Charset { chars }
    }

    /// The character the luminance byte maps to: the set is indexed linearly
    /// from darkest at luminance 0 to lightest at luminance 255.
    pub fn get_char_by_lightness(&self, lightness: u8) -> (c: u8)
        requires
            self.wf(),
        ensures
            c == charset_char_spec(self@, lightness),
    {
        let n = self.chars.len();
        proof {
            assert((lightness as int) * (n as int - 1) <= 255 * (n as int - 1) && 0 <= (
            lightness as int) * (n as int - 1) && (lightness as int) * (n as int - 1) / 255 <= (
            n as int - 1)) by (nonlinear_arith)
                requires
                    lightness as int <= 255,
                    n as int >= 1,
            ;
        }
        let idx = (lightness as usize) * (n - 1) / 255;
        self.chars[idx]
    }
}

impl Default for Charset {
    /// The default character set.
    fn default() -> (c: Charset)
        ensures
            c.wf(),
            c@ == default_charset_spec(),
    {
        let chars: Vec<u8> = vec![
            0x20u8, 0x20, 0x2E, 0x60, 0x2C, 0x2D, 0x3D, 0x2B, 0x3A, 0x3B, 0x23, 0x25, 0x26, 0x40,
        ];
        proof {
            assert(chars@ =~= default_charset_spec());
        }
        Charset { chars }
    }
}

/// The characters of row `y` of the resized luminance grid, one per pixel.
pub open spec fn simple_row_spec(
    chars: Seq<u8>,
    grid: Seq<u8>,
    gw: int,
    y: int,
    invert: bool,
) -> Seq<u8> {
    Seq::new(gw as nat, |x: int| charset_char_spec(chars, apply_invert_spec(grid[y * gw + x], invert)))
}

/// The output lines of the simple renderer: the image is resampled, aspect
/// ratio preserved, into the `mw` x `mh` bounds, and each resulting pixel
/// row becomes one line, trimmed of trailing spaces.
pub open spec fn simple_lines_spec(
    chars: Seq<u8>,
    rgb: Seq<u8>,
    iw: int,
    ih: int,
    mw: int,
    mh: int,
    invert: bool,
) -> Seq<Seq<u8>> {
    let g = gaussian_fit_luma_spec(rgb, iw, ih, mw, mh);
    Seq::new(g.2 as nat, |y: int| trim_spec(simple_row_spec(chars, g.0, g.1, y, invert)))
}

/// Renders the image as text: one character per pixel of the resized image,
/// each row a line with trailing spaces trimmed.
pub fn convert(img: &SourceImage, size: (u32, u32), charset: &Charset, invert: bool) -> (lines:
    Vec<String>)
    requires
        img.wf(),
        charset.wf(),
        size.0 >= 1,
        size.1 >= 1,
    ensures
        lines@.len() == simple_lines_spec(
            charset@,
            img.rgb@,
            img.width as int,
            img.height as int,
            size.0 as int,
            size.1 as int,
            invert,
        ).len(),
        forall|y: int|
            0 <= y < lines@.len() ==> (#[trigger] lines@[y])@ == ascii_chars(
                simple_lines_spec(
                    charset@,
                    img.rgb@,
                    img.width as int,
                    img.height as int,
                    size.0 as int,
                    size.1 as int,
                    invert,
                )[y],
            ),
{
    let ghost gs = gaussian_fit_luma_spec(
        img.rgb@,
        img.width as int,
        img.height as int,
        size.0 as int,
        size.1 as int,
    );
    let r = resize_fit_luma(&img.rgb, img.width, img.height, size.0, size.1);
    let grid = r.0;
    let nw: usize = r.1 as usize;
    let nh: usize = r.2 as usize;
    let glen: usize = grid.len();
    let mut lines: Vec<String> = Vec::new();
    let mut y: usize = 0;
    while y < nh
        invariant
            charset.wf(),
            grid@ == gs.0,
            nw as int == gs.1,
            nh as int == gs.2,
            grid@.len() == glen,
            glen == (nw as int) * (nh as int),
            nw >= 1,
            y <= nh,
            lines@.len() == y,
            forall|j: int|
                0 <= j < y ==> (#[trigger] lines@[j])@ == ascii_chars(
                    trim_spec(simple_row_spec(charset@, gs.0, nw as int, j, invert)),
                ),
        decreases nh - y,
    {
        let ghost row_spec = simple_row_spec(charset@, gs.0, nw as int, y as int, invert);
        let mut row: Vec<u8> = Vec::new();
        let mut x: usize = 0;
        while x < nw
            invariant
                charset.wf(),
                grid@ == gs.0,
                nw as int == gs.1,
                nh as int == gs.2,
                grid@.len() == glen,
                glen == (nw as int) * (nh as int),
                nw >= 1,
                y < nh,
                x <= nw,
                row_spec == simple_row_spec(charset@, gs.0, nw as int, y as int, invert),
                row@.len() == x,
                forall|j: int| 0 <= j < x ==> row@[j] == row_spec[j],
                forall|j: int| 0 <= j < x ==> row@[j] < 0x80,
            decreases nw - x,
        {
            proof {
                assert((y as int) * (nw as int) + (x as int) < (nw as int) * (nh as int) && (
                y as int) * (nw as int) <= (nw as int) * (nh as int)) by (nonlinear_arith)
                    requires
                        0 <= x < nw as int,
                        0 <= y < nh as int,
                ;
            }
            let idx = y * nw + x;
            let v = grid[idx];
            let c = charset.get_char_by_lightness(apply_invert(v, invert));
            proof {
                assert(charset_index_spec(charset@, apply_invert_spec(v, invert)) < charset@.len())
                    by (nonlinear_arith)
                    requires
                        charset@.len() >= 1,
                ;
            }
            row.push(c);
            x = x + 1;
        }
        proof {
            assert(row@ =~= row_spec);
            crate::text::lemma_trimmed_len_bounds(row@);
        }
        let trimmed = trim_trailing_spaces(row);
        let line = ascii_to_string(trimmed);
        lines.push(line);
        y = y + 1;
    }
    proof {
        assert(lines@.len() == simple_lines_spec(
            charset@,
            img.rgb@,
            img.width as int,
            img.height as int,
            size.0 as int,
            size.1 as int,
            invert,
        ).len());
    }
    lines
}

} // verus!
