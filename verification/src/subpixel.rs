//! The subpixel glyph-matching renderer.
//!
//! The source image is resampled to a grid of `4 * width` by `4 * height`
//! luminance bytes, one kernel-sized patch per cell. For every output cell the
//! kernel-sized patch under it is extracted and the glyph whose kernel is
//! closest in L1 distance is selected; rows are trimmed of trailing spaces
//! and returned as lines.

use vstd::prelude::*;

use crate::font::{
    chosen_code_spec, font_codes_spec, font_kernels_spec, lemma_best_index_minimal, GlyphTable,
};
use crate::kernel::{Kernel, KERNEL_AREA};
use crate::luma::{apply_invert, apply_invert_spec, invert_spec};
use crate::picture::SourceImage;
use crate::resample::{lanczos_luma_spec, resize_exact_luma};
use crate::text::{ascii_chars, ascii_to_string, trim_spec, trim_trailing_spaces};

verus! {

/// The kernel-sized luminance patch of cell `(cx, cy)` of a grid of width
/// `gw`, with the invert flag applied to every value.
pub open spec fn patch_spec(grid: Seq<u8>, gw: int, cx: int, cy: int, invert: bool) -> Seq<u8> {
    Seq::new(
        KERNEL_AREA as nat,
        |i: int| apply_invert_spec(grid[(4 * cy + i / 4) * gw + 4 * cx + i % 4], invert),
    )
}

/// The matched character codes of output row `cy`: one per cell, each the
/// closest glyph to the cell's patch.
pub open spec fn row_codes_spec(
    font: Seq<u8>,
    grid: Seq<u8>,
    gw: int,
    cy: int,
    width: int,
    invert: bool,
) -> Seq<u8> {
    Seq::new(
        width as nat,
        |x: int|
            chosen_code_spec(
                font_codes_spec(font.len() as int),
                font_kernels_spec(font),
                patch_spec(grid, gw, x, cy, invert),
            ),
    )
}

/// The output lines rendered from a luminance grid of `4 * w` by `4 * h`
/// bytes: `h` rows of `w` matched characters, each trimmed of trailing
/// spaces.
pub open spec fn grid_lines_spec(font: Seq<u8>, grid: Seq<u8>, w: int, h: int, invert: bool) -> Seq<
    Seq<u8>,
> {
    Seq::new(h as nat, |y: int| trim_spec(row_codes_spec(font, grid, 4 * w, y, w, invert)))
}

/// The output lines of the subpixel renderer for an RGB image of `iw` x `ih`
/// pixels, an output size of `w` x `h` cells, the given font data and invert
/// flag.
pub open spec fn subpixel_lines_spec(
    rgb: Seq<u8>,
    iw: int,
    ih: int,
    w: int,
    h: int,
    font: Seq<u8>,
    invert: bool,
) -> Seq<Seq<u8>> {
    grid_lines_spec(font, lanczos_luma_spec(rgb, iw, ih, 4 * w, 4 * h), w, h, invert)
}

/// Extracts the patch of cell `(x, y)` from the luminance grid.
fn extract_patch(grid: &Vec<u8>, gw: usize, x: usize, y: usize, invert: bool) -> (k: Kernel)
    requires
        4 * x + 4 <= gw,
        (4 * (y as int) + 4) * (gw as int) <= grid@.len(),
    ensures
        k.wf(),
        k@ == patch_spec(grid@, gw as int, x as int, y as int, invert),
{
    proof {
        assert(4 * (y as int) + 4 <= grid@.len()) by (nonlinear_arith)
            requires
                (4 * (y as int) + 4) * (gw as int) <= grid@.len(),
                gw as int >= 4,
        ;
    }
    let glen: usize = grid.len();
    let mut vals: Vec<u8> = Vec::new();
    let mut i: usize = 0;
    while i < KERNEL_AREA
        invariant
            4 * x + 4 <= gw,
            (4 * (y as int) + 4) * (gw as int) <= grid@.len(),
            4 * (y as int) + 4 <= grid@.len(),
            grid@.len() == glen,
            i <= KERNEL_AREA,
            vals@.len() == i,
            forall|j: int|
                0 <= j < i ==> vals@[j] == patch_spec(
                    grid@,
                    gw as int,
                    x as int,
                    y as int,
                    invert,
                )[j],
        decreases KERNEL_AREA - i,
    {
        let sy = i / 4;
        let sx = i % 4;
        proof {
            assert((4 * (y as int) + sy) * (gw as int) + 4 * (x as int) + sx < grid@.len() && 4 * (
            y as int) + sy <= grid@.len() && (4 * (y as int) + sy) * (gw as int) <= grid@.len())
                by (nonlinear_arith)
                requires
                    0 <= sy < 4,
                    0 <= sx < 4,
                    4 * (x as int) + 4 <= gw as int,
                    (4 * (y as int) + 4) * (gw as int) <= grid@.len(),
                    y >= 0,
                    x >= 0,
            ;
        }
        let idx = (4 * y + sy) * gw + 4 * x + sx;
        let v = grid[idx];
        vals.push(apply_invert(v, invert));
        i = i + 1;
    }
    let k = Kernel::from_vals(vals);
    proof {
        assert(k@ =~= patch_spec(grid@, gw as int, x as int, y as int, invert));
    }
    k
}

/// Renders the image as `size.1` lines of up to `size.0` characters each:
/// per cell, the glyph of the font closest in luminance to the cell's patch,
/// ties going to the lowest character code, with trailing spaces trimmed
/// from every line.
pub fn convert(img: &SourceImage, size: (u32, u32), font: &[u8], invert: bool) -> (lines: Vec<
    String,
>)
    requires
        img.wf(),
        size.0 >= 1,
        size.1 >= 1,
        4 * size.0 <= u32::MAX,
        4 * size.1 <= u32::MAX,
        16 * (size.0 as int) * (size.1 as int) <= usize::MAX,
    ensures
        lines@.len() == size.1,
        forall|y: int|
            0 <= y < size.1 ==> (#[trigger] lines@[y])@ == ascii_chars(
                subpixel_lines_spec(
                    img.rgb@,
                    img.width as int,
                    img.height as int,
                    size.0 as int,
                    size.1 as int,
                    font@,
                    invert,
                )[y],
            ),
{
    let table = GlyphTable::from_font(font);
    let gw: u32 = 4 * size.0;
    let gh: u32 = 4 * size.1;
    proof {
        assert((gw as int) * (gh as int) == 16 * (size.0 as int) * (size.1 as int))
            by (nonlinear_arith)
            requires
                gw as int == 4 * (size.0 as int),
                gh as int == 4 * (size.1 as int),
        ;
    }
    let grid = resize_exact_luma(&img.rgb, img.width, img.height, gw, gh);
    let ghost gspec = lanczos_luma_spec(
        img.rgb@,
        img.width as int,
        img.height as int,
        gw as int,
        gh as int,
    );
    let gwu: usize = gw as usize;
    let w: usize = size.0 as usize;
    let h: usize = size.1 as usize;
    let mut lines: Vec<String> = Vec::new();
    let mut y: usize = 0;
    while y < h
        invariant
            table.wf(),
            table.codes() == font_codes_spec(font@.len() as int),
            table.kernels() == font_kernels_spec(font@),
            grid@ == gspec,
            grid@.len() == (gwu as int) * (4 * (h as int)),
            gwu == 4 * w,
            w >= 1,
            h >= 1,
            y <= h,
            lines@.len() == y,
            forall|j: int|
                0 <= j < y ==> (#[trigger] lines@[j])@ == ascii_chars(
                    grid_lines_spec(font@, gspec, w as int, h as int, invert)[j],
                ),
        decreases h - y,
    {
        let ghost row_spec = row_codes_spec(
            font@,
            gspec,
            gwu as int,
            y as int,
            w as int,
            invert,
        );
        let mut row: Vec<u8> = Vec::new();
        let mut x: usize = 0;
        while x < w
            invariant
                table.wf(),
                table.codes() == font_codes_spec(font@.len() as int),
                table.kernels() == font_kernels_spec(font@),
                grid@ == gspec,
                grid@.len() == (gwu as int) * (4 * (h as int)),
                gwu == 4 * w,
                w >= 1,
                h >= 1,
                y < h,
                x <= w,
                row_spec == row_codes_spec(font@, gspec, gwu as int, y as int, w as int, invert),
                row@.len() == x,
                forall|j: int| 0 <= j < x ==> row@[j] == row_spec[j],
                forall|j: int| 0 <= j < x ==> row@[j] < 0x80,
            decreases w - x,
        {
            proof {
                assert((4 * (y as int) + 4) * (gwu as int) <= (gwu as int) * (4 * (h as int)))
                    by (nonlinear_arith)
                    requires
                        y as int + 1 <= h as int,
                        gwu as int >= 0,
                ;
            }
            let patch = extract_patch(&grid, gwu, x, y, invert);
            let c = table.find_closest_char(&patch);
            proof {
                lemma_chosen_code_printable(table.codes(), table.kernels(), patch@);
            }
            row.push(c);
            x = x + 1;
        }
        proof {
            assert(row@ =~= row_spec);
            crate::text::lemma_trimmed_len_bounds(row@);
        }
        let trimmed = trim_trailing_spaces(row);
        let line = ascii_to_string(trimmed);
        lines.push(line);
        proof {
            assert(grid_lines_spec(font@, gspec, w as int, h as int, invert)[y as int]
                == trim_spec(row_spec));
        }
        y = y + 1;
    }
    lines
}

/// Law: every code the matcher can select is a renderable ASCII code: the
/// space fallback, or a code between 0x20 and 0x7E.
pub proof fn lemma_chosen_code_printable(codes: Seq<u8>, kernels: Seq<Seq<u8>>, patch: Seq<u8>)
    requires
        codes.len() == kernels.len(),
        codes.len() <= 0x5E,
        forall|i: int| 0 <= i < codes.len() ==> (#[trigger] codes[i]) == 0x20 + i,
    ensures
        0x20 <= chosen_code_spec(codes, kernels, patch) < 0x7E,
{
    if kernels.len() > 0 {
        lemma_best_index_minimal(kernels, patch, kernels.len() as int);
    }
}

/// A luminance grid with every value inverted.
pub open spec fn invert_grid_spec(grid: Seq<u8>) -> Seq<u8> {
    grid.map_values(|v: u8| invert_spec(v))
}

proof fn lemma_patch_invert(grid: Seq<u8>, w: int, h: int, x: int, y: int)
    requires
        w >= 1,
        h >= 1,
        0 <= x < w,
        0 <= y < h,
        grid.len() == 16 * w * h,
    ensures
        patch_spec(invert_grid_spec(grid), 4 * w, x, y, true) == patch_spec(grid, 4 * w, x, y, false),
{
    let a = patch_spec(invert_grid_spec(grid), 4 * w, x, y, true);
    let b = patch_spec(grid, 4 * w, x, y, false);
    assert forall|i: int| 0 <= i < KERNEL_AREA implies a[i] == b[i] by {
        let idx = (4 * y + i / 4) * (4 * w) + 4 * x + i % 4;
        assert(0 <= idx < 16 * w * h) by (nonlinear_arith)
            requires
                0 <= i / 4 < 4,
                0 <= i % 4 < 4,
                0 <= x < w,
                0 <= y < h,
                w >= 1,
                h >= 1,
                idx == (4 * y + i / 4) * (4 * w) + 4 * x + i % 4,
        ;
        assert(invert_grid_spec(grid)[idx] == invert_spec(grid[idx]));
    }
    assert(a =~= b);
}

/// Law: applying the invert flag to an already-inverted luminance grid
/// reproduces the non-inverted rendering exactly.
pub proof fn lemma_invert_twice(font: Seq<u8>, grid: Seq<u8>, w: int, h: int)
    requires
        w >= 1,
        h >= 1,
        grid.len() == 16 * w * h,
    ensures
        grid_lines_spec(font, invert_grid_spec(grid), w, h, true) == grid_lines_spec(
            font,
            grid,
            w,
            h,
            false,
        ),
{
    let a = grid_lines_spec(font, invert_grid_spec(grid), w, h, true);
    let b = grid_lines_spec(font, grid, w, h, false);
    assert forall|y: int| 0 <= y < h implies a[y] == b[y] by {
        let ra = row_codes_spec(font, invert_grid_spec(grid), 4 * w, y, w, true);
        let rb = row_codes_spec(font, grid, 4 * w, y, w, false);
        assert forall|x: int| 0 <= x < w implies ra[x] == rb[x] by {
            lemma_patch_invert(grid, w, h, x, y);
        }
        assert(ra =~= rb);
    }
    assert(a =~= b);
}

/// Law: the subpixel renderer emits exactly `h` lines, and each line is the
/// trimmed form of a row of exactly `w` matched characters.
pub proof fn lemma_output_shape(
    rgb: Seq<u8>,
    iw: int,
    ih: int,
    w: int,
    h: int,
    font: Seq<u8>,
    invert: bool,
)
    requires
        w >= 1,
        h >= 1,
    ensures
        subpixel_lines_spec(rgb, iw, ih, w, h, font, invert).len() == h,
        forall|y: int|
            0 <= y < h ==> {
                let grid = lanczos_luma_spec(rgb, iw, ih, 4 * w, 4 * h);
                let row = row_codes_spec(font, grid, 4 * w, y, w, invert);
                row.len() == w && #[trigger] subpixel_lines_spec(rgb, iw, ih, w, h, font, invert)[y]
                    == trim_spec(row)
            },
{
}

/// Law: rendering is deterministic — identical image bytes, sizes, font
/// bytes and invert flag give identical output.
pub proof fn lemma_deterministic(
    out1: Seq<Seq<u8>>,
    out2: Seq<Seq<u8>>,
    rgb: Seq<u8>,
    iw: int,
    ih: int,
    w: int,
    h: int,
    font: Seq<u8>,
    invert: bool,
)
    requires
        out1 == subpixel_lines_spec(rgb, iw, ih, w, h, font, invert),
        out2 == subpixel_lines_spec(rgb, iw, ih, w, h, font, invert),
    ensures
        out1 == out2,
{
}

} // verus!
