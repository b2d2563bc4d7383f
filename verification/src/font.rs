//! Glyph kernels built from a monospace bitmap font.
//!
//! The font is a flat byte sequence, eight bytes per character code starting
//! at code 0x20; each byte is a row bitmask whose most significant bit is
//! the leftmost pixel. Every glyph is rasterized to a black/white 8 x 8
//! pixel grid, then resampled down to kernel size with a Gaussian filter.

use vstd::prelude::*;

use crate::kernel::{distance_spec, Kernel, KERNEL_AREA};
use crate::resample::{gaussian_gray_spec, resize_gaussian_gray};

verus! {

/// True when pixel `x` (0 is leftmost, the most significant bit) of the row
/// bitmask `row` is lit.
pub open spec fn glyph_bit(row: u8, x: int) -> bool
    recommends
        0 <= x < 8,
{
    (row >> ((7 - x) as u8)) & 1 == 1
}

/// The black/white pixel grid of the glyph whose rows start at byte `off` of
/// the font data: a lit bit becomes maximum luminance, a clear bit minimum.
pub open spec fn raster_spec(font: Seq<u8>, off: int) -> Seq<u8> {
    Seq::new(
        64,
        |i: int|
            if glyph_bit(font[off + i / 8], i % 8) {
                255u8
            } else {
                0u8
            },
    )
}

/// Number of glyph kernels built from font data of the given byte length:
/// one per code from 0x20 up to the lesser of 0x7E and the number of whole
/// glyph slices the data holds.
pub open spec fn table_len_spec(font_len: int) -> int {
    let n = font_len / 8;
    if n <= 0x20 {
        0
    } else if n >= 0x7E {
        0x5E
    } else {
        n - 0x20
    }
}

/// The kernel of the glyph for character code `code`: its rasterized bitmap,
/// Gaussian-resampled down to kernel size.
pub open spec fn glyph_kernel_spec(font: Seq<u8>, code: int) -> Seq<u8> {
    gaussian_gray_spec(raster_spec(font, code * 8), 8, 8, 4, 4)
}

/// The character codes of the glyph kernel table, in ascending order.
pub open spec fn font_codes_spec(font_len: int) -> Seq<u8> {
    Seq::new(table_len_spec(font_len) as nat, |i: int| (0x20 + i) as u8)
}

/// The glyph kernels of the table, in the order of `font_codes_spec`.
pub open spec fn font_kernels_spec(font: Seq<u8>) -> Seq<Seq<u8>> {
    Seq::new(
        table_len_spec(font.len() as int) as nat,
        |i: int| glyph_kernel_spec(font, 0x20 + i),
    )
}

/// Rasterizes the glyph whose rows start at byte `off` of the font data into
/// a black/white pixel grid, row-major.
pub fn rasterize_glyph(font: &[u8], off: usize) -> (r: Vec<u8>)
    requires
        off + 8 <= font@.len(),
    ensures
        r@ == raster_spec(font@, off as int),
{
    let flen: usize = font.len();
    let mut r: Vec<u8> = Vec::new();
    let mut y: usize = 0;
    while y < 8
        invariant
            off + 8 <= font@.len(),
            font@.len() == flen,
            y <= 8,
            r@.len() == 8 * y,
            forall|i: int| 0 <= i < 8 * y ==> r@[i] == raster_spec(font@, off as int)[i],
        decreases 8 - y,
    {
        let row = font[off + y];
        let mut x: u8 = 0;
        while x < 8
            invariant
                off + 8 <= font@.len(),
                y < 8,
                row == font@[off + y],
                x <= 8,
                r@.len() == 8 * y + x,
                forall|i: int| 0 <= i < 8 * y + x ==> r@[i] == raster_spec(font@, off as int)[i],
            decreases 8 - x,
        {
            let lit = (row << x) & 0x80 != 0;
            assert(((row << x) & 0x80 != 0) == ((row >> ((7 - x) as u8)) & 1 == 1)) by (bit_vector)
                requires
                    x < 8,
            ;
            r.push(if lit {
                255
            } else {
                0
            });
            assert(glyph_bit(font@[off + y], x as int) == lit);
            assert(r@[8 * y + x] == raster_spec(font@, off as int)[8 * y + x]) by {
                assert((8 * y + x) as int / 8 == y && (8 * y + x) as int % 8 == x as int);
            }
            x = x + 1;
        }
        y = y + 1;
    }
    assert(r@ =~= raster_spec(font@, off as int));
    r
}

/// The glyph kernel table: one luminance kernel per renderable character
/// code, codes ascending from 0x20.
pub struct GlyphTable {
    entries: Vec<(u8, Kernel)>,
}

impl GlyphTable {
    /// The character codes of the table, in order.
    pub closed spec fn codes(&self) -> Seq<u8> {
        self.entries@.map_values(|e: (u8, Kernel)| e.0)
    }

    /// The kernels of the table, in the order of `codes`.
    pub closed spec fn kernels(&self) -> Seq<Seq<u8>> {
        self.entries@.map_values(|e: (u8, Kernel)| e.1@)
    }

    /// Codes ascend from 0x20 and every kernel has kernel dimensions.
    pub open spec fn wf(&self) -> bool {
        &&& self.codes().len() == self.kernels().len()
        &&& forall|i: int|
            0 <= i < self.codes().len() ==> (#[trigger] self.codes()[i]) == 0x20 + i
        &&& forall|i: int|
            0 <= i < self.kernels().len() ==> (#[trigger] self.kernels()[i]).len() == KERNEL_AREA
    }

    pub fn len(&self) -> (n: usize)
        ensures
            n == self.codes().len(),
    {
        self.entries.len()
    }

    /// Builds the table from font data: one kernel per code from 0x20 up to
    /// the lesser of 0x7E and the number of whole glyph slices the data
    /// holds; codes whose slice is not fully present are skipped.
    pub fn from_font(font: &[u8]) -> (t: GlyphTable)
        ensures
            t.wf(),
            t.codes() == font_codes_spec(font@.len() as int),
            t.kernels() == font_kernels_spec(font@),
    {
        let mut entries: Vec<(u8, Kernel)> = Vec::new();
        let n = font.len() / 8;
        let end: usize = if n >= 0x7E {
            0x7E
        } else {
            n
        };
        let mut ord: usize = 0x20;
        while ord < end
            invariant
                8 * (font@.len() as int / 8) <= font@.len(),
                end <= font@.len() as int / 8,
                end <= 0x7E,
                0x20 <= ord,
                ord == 0x20 || ord <= end,
                entries@.len() == ord - 0x20,
                forall|i: int|
                    0 <= i < entries@.len() ==> (#[trigger] entries@[i]).0 == 0x20 + i,
                forall|i: int|
                    0 <= i < entries@.len() ==> (#[trigger] entries@[i]).1@ == glyph_kernel_spec(
                        font@,
                        0x20 + i,
                    ),
                forall|i: int|
                    0 <= i < entries@.len() ==> (#[trigger] entries@[i]).1@.len() == KERNEL_AREA,
            decreases end - ord,
        {
            assert(8 * (ord + 1) <= 8 * end) by (nonlinear_arith)
                requires
                    ord < end,
            ;
            assert(8 * end <= 8 * (font@.len() as int / 8)) by (nonlinear_arith)
                requires
                    end <= font@.len() as int / 8,
            ;
            let raster = rasterize_glyph(font, ord * 8);
            let vals = resize_gaussian_gray(&raster, 8, 8, 4, 4);
            let kernel = Kernel::from_vals(vals);
            entries.push((ord as u8, kernel));
            ord = ord + 1;
        }
        let t = GlyphTable { entries };
        proof {
            assert(t.codes() =~= font_codes_spec(font@.len() as int));
            assert(t.kernels() =~= font_kernels_spec(font@));
        }
        t
    }

    /// The kernel of the given character code, if the table holds one.
    pub fn kernel_for(&self, code: u8) -> (r: Option<&Kernel>)
        requires
            self.wf(),
        ensures
            match r {
                Some(k) => 0x20 <= code && (code as int) - 0x20 < self.kernels().len() && k@
                    == self.kernels()[code as int - 0x20],
                None => code < 0x20 || (code as int) - 0x20 >= self.kernels().len(),
            },
    {
        if code < 0x20 {
            return None;
        }
        let idx = (code - 0x20) as usize;
        if idx < self.entries.len() {
            Some(&self.entries[idx].1)
        } else {
            None
        }
    }

    /// Selects the character whose glyph kernel has minimum L1 distance to
    /// the patch; ties go to the lowest character code; an empty table falls
    /// back to the space character.
    pub fn find_closest_char(&self, patch: &Kernel) -> (c: u8)
        requires
            self.wf(),
            patch.wf(),
        ensures
            c == chosen_code_spec(self.codes(), self.kernels(), patch@),
    {
        if self.entries.len() == 0 {
            return 0x20;
        }
        proof {
            assert(self.entries@[0].1@ == self.kernels()[0]);
        }
        let mut best: usize = 0;
        let mut best_d: u32 = self.entries[0].1.distance(patch);
        let mut i: usize = 1;
        while i < self.entries.len()
            invariant
                self.wf(),
                patch.wf(),
                1 <= i <= self.entries@.len(),
                self.entries@.len() == self.kernels().len(),
                best == best_index_upto(self.kernels(), patch@, i as int),
                best < i,
                best_d as int == distance_spec(self.kernels()[best as int], patch@),
            decreases self.entries@.len() - i,
        {
            proof {
                assert(self.entries@[i as int].1@ == self.kernels()[i as int]);
            }
            let d = self.entries[i].1.distance(patch);
            if d < best_d {
                best = i;
                best_d = d;
            }
            i = i + 1;
        }
        self.entries[best].0
    }
}

/// Index of the kernel with minimum distance to the patch among the first
/// `n`; the earliest such index on ties.
pub open spec fn best_index_upto(kernels: Seq<Seq<u8>>, patch: Seq<u8>, n: int) -> int
    decreases n,
{
    if n <= 1 {
        0
    } else {
        let p = best_index_upto(kernels, patch, n - 1);
        if distance_spec(kernels[n - 1], patch) < distance_spec(kernels[p], patch) {
            n - 1
        } else {
            p
        }
    }
}

/// The character the matcher selects for a patch: the code of the
/// minimum-distance kernel, lowest code on ties, or the space character when
/// the table is empty.
pub open spec fn chosen_code_spec(codes: Seq<u8>, kernels: Seq<Seq<u8>>, patch: Seq<u8>) -> u8 {
    if kernels.len() == 0 {
        0x20
    } else {
        codes[best_index_upto(kernels, patch, kernels.len() as int)]
    }
}

/// Law: the selected index points at a kernel of minimum distance to the
/// patch, and every earlier kernel is strictly farther, so ties are broken
/// by the lowest index (the lowest character code in an ascending table).
pub proof fn lemma_best_index_minimal(kernels: Seq<Seq<u8>>, patch: Seq<u8>, n: int)
    requires
        1 <= n <= kernels.len(),
    ensures
        0 <= best_index_upto(kernels, patch, n) < n,
        forall|j: int|
            0 <= j < n ==> distance_spec(kernels[best_index_upto(kernels, patch, n)], patch)
                <= distance_spec(#[trigger] kernels[j], patch),
        forall|j: int|
            0 <= j < best_index_upto(kernels, patch, n) ==> distance_spec(
                #[trigger] kernels[j],
                patch,
            ) > distance_spec(kernels[best_index_upto(kernels, patch, n)], patch),
    decreases n,
{
    if n > 1 {
        lemma_best_index_minimal(kernels, patch, n - 1);
    }
}

} // verus!
