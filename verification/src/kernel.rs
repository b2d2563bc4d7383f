//! Luminance kernels: fixed-size grids of normalized luminance values, and
//! the L1 distance between them.

use vstd::prelude::*;

verus! {

/// Number of pixels in a kernel: a 4 x 4 grid.
pub const KERNEL_AREA: usize = 16;

/// A 4 x 4 grid of luminance bytes, row-major.
pub struct Kernel {
    vals: Vec<u8>,
}

impl View for Kernel {
    type V = Seq<u8>;

    closed spec fn view(&self) -> Seq<u8> {
        self.vals@
    }
}

/// Absolute difference of two luminance bytes.
pub open spec fn abs_diff(a: u8, b: u8) -> int {
    if a >= b {
        a - b
    } else {
        b - a
    }
}

/// Sum of the absolute per-pixel differences over the first `n` pixels.
pub open spec fn dist_upto(a: Seq<u8>, b: Seq<u8>, n: int) -> int
    decreases n,
{
    if n <= 0 {
        0
    } else {
        dist_upto(a, b, n - 1) + abs_diff(a[n - 1], b[n - 1])
    }
}

/// L1 (Manhattan) distance between two kernels of the same dimensions.
pub open spec fn distance_spec(a: Seq<u8>, b: Seq<u8>) -> int {
    dist_upto(a, b, a.len() as int)
}

impl Kernel {
    /// A kernel holds exactly one luminance byte per pixel.
    pub open spec fn wf(&self) -> bool {
        self@.len() == KERNEL_AREA
    }

    pub fn from_vals(vals: Vec<u8>) -> (k: Kernel)
        requires
            vals@.len() == KERNEL_AREA,
        ensures
            k.wf(),
            k@ == vals@,
    {
        Kernel { vals }
    }

    pub fn as_bytes(&self) -> (r: &Vec<u8>)
        ensures
            r@ == self@,
    {
        &self.vals
    }

    /// L1 distance to another kernel of the same dimensions.
    pub fn distance(&self, other: &Kernel) -> (d: u32)
        requires
            self.wf(),
            other.wf(),
        ensures
            d as int == distance_spec(self@, other@),
    {
        let mut d: u32 = 0;
        let mut i: usize = 0;
        while i < KERNEL_AREA
            invariant
                self.wf(),
                other.wf(),
                i <= KERNEL_AREA,
                d as int == dist_upto(self@, other@, i as int),
                d <= 255 * i,
            decreases KERNEL_AREA - i,
    {
            let a = self.vals[i];
            let b = other.vals[i];
            let diff: u8 = if a >= b {
                a - b
            } else {
                b - a
            };
            d = d + diff as u32;
            i = i + 1;
        }
        d
    }
}

proof fn lemma_dist_upto_symmetric(a: Seq<u8>, b: Seq<u8>, n: int)
    ensures
        dist_upto(a, b, n) == dist_upto(b, a, n),
    decreases n,
{
    if n > 0 {
        lemma_dist_upto_symmetric(a, b, n - 1);
    }
}

proof fn lemma_dist_upto_zero(a: Seq<u8>, b: Seq<u8>, n: int)
    ensures
        dist_upto(a, b, n) >= 0,
        dist_upto(a, b, n) == 0 <==> (forall|i: int| 0 <= i < n ==> a[i] == b[i]),
    decreases n,
{
    if n > 0 {
        lemma_dist_upto_zero(a, b, n - 1);
    }
}

/// Law: kernel distance is symmetric.
pub proof fn lemma_distance_symmetric(a: Seq<u8>, b: Seq<u8>)
    requires
        a.len() == b.len(),
    ensures
        distance_spec(a, b) == distance_spec(b, a),
{
    lemma_dist_upto_symmetric(a, b, a.len() as int);
}

/// Law: kernel distance is zero exactly when the two kernels are
/// pixel-for-pixel identical.
pub proof fn lemma_distance_zero_iff_identical(a: Seq<u8>, b: Seq<u8>)
    requires
        a.len() == b.len(),
    ensures
        distance_spec(a, b) == 0 <==> a == b,
{
    lemma_dist_upto_zero(a, b, a.len() as int);
    if distance_spec(a, b) == 0 {
        assert(a =~= b);
    }
}

/// Law: kernel values always lie within the normalized luminance range,
/// from full darkness to `luma::LUMA_MAX`.
pub proof fn lemma_kernel_values_in_range(k: Seq<u8>)
    ensures
        forall|i: int| 0 <= i < k.len() ==> 0 <= #[trigger] k[i] <= crate::luma::LUMA_MAX,
{
}

} // verus!
