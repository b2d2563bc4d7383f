//! Normalized luminance carried as a byte: `0` darkest, `255` brightest.

use vstd::prelude::*;

verus! {

/// Maximum luminance value; a byte `v` stands for the luminance `v / LUMA_MAX`.
pub const LUMA_MAX: u8 = 255;

/// Inverted luminance: bright becomes dark and the other way round.
pub open spec fn invert_spec(v: u8) -> u8 {
    (255 - v) as u8
}

/// Luminance after the invert flag is applied.
pub open spec fn apply_invert_spec(v: u8, invert: bool) -> u8 {
    if invert {
        invert_spec(v)
    } else {
        v
    }
}

pub fn apply_invert(v: u8, invert: bool) -> (r: u8)
    ensures
        r == apply_invert_spec(v, invert),
{
    if invert {
        255 - v
    } else {
        v
    }
}

/// Inverting a luminance value twice gives the value back.
pub proof fn lemma_invert_involutive(v: u8)
    ensures
        invert_spec(invert_spec(v)) == v,
{
}

} // verus!
