//! The per-pixel occlusion formula on alpha values.
//!
//! A pixel of the target stays visible in proportion to how transparent the
//! occluder is at the same position: the new target alpha is
//! `floor(ta * (255 - oa) / 255)`. The division truncates; no clamping is
//! needed because the result never leaves `[0, 255]`.

use vstd::prelude::*;

verus! {

/// The occlusion formula over unbounded integers:
/// `floor(ta * (255 - oa) / 255)`.
pub open spec fn occluded_alpha_int(ta: int, oa: int) -> int {
    (ta * (255 - oa)) / 255
}

/// The occlusion formula on alpha bytes. For byte inputs the integer result
/// is always in `[0, 255]`, so the narrowing changes nothing.
pub open spec fn occluded_alpha(ta: u8, oa: u8) -> u8 {
    occluded_alpha_int(ta as int, oa as int) as u8
}

/// The integer formula stays within `[0, 255]` on byte inputs, so
/// `occluded_alpha` truncates nothing.
pub proof fn lemma_occluded_alpha_in_range(ta: int, oa: int)
    by (nonlinear_arith)
    requires
        0 <= ta <= 255,
        0 <= oa <= 255,
    ensures
        0 <= occluded_alpha_int(ta, oa) <= ta,
        occluded_alpha_int(ta, oa) <= 255,
{
}

/// A fully transparent occluder leaves the target alpha unchanged.
pub proof fn lemma_occluded_alpha_transparent(ta: u8)
    ensures
        occluded_alpha(ta, 0) == ta,
{
    assert((ta as int * 255) / 255 == ta as int) by (nonlinear_arith);
}

/// A fully opaque occluder drives the target alpha to zero.
pub proof fn lemma_occluded_alpha_opaque(ta: u8)
    ensures
        occluded_alpha(ta, 255) == 0,
{
}

/// Computes the occlusion formula on two alpha bytes.
pub fn blend_alpha(ta: u8, oa: u8) -> (r: u8)
    ensures
        r == occluded_alpha(ta, oa),
{
    let wide_ta: u16 = ta as u16;
    let wide_oa: u16 = oa as u16;
    proof {
        assert(wide_ta * (255 - wide_oa) <= 255 * 255) by (nonlinear_arith)
            requires
                wide_ta <= 255,
                wide_oa <= 255,
        ;
        lemma_occluded_alpha_in_range(ta as int, oa as int);
    }
    ((wide_ta * (255 - wide_oa)) / 255) as u8
}

} // verus!
