//! Target bounds for the downsized preview image.
//!
//! The re-encoding itself is an external collaborator; this computes the
//! bounds handed to it: the larger side is scaled to the preview bound
//! and the other side is scaled by the same ratio, rounded down.

use vstd::prelude::*;

verus! {

/// The pixel size the larger side of a preview is scaled to.
pub const PREVIEW_BOUND: u32 = 300;

/// The preview bounds for a source image: the larger side becomes
/// `PREVIEW_BOUND`, the other keeps the aspect ratio, rounded down. A
/// degenerate empty image stays empty.
pub open spec fn spec_preview_dimensions(width: int, height: int) -> (int, int) {
    if width == 0 && height == 0 {
        (0, 0)
    } else if width > height {
        (PREVIEW_BOUND as int, (height * PREVIEW_BOUND) / width)
    } else {
        ((width * PREVIEW_BOUND) / height, PREVIEW_BOUND as int)
    }
}

/// Computes the preview bounds for a source image.
pub fn preview_dimensions(width: u32, height: u32) -> (r: (u32, u32))
    ensures
        (r.0 as int, r.1 as int) == spec_preview_dimensions(width as int, height as int),
{
    if width == 0 && height == 0 {
        (0, 0)
    } else if width > height {
        proof {
            lemma_scaled_side_bounded(height as int, width as int);
        }
        let scaled: u64 = height as u64 * PREVIEW_BOUND as u64 / width as u64;
        (PREVIEW_BOUND, scaled as u32)
    } else {
        proof {
            lemma_scaled_side_bounded(width as int, height as int);
        }
        let scaled: u64 = width as u64 * PREVIEW_BOUND as u64 / height as u64;
        (scaled as u32, PREVIEW_BOUND)
    }
}

/// Scaling the smaller side keeps it within the preview bound.
proof fn lemma_scaled_side_bounded(small: int, large: int)
    requires
        0 <= small <= large,
        0 < large,
        large <= u32::MAX,
    ensures
        0 <= small * PREVIEW_BOUND <= u32::MAX * PREVIEW_BOUND,
        0 <= (small * PREVIEW_BOUND) / large <= PREVIEW_BOUND,
{
    assert(0 <= small * PREVIEW_BOUND <= u32::MAX * PREVIEW_BOUND && 0 <= (small * PREVIEW_BOUND)
        / large <= PREVIEW_BOUND) by (nonlinear_arith)
        requires
            0 <= small <= large,
            0 < large,
            large <= u32::MAX,
    ;
}

} // verus!
