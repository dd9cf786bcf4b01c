//! Row width computation for the controller's packed frame-buffer layout.
//!
//! The controller packs four 4-bit pixels into each 16-bit word, and every
//! row of a transferred area starts on a word boundary obtained by rounding
//! the area's left edge down to a multiple of four pixels.

use vstd::prelude::*;

use crate::geometry::Rect;

verus! {

/// Number of 16-bit words needed for one row of an area whose left edge is
/// `x` and whose width is `w`: the width plus the intra-word offset of the
/// left edge, divided by four pixels per word, rounded up.
pub open spec fn spec_entries_per_row(x: int, w: int) -> int
    recommends
        x >= 0,
        w >= 0,
{
    (w + x % 4 + 3) / 4
}

/// The row width in words equals the ceiling of `(w + x mod 4) / 4`.
///
/// Law: for every left edge `x >= 0` and width `w >= 0`, the number of word
/// entries per row is exactly `ceil((w + x mod 4) / 4)`.
pub proof fn lemma_entries_per_row_is_ceil(x: int, w: int)
    requires
        x >= 0,
        w >= 0,
    ensures
        4 * spec_entries_per_row(x, w) >= w + x % 4,
        4 * (spec_entries_per_row(x, w) - 1) < w + x % 4 || spec_entries_per_row(x, w) == 0,
{
}

/// Calculates how many u16 values are necessary per line on the display,
/// including the alignment of the row to a four-pixel word boundary.
pub fn get_entires_per_row(area: &Rect) -> (r: u32)
    requires
        area.x >= 0,
        area.width <= u32::MAX - 3,
    ensures
        r == spec_entries_per_row(area.x as int, area.width as int),
{
    let alignment_pixels: u32 = (area.x as u32) % 4;
    let total: u32 = area.width + alignment_pixels;
    let quotient: u32 = total / 4;
    let r: u32 = if total % 4 > 0 {
        quotient + 1
    } else {
        quotient
    };
    proof {
        assert(r == (total + 3) / 4) by (nonlinear_arith)
            requires
                total >= 0,
                quotient == total as int / 4,
                r == if total as int % 4 > 0 {
                    total as int / 4 + 1
                } else {
                    total as int / 4
                },
        ;
    }
    r
}

} // verus!
