//! Dashboard grid layout.

use vstd::prelude::*;

use super::card::CARD_MIN_WIDTH;

verus! {

/// Columns between cards.
pub const CARD_GAP: u16 = 1;

/// How many cards fit side by side in `width` columns: cards of at least
/// [`CARD_MIN_WIDTH`] with [`CARD_GAP`] between them, and at least one.
pub fn compute_columns(width: u16) -> (r: u16)
    requires
        width < u16::MAX,
    ensures
        r == (if (width + 1) / 35 >= 1 {
            (width + 1) / 35
        } else {
            1
        }),
        r >= 1,
        r == 1 || r * CARD_MIN_WIDTH + (r - 1) * CARD_GAP <= width,
{
    let c = (width + CARD_GAP) / (CARD_MIN_WIDTH + CARD_GAP);
    let r = if c >= 1 {
        c
    } else {
        1
    };
    assert(r == 1 || r * 34 + (r - 1) <= width) by (nonlinear_arith)
        requires
            r == c || r == 1,
            c == (width + 1) / 35,
    ;
    r
}

/// The width of each of `cols` cards sharing `total_width` columns with
/// [`CARD_GAP`] between them; `total_width` when `cols` is 0.
pub fn compute_card_width(total_width: u16, cols: u16) -> (r: u16)
    ensures
        cols == 0 ==> r == total_width,
        cols > 0 ==> r == (if total_width >= cols - 1 {
            total_width - (cols - 1)
        } else {
            0
        }) / (cols as int),
        cols > 0 ==> r * cols + (cols - 1) <= total_width || total_width < cols - 1,
{
    if cols == 0 {
        return total_width;
    }
    let gaps = (cols - 1) * CARD_GAP;
    let free = total_width.saturating_sub(gaps);
    let r = free / cols;
    assert(r * cols <= free) by (nonlinear_arith)
        requires
            r == free / cols,
            cols > 0,
    ;
    r
}

} // verus!
