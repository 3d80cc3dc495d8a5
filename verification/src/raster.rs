//! Walking a projected segment in equal steps and naming the cell of each step.

use vstd::prelude::*;
use crate::fixed::{
    lemma_round_div_bounds, lemma_round_div_monotone, round_div, round_div_wide, Fixed, SCALE,
};
use crate::window::WinElem;

verus! {

/// The number of equal steps in which a segment is walked from its begin to its end.
pub const STEPS: i64 = 50;

/// A point of the viewing plane: `x` runs along a row, `y` down a column.
#[derive(Clone, Copy, Debug, PartialEq, Eq, Structural)]
pub struct Spot {
    pub x: Fixed,
    pub y: Fixed,
}

/// A segment on the viewing plane.
#[derive(Clone, Copy, Debug, PartialEq, Eq, Structural)]
pub struct Span {
    pub from: Spot,
    pub to: Spot,
}

/// The whole cell nearest to the point `k / STEPS` of the way from `b` to `e`.
pub open spec fn sample(b: Fixed, e: Fixed, k: int) -> int {
    round_div(STEPS * b.raw + k * (e.raw - b.raw), STEPS * SCALE)
}

/// The cell `(row, col)` of step `k` of `span` in a grid whose centre cell
/// `(height / 2, width / 2)` shows the origin of the plane.
pub open spec fn span_cell(height: int, width: int, span: Span, k: int) -> (int, int) {
    (sample(span.from.y, span.to.y, k) + height / 2, sample(span.from.x, span.to.x, k) + width / 2)
}

/// Step `k` of `span` falls on the cell of index `i` of the grid.
pub open spec fn span_hits(height: int, width: int, span: Span, k: int, i: int) -> bool {
    let (row, col) = span_cell(height, width, span, k);
    0 <= row < height && 0 <= col < width && row * width + col == i
}

/// One of the first `n` steps of `span` falls on the cell of index `i`.
pub open spec fn span_covers_upto(height: int, width: int, span: Span, n: int, i: int) -> bool {
    exists|k: int| 0 <= k < n && #[trigger] span_hits(height, width, span, k, i)
}

/// Some step of `span`, its two ends included, falls on the cell of index `i`.
pub open spec fn span_covers(height: int, width: int, span: Span, i: int) -> bool {
    span_covers_upto(height, width, span, STEPS + 1, i)
}

/// The buffer `cells` after `span` has been stamped on it in `color`: the
/// cells it covers carry the mark, all others are as before.
pub open spec fn stamp_span(
    cells: Seq<WinElem>,
    height: int,
    width: int,
    span: Span,
    color: crate::color::Color,
) -> Seq<WinElem> {
    Seq::new(
        cells.len(),
        |i: int|
            if span_covers(height, width, span, i) {
                WinElem::spec_mark(color)
            } else {
                cells[i]
            },
    )
}

/// Every step of a walk lies between the cells of its two ends.
pub proof fn lemma_sample_between(b: Fixed, e: Fixed, k: int)
    requires
        0 <= k <= STEPS,
    ensures
        sample(b, e, 0) <= sample(b, e, k) <= sample(b, e, STEPS as int) || sample(
            b,
            e,
            STEPS as int,
        ) <= sample(b, e, k) <= sample(b, e, 0),
{
    let d = STEPS * SCALE;
    let n0 = STEPS * b.raw + 0 * (e.raw - b.raw);
    let nk = STEPS * b.raw + k * (e.raw - b.raw);
    let n1 = STEPS * b.raw + STEPS * (e.raw - b.raw);
    if b.raw <= e.raw {
        assert(n0 <= nk <= n1) by (nonlinear_arith)
            requires
                0 <= k <= STEPS,
                b.raw <= e.raw,
                n0 == STEPS * b.raw + 0 * (e.raw - b.raw),
                nk == STEPS * b.raw + k * (e.raw - b.raw),
                n1 == STEPS * b.raw + STEPS * (e.raw - b.raw),
        ;
        lemma_round_div_monotone(n0, nk, d);
        lemma_round_div_monotone(nk, n1, d);
    } else {
        assert(n1 <= nk <= n0) by (nonlinear_arith)
            requires
                0 <= k <= STEPS,
                b.raw > e.raw,
                n0 == STEPS * b.raw + 0 * (e.raw - b.raw),
                nk == STEPS * b.raw + k * (e.raw - b.raw),
                n1 == STEPS * b.raw + STEPS * (e.raw - b.raw),
        ;
        lemma_round_div_monotone(n1, nk, d);
        lemma_round_div_monotone(nk, n0, d);
    }
}

/// A walk begins on the cell nearest to its begin and ends on the cell
/// nearest to its end.
pub proof fn lemma_sample_ends(b: Fixed, e: Fixed)
    ensures
        sample(b, e, 0) == b.spec_round(),
        sample(b, e, STEPS as int) == e.spec_round(),
{
    lemma_round_div_scaled(b.raw as int);
    lemma_round_div_scaled(e.raw as int);
    assert(STEPS * b.raw + 0 * (e.raw - b.raw) == STEPS * b.raw);
    assert(STEPS * b.raw + STEPS * (e.raw - b.raw) == STEPS * e.raw) by (nonlinear_arith);
}

/// Rounding `n / SCALE` is not changed by writing the quotient in `STEPS`-ths.
proof fn lemma_round_div_scaled(n: int)
    ensures
        round_div(STEPS * n, STEPS * SCALE) == round_div(n, SCALE as int),
{
    lemma_round_div_bounds(n, SCALE as int);
    lemma_round_div_bounds(STEPS * n, STEPS * SCALE);
    let r = round_div(n, SCALE as int);
    let s = round_div(STEPS * n, STEPS * SCALE);
    assert(STEPS == 50 && SCALE == 2_500_000_000_000);
    // Both are the integer nearest to the same quotient; on a tie both go away from zero.
    if n >= 0 {
        assert(s == (2 * (50 * n) + 50 * SCALE) / (2 * (50 * SCALE)));
        assert(r == (2 * n + SCALE) / (2 * SCALE));
    } else {
        assert(s == -((2 * (-(50 * n)) + 50 * SCALE) / (2 * (50 * SCALE))));
        assert(r == -((2 * (-n) + SCALE) / (2 * SCALE)));
    }
}

/// Computes [`sample`].
pub fn sample_cell(b: Fixed, e: Fixed, k: i64) -> (r: i128)
    requires
        0 <= k <= STEPS,
    ensures
        r == sample(b, e, k as int),
        i64::MIN <= r <= i64::MAX,
{
    let diff: i128 = e.raw as i128 - b.raw as i128;
    assert(-50 * 0x1_0000_0000_0000_0000 <= k * diff <= 50 * 0x1_0000_0000_0000_0000)
        by (nonlinear_arith)
        requires
            0 <= k <= 50,
            -0x1_0000_0000_0000_0000 <= diff <= 0x1_0000_0000_0000_0000,
    ;
    assert(STEPS * b.raw == 50 * b.raw && STEPS * SCALE == 125_000_000_000_000);
    let n: i128 = (STEPS as i128) * (b.raw as i128) + (k as i128) * diff;
    proof {
        lemma_round_div_bounds(n as int, STEPS * SCALE);
    }
    round_div_wide(n, (STEPS as i128) * (SCALE as i128))
}

} // verus!
