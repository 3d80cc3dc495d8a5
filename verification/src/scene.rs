//! Whole frames: several figures drawn in turn, and the menu's list of options.

use vstd::prelude::*;
use vstd::string::StringSliceAdditionalSpecFns;
use crate::color::Color;
use crate::figure::{square_lines, Figure, FigureView};
use crate::fixed::{clamp, Fixed};
use crate::vector::Vector;
use crate::window::{stamp_figure, stamp_text, WinElem, Window, Writemodes};

verus! {

/// The fraction of the height at which the first option is written.
pub const INIT_POS_OPT: i64 = 125_000_000_000;

/// The fraction of the height between one option and the next.
pub const SPACE_POS_OPT: i64 = 250_000_000_000;

/// The fraction of the width about which every option is centred.
pub const HALF_WAY: i64 = 1_250_000_000_000;

/// The buffer `cells` after the first `n` of `figs` have been drawn on it in turn.
pub open spec fn stamp_figures(
    cells: Seq<WinElem>,
    height: int,
    width: int,
    plane: (Vector, Vector),
    figs: Seq<Figure>,
    n: nat,
) -> Seq<WinElem>
    decreases n,
{
    if n == 0 {
        cells
    } else {
        stamp_figure(
            stamp_figures(cells, height, width, plane, figs, (n - 1) as nat),
            height,
            width,
            plane,
            figs[n - 1]@,
        )
    }
}

/// The fraction of the height at which option `k` is written.
pub open spec fn option_fraction(k: int) -> Fixed {
    Fixed { raw: clamp(INIT_POS_OPT + k * SPACE_POS_OPT) as i64 }
}

/// The buffer `cells` after the first `n` of `options` have been written on
/// it, each centred on the middle column, in the neutral colour.
pub open spec fn stamp_options(
    cells: Seq<WinElem>,
    height: int,
    width: int,
    options: Seq<&str>,
    n: nat,
) -> Seq<WinElem>
    decreases n,
{
    if n == 0 {
        cells
    } else {
        stamp_text(
            stamp_options(cells, height, width, options, (n - 1) as nat),
            height,
            width,
            options[n - 1].spec_bytes(),
            option_fraction(n - 1),
            Fixed { raw: HALF_WAY },
            Writemodes::Centered,
            WinElem::spec_white(),
        )
    }
}

/// The frame round option `selected` of the menu in a window of `height`
/// rows: a rectangle three cells high and twenty wide whose centre stands
/// at the row where that option is written.
pub open spec fn spec_option_marker(height: usize, selected: usize) -> FigureView {
    let h = Fixed::spec_from_int(height as i64);
    let down = h.spec_times(option_fraction(selected as int)).spec_minus(h.spec_scaled(1, 2));
    FigureView {
        position: Vector { x: Fixed { raw: 0 }, y: down, z: Fixed { raw: 0 } },
        lines: square_lines(3, 20),
        color: Color::White,
    }
}

/// Draws every figure of `figs`, the first one first: where two figures
/// cross, the later one shows.
pub fn draw_figures(win: &mut Window, figs: &[Figure])
    ensures
        final(win).wf(),
        final(win).same_frame(*old(win)),
        final(win)@ == stamp_figures(
            old(win)@,
            old(win).height(),
            old(win).width(),
            old(win).plane(),
            figs@,
            figs@.len(),
        ),
{
    proof {
        use_type_invariant(&*win);
    }
    let n: usize = figs.len();
    let mut i: usize = 0;
    while i < n
        invariant
            i <= n,
            n == figs@.len(),
            win.wf(),
            win.same_frame(*old(win)),
            win@ == stamp_figures(
                old(win)@,
                old(win).height(),
                old(win).width(),
                old(win).plane(),
                figs@,
                i as nat,
            ),
        decreases n - i,
    {
        win.draw(&figs[i]);
        i = i + 1;
    }
}

/// Writes the options one below the other, the first at a twentieth of the
/// height and each next one a tenth of the height further down.
pub fn write_options(win: &mut Window, options: &[&str])
    ensures
        final(win).wf(),
        final(win).same_frame(*old(win)),
        final(win)@ == stamp_options(
            old(win)@,
            old(win).height(),
            old(win).width(),
            options@,
            options@.len(),
        ),
{
    proof {
        use_type_invariant(&*win);
    }
    let n: usize = options.len();
    let mut ph: Fixed = Fixed { raw: INIT_POS_OPT };
    let mut i: usize = 0;
    while i < n
        invariant
            i <= n,
            n == options@.len(),
            ph == option_fraction(i as int),
            win.wf(),
            win.same_frame(*old(win)),
            win@ == stamp_options(
                old(win)@,
                old(win).height(),
                old(win).width(),
                options@,
                i as nat,
            ),
        decreases n - i,
    {
        win.write(
            options[i],
            ph,
            Fixed { raw: HALF_WAY },
            Writemodes::Centered,
            Color::Rgb(255, 255, 255),
        );
        ph = ph.plus(Fixed { raw: SPACE_POS_OPT });
        i = i + 1;
    }
}

/// The frame that marks option `selected` of the menu. `height` is that
/// of the window it will be drawn in.
pub fn option_marker(height: usize, selected: usize) -> (f: Figure)
    requires
        height <= i64::MAX,
        selected <= i64::MAX,
    ensures
        f@ == spec_option_marker(height, selected),
{
    let h = Fixed::from_int(height as i64);
    let step = Fixed { raw: SPACE_POS_OPT }.scaled(selected as i64, 1);
    let part = Fixed { raw: INIT_POS_OPT }.plus(step);
    assert(part == option_fraction(selected as int)) by {
        crate::fixed::lemma_round_div_bounds(SPACE_POS_OPT * (selected as i64), 1);
    }
    let down = h.times(part).minus(h.scaled(1, 2));
    let zero = Fixed { raw: 0 };
    Figure::square(3, 20, Vector { x: zero, y: down, z: zero }, Color::White)
}

} // verus!
