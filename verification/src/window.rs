//! The frame buffer: a grid of coloured characters, filled, drawn into,
//! written on and finally turned into the text that a terminal shows.

use vstd::prelude::*;
use vstd::string::{StringExecFns, StringSliceAdditionalSpecFns};
use crate::color::Color;
use crate::figure::{Figure, FigureView, Line};
use crate::fixed::{
    lemma_round_div_bounds, lemma_round_div_exact, round_div, round_div_wide, Fixed, SCALE,
};
use crate::raster::{
    lemma_sample_between, sample_cell, span_cell, span_covers, span_covers_upto, span_hits,
    stamp_span, Span, Spot, STEPS,
};
use crate::vector::Vector;

verus! {

/// The glyph that marks a cell crossed by a line.
pub const PRINT_CHAR: char = '\u{2022}';

/// How a text is placed about the column it is written at.
#[derive(Clone, Copy, Debug, PartialEq, Eq, Structural)]
pub enum Writemodes {
    /// The middle of the text comes to the column.
    Centered,
    /// Reserved; nothing is written in this mode.
    ToLeft,
    /// Reserved; nothing is written in this mode.
    ToRight,
}

/// One cell of the buffer: a character and the colour it is shown in.
#[derive(Clone, Copy, Debug, PartialEq, Eq, Structural)]
pub struct WinElem {
    pub data: char,
    pub color: Color,
}

impl WinElem {
    /// The neutral colour of untouched cells.
    pub open spec fn spec_white() -> Color {
        Color::Rgb(255, 255, 255)
    }

    /// A blank in the neutral colour: what a cleared buffer holds everywhere.
    pub open spec fn spec_empty() -> WinElem {
        WinElem { data: ' ', color: Self::spec_white() }
    }

    /// The mark that a line of colour `color` leaves.
    pub open spec fn spec_mark(color: Color) -> WinElem {
        WinElem { data: PRINT_CHAR, color }
    }

    pub fn empty() -> (e: WinElem)
        ensures
            e == Self::spec_empty(),
    {
        WinElem { data: ' ', color: Color::Rgb(255, 255, 255) }
    }

    pub fn mark(color: Color) -> (e: WinElem)
        ensures
            e == Self::spec_mark(color),
    {
        WinElem { data: PRINT_CHAR, color }
    }
}

/// A frame buffer of `height` rows by `width` columns, row after row, and the
/// two vectors that span the plane on which figures are projected.
pub struct Window {
    plane_vec_1: Vector,
    plane_vec_2: Vector,
    height: usize,
    width: usize,
    cells: Vec<WinElem>,
}

impl View for Window {
    type V = Seq<WinElem>;

    /// The cells, row after row: cell `(row, col)` is at `row * width + col`.
    closed spec fn view(&self) -> Seq<WinElem> {
        self.cells@
    }
}

/// The unit vector along the x axis.
pub open spec fn spec_axis_x() -> Vector {
    Vector { x: Fixed { raw: SCALE }, y: Fixed { raw: 0 }, z: Fixed { raw: 0 } }
}

/// The unit vector along the y axis.
pub open spec fn spec_axis_y() -> Vector {
    Vector { x: Fixed { raw: 0 }, y: Fixed { raw: SCALE }, z: Fixed { raw: 0 } }
}

/// `cells` with `elem` at `(row, col)` if that cell exists, unchanged if not.
pub open spec fn spec_plot(
    cells: Seq<WinElem>,
    height: int,
    width: int,
    row: int,
    col: int,
    elem: WinElem,
) -> Seq<WinElem> {
    if 0 <= row < height && 0 <= col < width {
        cells.update(row * width + col, elem)
    } else {
        cells
    }
}

/// Where the point `p` of space shows on the plane spanned by `plane`.
pub open spec fn spec_project(plane: (Vector, Vector), p: Vector) -> Spot {
    Spot { x: p.spec_scalar_prod(plane.0), y: p.spec_scalar_prod(plane.1) }
}

/// The segment that `line` of a figure standing at `position` shows as.
pub open spec fn spec_span(plane: (Vector, Vector), line: Line, position: Vector) -> Span {
    Span {
        from: spec_project(plane, line.begin.spec_sum(position)),
        to: spec_project(plane, line.end.spec_sum(position)),
    }
}

/// One of the first `n` lines of `fig` covers the cell of index `i`.
pub open spec fn figure_covers_upto(
    height: int,
    width: int,
    plane: (Vector, Vector),
    fig: FigureView,
    n: int,
    i: int,
) -> bool {
    exists|j: int|
        0 <= j < n && #[trigger] span_covers(
            height,
            width,
            spec_span(plane, fig.lines[j], fig.position),
            i,
        )
}

/// Some line of `fig` covers the cell of index `i`.
pub open spec fn figure_covers(
    height: int,
    width: int,
    plane: (Vector, Vector),
    fig: FigureView,
    i: int,
) -> bool {
    figure_covers_upto(height, width, plane, fig, fig.lines.len() as int, i)
}

/// The buffer `cells` after `fig` has been drawn on it: the cells that a line
/// of the figure covers carry its mark, all others are as before.
pub open spec fn stamp_figure(
    cells: Seq<WinElem>,
    height: int,
    width: int,
    plane: (Vector, Vector),
    fig: FigureView,
) -> Seq<WinElem> {
    Seq::new(
        cells.len(),
        |i: int|
            if figure_covers(height, width, plane, fig, i) {
                WinElem::spec_mark(fig.color)
            } else {
                cells[i]
            },
    )
}

/// The row or column at the fraction `part` of `extent` cells, to the nearest cell.
pub open spec fn fraction_cell(extent: int, part: Fixed) -> int {
    round_div(extent * part.raw, SCALE as int)
}

/// Whether a text of `len` bytes is written at all when centred on column
/// `center`: half the text has to fit into half of what lies left of it.
pub open spec fn text_fits(len: int, center: int) -> bool {
    center >= 0 && len / 2 <= center / 2
}

/// The column of the first byte of a text of `len` bytes centred on `center`.
pub open spec fn text_start(len: int, center: int) -> int {
    center - len / 2 + 1
}

/// The buffer `cells` after `text` has been written on it: byte `k` of the
/// text stands at column `text_start + k` of the row at fraction `ph`, as
/// far as the window has such a cell; all other cells are as before.
pub open spec fn stamp_text(
    cells: Seq<WinElem>,
    height: int,
    width: int,
    text: Seq<u8>,
    ph: Fixed,
    pw: Fixed,
    mode: Writemodes,
    color: Color,
) -> Seq<WinElem> {
    let row = fraction_cell(height, ph);
    let center = fraction_cell(width, pw);
    let start = text_start(text.len() as int, center);
    Seq::new(
        cells.len(),
        |i: int|
            if mode == Writemodes::Centered && text_fits(text.len() as int, center) && i / width
                == row && 0 <= i % width - start < text.len() {
                WinElem { data: text[i % width - start] as char, color }
            } else {
                cells[i]
            },
    )
}

/// The text of one cell: the escape sequence of its colour, then its character.
pub open spec fn cell_text(elem: WinElem) -> Seq<char> {
    elem.color.spec_fg_escape().push(elem.data)
}

/// The text of the first `n` cells of row `row`.
pub open spec fn row_text(cells: Seq<WinElem>, width: int, row: int, n: nat) -> Seq<char>
    decreases n,
{
    if n == 0 {
        Seq::empty()
    } else {
        row_text(cells, width, row, (n - 1) as nat) + cell_text(cells[row * width + n - 1])
    }
}

/// The text of the first `n` rows, each closed by a line feed.
pub open spec fn frame_text(cells: Seq<WinElem>, width: int, n: nat) -> Seq<char>
    decreases n,
{
    if n == 0 {
        Seq::empty()
    } else {
        frame_text(cells, width, (n - 1) as nat) + row_text(cells, width, n - 1, width as nat)
            + seq!['\n']
    }
}

/// `String::push`: the string grows by exactly the one character. Believed, not proved.
#[verifier::external_body]
fn push_char(s: &mut String, c: char)
    ensures
        final(s)@ == old(s)@.push(c),
{
    s.push(c);
}

/// A cell inside a `height` by `width` grid has its index inside the buffer.
pub proof fn lemma_cell_index(height: int, width: int, row: int, col: int)
    by (nonlinear_arith)
    requires
        0 <= row < height,
        0 <= col < width,
    ensures
        0 <= row * width + col < height * width,
        (row * width + col) / width == row,
        (row * width + col) % width == col,
{
}

/// Looking down the z axis, a point shows at its own `x` and `y`: the
/// projection drops `z` and changes nothing else.
pub proof fn lemma_project_drops_z(p: Vector)
    ensures
        spec_project((spec_axis_x(), spec_axis_y()), p) == (Spot { x: p.x, y: p.y }),
{
    assert(p.dot_wide(spec_axis_x()) == p.x.raw * SCALE) by (nonlinear_arith)
        requires
            p.dot_wide(spec_axis_x()) == p.x.raw * SCALE + p.y.raw * 0 + p.z.raw * 0,
    ;
    assert(p.dot_wide(spec_axis_y()) == p.y.raw * SCALE) by (nonlinear_arith)
        requires
            p.dot_wide(spec_axis_y()) == p.x.raw * 0 + p.y.raw * SCALE + p.z.raw * 0,
    ;
    lemma_round_div_exact(p.x.raw as int, SCALE as int);
    lemma_round_div_exact(p.y.raw as int, SCALE as int);
}

/// A point on the axis along which the window looks shows at the origin
/// of the plane, however far along the axis it lies.
pub proof fn lemma_project_on_normal(z: Fixed)
    ensures
        spec_project(
            (spec_axis_x(), spec_axis_y()),
            Vector { x: Fixed { raw: 0 }, y: Fixed { raw: 0 }, z },
        ) == (Spot { x: Fixed { raw: 0 }, y: Fixed { raw: 0 } }),
{
    lemma_project_drops_z(Vector { x: Fixed { raw: 0 }, y: Fixed { raw: 0 }, z });
}

/// Whether `span` lies beside the grid as a whole: both its ends fall to
/// the left of it, or both to the right, or both above, or both below.
pub open spec fn span_beside(height: int, width: int, span: Span) -> bool {
    let (row0, col0) = span_cell(height, width, span, 0);
    let (row1, col1) = span_cell(height, width, span, STEPS as int);
    ||| col0 < 0 && col1 < 0
    ||| col0 >= width && col1 >= width
    ||| row0 < 0 && row1 < 0
    ||| row0 >= height && row1 >= height
}

/// A figure none of whose steps falls inside the window leaves the buffer as it was.
pub proof fn lemma_draw_outside(
    cells: Seq<WinElem>,
    height: int,
    width: int,
    plane: (Vector, Vector),
    fig: FigureView,
)
    requires
        forall|j: int, k: int|
            0 <= j < fig.lines.len() && 0 <= k <= STEPS ==> {
                let cell = #[trigger] span_cell(
                    height,
                    width,
                    spec_span(plane, fig.lines[j], fig.position),
                    k,
                );
                !(0 <= cell.0 < height && 0 <= cell.1 < width)
            },
    ensures
        stamp_figure(cells, height, width, plane, fig) == cells,
{
    assert forall|i: int| 0 <= i < cells.len() implies !figure_covers(
        height,
        width,
        plane,
        fig,
        i,
    ) by {
        if figure_covers(height, width, plane, fig, i) {
            let j = choose|j: int|
                0 <= j < fig.lines.len() && #[trigger] span_covers(
                    height,
                    width,
                    spec_span(plane, fig.lines[j], fig.position),
                    i,
                );
            let span = spec_span(plane, fig.lines[j], fig.position);
            let k = choose|k: int| 0 <= k < STEPS + 1 && #[trigger] span_hits(height, width, span, k, i);
            assert(span_cell(height, width, span, k).0 < height);
        }
    }
    assert(stamp_figure(cells, height, width, plane, fig) =~= cells);
}

/// A figure whose every line lies beside the window — wholly to one side
/// of it — leaves the buffer as it was.
pub proof fn lemma_draw_beside(
    cells: Seq<WinElem>,
    height: int,
    width: int,
    plane: (Vector, Vector),
    fig: FigureView,
)
    requires
        forall|j: int|
            0 <= j < fig.lines.len() ==> #[trigger] span_beside(
                height,
                width,
                spec_span(plane, fig.lines[j], fig.position),
            ),
    ensures
        stamp_figure(cells, height, width, plane, fig) == cells,
{
    assert forall|j: int, k: int| 0 <= j < fig.lines.len() && 0 <= k <= STEPS implies {
        let cell = #[trigger] span_cell(
            height,
            width,
            spec_span(plane, fig.lines[j], fig.position),
            k,
        );
        !(0 <= cell.0 < height && 0 <= cell.1 < width)
    } by {
        let span = spec_span(plane, fig.lines[j], fig.position);
        assert(span_beside(height, width, span));
        lemma_sample_between(span.from.x, span.to.x, k);
        lemma_sample_between(span.from.y, span.to.y, k);
    }
    lemma_draw_outside(cells, height, width, plane, fig);
}

/// Every cell of a window can be addressed: row `row`, column `col` is at
/// index `row * width + col` of its buffer, and no two cells share an index.
pub proof fn lemma_window_addressable(win: Window, row: int, col: int)
    requires
        win.wf(),
        0 <= row < win.height(),
        0 <= col < win.width(),
    ensures
        0 <= row * win.width() + col < win@.len(),
        (row * win.width() + col) / win.width() == row,
        (row * win.width() + col) % win.width() == col,
{
    lemma_cell_index(win.height(), win.width(), row, col);
}

/// An index inside the buffer of a `height` by `width` grid is that of
/// exactly one cell: row `i / width`, column `i % width`.
pub proof fn lemma_index_cell(height: int, width: int, i: int)
    requires
        0 <= i < height * width,
        0 <= height,
        0 <= width,
    ensures
        0 < width,
        0 <= i / width < height,
        0 <= i % width < width,
        (i / width) * width + i % width == i,
{
    assert(0 < width) by (nonlinear_arith)
        requires
            0 <= i < height * width,
            0 <= height,
            0 <= width,
    ;
    vstd::arithmetic::div_mod::lemma_fundamental_div_mod(i, width);
    vstd::arithmetic::div_mod::lemma_mod_pos_bound(i, width);
    let q = i / width;
    let r = i % width;
    assert(q * width == width * q) by (nonlinear_arith);
    assert(0 <= q < height) by (nonlinear_arith)
        requires
            i == q * width + r,
            0 <= r < width,
            0 <= i < height * width,
    ;
}

impl Window {
    pub closed spec fn height(self) -> int {
        self.height as int
    }

    pub closed spec fn width(self) -> int {
        self.width as int
    }

    /// The two vectors that span the viewing plane.
    pub closed spec fn plane(self) -> (Vector, Vector) {
        (self.plane_vec_1, self.plane_vec_2)
    }

    /// The buffer holds exactly `height * width` cells. Every `Window` does.
    #[verifier::type_invariant]
    pub open spec fn wf(self) -> bool {
        self@.len() == self.height() * self.width() <= usize::MAX
    }

    /// Same size and same viewing plane: what no operation on the cells changes.
    pub open spec fn same_frame(self, other: Window) -> bool {
        &&& self.height() == other.height()
        &&& self.width() == other.width()
        &&& self.plane() == other.plane()
    }

    /// A window of `_height` rows and `_width` columns, every cell empty,
    /// looking down the z axis.
    pub fn get_new(_height: usize, _width: usize) -> (w: Window)
        requires
            _height * _width <= usize::MAX,
        ensures
            w.wf(),
            w.height() == _height,
            w.width() == _width,
            w.plane() == (spec_axis_x(), spec_axis_y()),
            forall|i: int| 0 <= i < w@.len() ==> w@[i] == WinElem::spec_empty(),
    {
        let n: usize = _height * _width;
        let mut cells: Vec<WinElem> = Vec::new();
        let mut i: usize = 0;
        while i < n
            invariant
                i <= n,
                cells@.len() == i,
                forall|k: int| 0 <= k < i ==> cells@[k] == WinElem::spec_empty(),
            decreases n - i,
        {
            cells.push(WinElem::empty());
            i = i + 1;
        }
        Window {
            plane_vec_1: Vector {
                x: Fixed { raw: SCALE },
                y: Fixed { raw: 0 },
                z: Fixed { raw: 0 },
            },
            plane_vec_2: Vector {
                x: Fixed { raw: 0 },
                y: Fixed { raw: SCALE },
                z: Fixed { raw: 0 },
            },
            height: _height,
            width: _width,
            cells,
        }
    }

    /// A window for a terminal of `columns` by `rows`: as wide as the
    /// terminal and one row shorter, which leaves the last line free.
    pub fn get_new_term_size(columns: u16, rows: u16) -> (w: Window)
        requires
            rows >= 1,
        ensures
            w.wf(),
            w.height() == rows - 1,
            w.width() == columns,
            w.plane() == (spec_axis_x(), spec_axis_y()),
            forall|i: int| 0 <= i < w@.len() ==> w@[i] == WinElem::spec_empty(),
    {
        let h: usize = rows as usize - 1;
        let w: usize = columns as usize;
        assert(h * w <= usize::MAX) by (nonlinear_arith)
            requires
                0 <= h < 0x1_0000,
                0 <= w < 0x1_0000,
                usize::MAX >= 0xffff_ffff,
        ;
        Window::get_new(h, w)
    }

    pub fn get_height(&self) -> (h: usize)
        ensures
            h == self.height(),
    {
        self.height
    }

    pub fn get_width(&self) -> (w: usize)
        ensures
            w == self.width(),
    {
        self.width
    }

    /// The cell at `(row, col)`, if the window has one there.
    pub fn get(&self, row: usize, col: usize) -> (r: Option<WinElem>)
        ensures
            self.wf(),
            r == if row < self.height() && col < self.width() {
                Some(self@[row * self.width() + col])
            } else {
                None
            },
    {
        proof {
            use_type_invariant(self);
        }
        if row < self.height && col < self.width {
            proof {
                lemma_cell_index(self.height as int, self.width as int, row as int, col as int);
            }
            Some(self.cells[row * self.width + col])
        } else {
            None
        }
    }

    /// Puts `elem` at `(row, col)`; a cell outside the window is skipped.
    fn plot(&mut self, row: i128, col: i128, elem: WinElem)
        ensures
            final(self).wf(),
            final(self).same_frame(*old(self)),
            final(self)@ == spec_plot(
                old(self)@,
                old(self).height(),
                old(self).width(),
                row as int,
                col as int,
                elem,
            ),
    {
        proof {
            use_type_invariant(&*self);
        }
        if 0 <= row && row < self.height as i128 && 0 <= col && col < self.width as i128 {
            proof {
                lemma_cell_index(self.height as int, self.width as int, row as int, col as int);
            }
            let index: usize = row as usize * self.width + col as usize;
            self.cells[index] = elem;
        }
    }

    /// Projects a point of space onto the viewing plane.
    pub fn project(&self, p: Vector) -> (s: Spot)
        ensures
            s == spec_project(self.plane(), p),
    {
        Spot { x: p.scalar_prod(self.plane_vec_1), y: p.scalar_prod(self.plane_vec_2) }
    }

    /// Stamps one projected segment, step by step.
    fn draw_span(&mut self, span: Span, color: Color)
        ensures
            final(self).wf(),
            final(self).same_frame(*old(self)),
            final(self)@ == stamp_span(old(self)@, old(self).height(), old(self).width(), span, color),
    {
        proof {
            use_type_invariant(&*self);
        }
        let hei: i128 = (self.height / 2) as i128;
        let wid: i128 = (self.width / 2) as i128;
        let ghost h = self.height();
        let ghost w = self.width();
        let mut k: i64 = 0;
        while k <= STEPS
            invariant
                0 <= k <= STEPS + 1,
                self.wf(),
                self.same_frame(*old(self)),
                h == self.height(),
                w == self.width(),
                hei == h / 2,
                wid == w / 2,
                self@.len() == old(self)@.len(),
                forall|i: int|
                    0 <= i < self@.len() ==> self@[i] == if span_covers_upto(h, w, span, k as int, i) {
                        WinElem::spec_mark(color)
                    } else {
                        old(self)@[i]
                    },
            decreases STEPS + 1 - k,
        {
            let row: i128 = sample_cell(span.from.y, span.to.y, k) + hei;
            let col: i128 = sample_cell(span.from.x, span.to.x, k) + wid;
            let ghost before = self@;
            self.plot(row, col, WinElem::mark(color));
            proof {
                assert((row as int, col as int) == span_cell(h, w, span, k as int));
                assert forall|i: int| 0 <= i < self@.len() implies self@[i] == if span_covers_upto(
                    h,
                    w,
                    span,
                    k + 1,
                    i,
                ) {
                    WinElem::spec_mark(color)
                } else {
                    old(self)@[i]
                } by {
                    if span_hits(h, w, span, k as int, i) {
                        assert(span_covers_upto(h, w, span, k + 1, i));
                    } else {
                        if 0 <= row < h && 0 <= col < w {
                            lemma_cell_index(h, w, row as int, col as int);
                        }
                        assert(self@[i] == before[i]);
                        if span_covers_upto(h, w, span, k + 1, i) {
                            let kk = choose|kk: int|
                                0 <= kk < k + 1 && #[trigger] span_hits(h, w, span, kk, i);
                            assert(span_hits(h, w, span, kk, i) && kk < k);
                        }
                    }
                }
            }
            k = k + 1;
        }
        assert(self@ =~= stamp_span(old(self)@, h, w, span, color));
    }

    /// Draws `fig` over what the buffer holds: each of its lines is projected
    /// and walked in `STEPS` equal steps, and every step that falls inside the
    /// window leaves the mark in the figure's colour.
    pub fn draw(&mut self, fig: &Figure)
        ensures
            final(self).wf(),
            final(self).same_frame(*old(self)),
            final(self)@ == stamp_figure(
                old(self)@,
                old(self).height(),
                old(self).width(),
                old(self).plane(),
                fig@,
            ),
    {
        proof {
            use_type_invariant(&*self);
        }
        let ghost h = self.height();
        let ghost w = self.width();
        let ghost plane = self.plane();
        let lines = fig.lines();
        let position = fig.position();
        let color = fig.color();
        let n: usize = lines.len();
        let mut j: usize = 0;
        while j < n
            invariant
                j <= n,
                n == lines@.len(),
                lines@ == fig@.lines,
                position == fig@.position,
                color == fig@.color,
                self.wf(),
                self.same_frame(*old(self)),
                h == self.height(),
                w == self.width(),
                plane == self.plane(),
                self@.len() == old(self)@.len(),
                forall|i: int|
                    0 <= i < self@.len() ==> self@[i] == if figure_covers_upto(
                        h,
                        w,
                        plane,
                        fig@,
                        j as int,
                        i,
                    ) {
                        WinElem::spec_mark(color)
                    } else {
                        old(self)@[i]
                    },
            decreases n - j,
        {
            let line = lines[j];
            let span = Span {
                from: self.project(line.begin.sum(position)),
                to: self.project(line.end.sum(position)),
            };
            let ghost before = self@;
            self.draw_span(span, color);
            proof {
                assert(span == spec_span(plane, fig@.lines[j as int], fig@.position));
                assert forall|i: int| 0 <= i < self@.len() implies self@[i] == if figure_covers_upto(
                    h,
                    w,
                    plane,
                    fig@,
                    j + 1,
                    i,
                ) {
                    WinElem::spec_mark(color)
                } else {
                    old(self)@[i]
                } by {
                    if span_covers(h, w, span, i) {
                        assert(figure_covers_upto(h, w, plane, fig@, j + 1, i));
                    } else {
                        assert(self@[i] == before[i]);
                        if figure_covers_upto(h, w, plane, fig@, j + 1, i) {
                            let jj = choose|jj: int|
                                0 <= jj < j + 1 && #[trigger] span_covers(
                                    h,
                                    w,
                                    spec_span(plane, fig@.lines[jj], fig@.position),
                                    i,
                                );
                            assert(jj < j);
                        }
                    }
                }
            }
            j = j + 1;
        }
        assert(self@ =~= stamp_figure(old(self)@, h, w, plane, fig@));
    }

    /// The row or column at the fraction `part` of `extent` cells.
    fn fraction(extent: usize, part: Fixed) -> (r: i128)
        ensures
            r == fraction_cell(extent as int, part),
            -0x1_0000_0000_0000_0000_0000_0000 <= r <= 0x1_0000_0000_0000_0000_0000_0000,
    {
        proof {
            lemma_round_div_bounds(extent * part.raw, SCALE as int);
        }
        assert(-0x7fff_ffff_ffff_ffff_8000_0000_0000_0000 <= extent * part.raw
            <= 0x7fff_ffff_ffff_ffff_8000_0000_0000_0000) by (nonlinear_arith)
            requires
                0 <= extent <= 0xffff_ffff_ffff_ffff,
                -0x8000_0000_0000_0000 <= part.raw <= 0x7fff_ffff_ffff_ffff,
        ;
        round_div_wide((extent as i128) * (part.raw as i128), SCALE as i128)
    }

    /// Writes `text`, byte for byte, on the row at the fraction `ph` of the
    /// height, about the column at the fraction `pw` of the width. Bytes
    /// that would fall outside the window are left out.
    pub fn write(&mut self, text: &str, ph: Fixed, pw: Fixed, mode: Writemodes, color: Color)
        ensures
            final(self).wf(),
            final(self).same_frame(*old(self)),
            final(self)@ == stamp_text(
                old(self)@,
                old(self).height(),
                old(self).width(),
                text.spec_bytes(),
                ph,
                pw,
                mode,
                color,
            ),
    {
        proof {
            use_type_invariant(&*self);
        }
        let ghost h = self.height();
        let ghost w = self.width();
        let row: i128 = Self::fraction(self.height, ph);
        let center: i128 = Self::fraction(self.width, pw);
        let textc: &[u8] = text.as_bytes();
        let length: usize = textc.len();
        let lenby2: i128 = (length / 2) as i128;
        match mode {
            Writemodes::Centered => {
                if center >= 0 && lenby2 <= center / 2 {
                    let start: i128 = center - lenby2 + 1;
                    let mut k: usize = 0;
                    while k < length
                        invariant
                            k <= length,
                            length == textc@.len(),
                            start == text_start(length as int, center as int),
                            0 < start <= 0x2_0000_0000_0000_0000_0000_0000,
                            self.wf(),
                            self.same_frame(*old(self)),
                            h == self.height(),
                            w == self.width(),
                            self@.len() == old(self)@.len(),
                            forall|i: int|
                                0 <= i < self@.len() ==> self@[i] == if i / w == row && 0 <= i % w
                                    - start < k {
                                    WinElem { data: textc@[i % w - start] as char, color }
                                } else {
                                    old(self)@[i]
                                },
                        decreases length - k,
                    {
                        let col: i128 = start + k as i128;
                        let ghost before = self@;
                        self.plot(row, col, WinElem { data: textc[k] as char, color });
                        proof {
                            assert forall|i: int| 0 <= i < self@.len() implies self@[i] == if i / w
                                == row && 0 <= i % w - start < k + 1 {
                                WinElem { data: textc@[i % w - start] as char, color }
                            } else {
                                old(self)@[i]
                            } by {
                                lemma_index_cell(h, w, i);
                                if 0 <= row < h && 0 <= col < w {
                                    lemma_cell_index(h, w, row as int, col as int);
                                }
                                assert(self@[i] == if i == row * w + col && 0 <= row < h && 0 <= col
                                    < w {
                                    WinElem { data: textc@[k as int] as char, color }
                                } else {
                                    before[i]
                                });
                            }
                        }
                        k = k + 1;
                    }
                }
            },
            Writemodes::ToLeft => {},
            Writemodes::ToRight => {},
        }
        assert(self@ =~= stamp_text(old(self)@, h, w, text.spec_bytes(), ph, pw, mode, color));
    }

    /// The frame as text: for every cell the escape sequence of its colour
    /// and its character, row after row, a line feed after each row.
    pub fn print(&self) -> (s: String)
        ensures
            s@ == frame_text(self@, self.width(), self.height() as nat),
    {
        proof {
            use_type_invariant(self);
        }
        let mut result = String::new();
        let mut i: usize = 0;
        while i < self.height
            invariant
                i <= self.height,
                self.cells@.len() == self.height * self.width <= usize::MAX,
                result@ == frame_text(self@, self.width(), i as nat),
            decreases self.height - i,
        {
            let ghost start = result@;
            let mut j: usize = 0;
            while j < self.width
                invariant
                    i < self.height,
                    j <= self.width,
                    self.cells@.len() == self.height * self.width <= usize::MAX,
                    result@ == start + row_text(self@, self.width(), i as int, j as nat),
                decreases self.width - j,
            {
                proof {
                    lemma_cell_index(self.height as int, self.width as int, i as int, j as int);
                }
                let elem = self.cells[i * self.width + j];
                let escape = elem.color.fg_escape();
                result.append(escape.as_str());
                push_char(&mut result, elem.data);
                assert(result@ =~= start + row_text(self@, self.width(), i as int, (j + 1) as nat));
                j = j + 1;
            }
            push_char(&mut result, '\n');
            assert(result@ =~= frame_text(self@, self.width(), (i + 1) as nat));
            i = i + 1;
        }
        result
    }

    /// Sets every cell to `character` in the neutral colour.
    pub fn fill(&mut self, character: char)
        ensures
            final(self).wf(),
            final(self).same_frame(*old(self)),
            forall|i: int|
                0 <= i < final(self)@.len() ==> final(self)@[i] == (WinElem {
                    data: character,
                    color: WinElem::spec_white(),
                }),
    {
        proof {
            use_type_invariant(&*self);
        }
        let n: usize = self.cells.len();
        let mut i: usize = 0;
        while i < n
            invariant
                i <= n,
                n == self.cells@.len(),
                self.cells@.len() == self.height * self.width <= usize::MAX,
                self.same_frame(*old(self)),
                forall|k: int|
                    0 <= k < i ==> self.cells@[k] == (WinElem {
                        data: character,
                        color: WinElem::spec_white(),
                    }),
            decreases n - i,
        {
            self.cells[i] = WinElem { data: character, color: Color::Rgb(255, 255, 255) };
            i = i + 1;
        }
    }

    /// Empties every cell.
    pub fn clear(&mut self)
        ensures
            final(self).wf(),
            final(self).same_frame(*old(self)),
            forall|i: int| 0 <= i < final(self)@.len() ==> final(self)@[i] == WinElem::spec_empty(),
    {
        self.fill(' ');
    }
}

} // verus!
