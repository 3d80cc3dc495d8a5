//! Wireframe figures: line segments about a centre, a place in the world and a colour.

use vstd::prelude::*;
use crate::angle::{
    clear_of_saturation, close_point, lemma_rotation_keeps_length, lemma_rotation_reversible,
    same_length, within_reach, Angle,
};
use crate::color::Color;
use crate::fixed::Fixed;
use crate::vector::Vector;

verus! {

/// A line segment, given by its two ends relative to the centre of its figure.
#[derive(Clone, Copy, Debug, PartialEq, Eq, Structural)]
pub struct Line {
    pub begin: Vector,
    pub end: Vector,
}

/// A rigid wireframe: its lines in drawing order, where its centre stands in
/// the world, and the one colour of all its lines.
#[derive(Debug)]
pub struct Figure {
    position: Vector,
    lines: Vec<Line>,
    color: Color,
}

/// What a [`Figure`] is, as plain mathematical data.
pub ghost struct FigureView {
    pub position: Vector,
    pub lines: Seq<Line>,
    pub color: Color,
}

impl View for Figure {
    type V = FigureView;

    closed spec fn view(&self) -> FigureView {
        FigureView { position: self.position, lines: self.lines@, color: self.color }
    }
}

/// The sine of sixty degrees, to the nearest raw unit.
pub open spec fn spec_sin_60() -> Fixed {
    Fixed { raw: 2_165_063_509_461 }
}

/// The cosine of sixty degrees.
pub open spec fn spec_cos_60() -> Fixed {
    Fixed { raw: 1_250_000_000_000 }
}

/// The point with the given raw coordinates.
pub open spec fn point(x: Fixed, y: Fixed, z: Fixed) -> Vector {
    Vector { x, y, z }
}

/// The three edges that leave the corner `p` of a box centred on the origin:
/// to the corner across the x direction, across y, and across z.
pub open spec fn corner_edges(p: Vector) -> Seq<Line> {
    seq![
        Line { begin: p, end: point(p.x.spec_negated(), p.y, p.z) },
        Line { begin: p, end: point(p.x, p.y.spec_negated(), p.z) },
        Line { begin: p, end: point(p.x, p.y, p.z.spec_negated()) },
    ]
}

/// The twelve edges of the cube of half-extent `d`: three from each of four
/// corners no two of which share an edge.
pub open spec fn cube_lines(d: Fixed) -> Seq<Line> {
    let n = d.spec_negated();
    corner_edges(point(n, n, d)) + corner_edges(point(n, d, n)) + corner_edges(point(d, n, n))
        + corner_edges(point(d, d, d))
}

/// The twelve edges of the bipyramid with top apex at height `d`: four from
/// the top, four to the bottom, and the four sides of the square waist, one
/// after the other round it.
pub open spec fn ruby_lines(d: Fixed) -> Seq<Line> {
    let zero = Fixed { raw: 0 };
    let m = d.spec_scaled(3, 4);
    let n = m.spec_negated();
    let top = point(zero, d, zero);
    let e1 = point(m, zero, m);
    let e2 = point(n, zero, m);
    let e3 = point(m, zero, n);
    let e4 = point(n, zero, n);
    let bottom = point(zero, d.spec_scaled(-1i64, 2), zero);
    seq![
        Line { begin: top, end: e1 },
        Line { begin: top, end: e2 },
        Line { begin: top, end: e3 },
        Line { begin: top, end: e4 },
        Line { begin: e1, end: bottom },
        Line { begin: e2, end: bottom },
        Line { begin: e3, end: bottom },
        Line { begin: e4, end: bottom },
        Line { begin: e1, end: e2 },
        Line { begin: e2, end: e4 },
        Line { begin: e4, end: e3 },
        Line { begin: e3, end: e1 },
    ]
}

/// The six edges of the pyramid of size `s`: its apex joined to each of the
/// three corners of the base, and the base itself.
pub open spec fn pyramid_lines(s: Fixed) -> Seq<Line> {
    let zero = Fixed { raw: 0 };
    let c = s.spec_times(spec_cos_60()).spec_negated();
    let t = s.spec_times(spec_sin_60());
    let apex = point(zero, s, zero);
    let b1 = point(c, zero, t);
    let b2 = point(c, zero, t.spec_negated());
    let b3 = point(s, zero, zero);
    seq![
        Line { begin: apex, end: b1 },
        Line { begin: apex, end: b2 },
        Line { begin: apex, end: b3 },
        Line { begin: b1, end: b2 },
        Line { begin: b1, end: b3 },
        Line { begin: b2, end: b3 },
    ]
}

/// The four sides of the flat rectangle of `height` by `width` cells about
/// the origin of the plane `z = 0`: its corners are at half the width and
/// half the height to either side.
pub open spec fn square_lines(height: usize, width: usize) -> Seq<Line> {
    let zero = Fixed { raw: 0 };
    let w = Fixed::spec_half_of(width);
    let h = Fixed::spec_half_of(height);
    let c1 = point(w, h, zero);
    let c2 = point(w.spec_negated(), h, zero);
    let c3 = point(w.spec_negated(), h.spec_negated(), zero);
    let c4 = point(w, h.spec_negated(), zero);
    seq![
        Line { begin: c1, end: c2 },
        Line { begin: c2, end: c3 },
        Line { begin: c3, end: c4 },
        Line { begin: c4, end: c1 },
    ]
}

/// `p` is one of the eight corners of the cube of half-extent `d`.
pub open spec fn is_cube_corner(p: Vector, d: Fixed) -> bool {
    &&& p.x == d || p.x == d.spec_negated()
    &&& p.y == d || p.y == d.spec_negated()
    &&& p.z == d || p.z == d.spec_negated()
}

/// `p` and `q` differ in exactly one of their three coordinates.
pub open spec fn differ_in_one(p: Vector, q: Vector) -> bool {
    ||| p.x != q.x && p.y == q.y && p.z == q.z
    ||| p.x == q.x && p.y != q.y && p.z == q.z
    ||| p.x == q.x && p.y == q.y && p.z != q.z
}

/// `line` joins `p` and `q`, in one direction or the other.
pub open spec fn joins(line: Line, p: Vector, q: Vector) -> bool {
    (line.begin == p && line.end == q) || (line.begin == q && line.end == p)
}

/// The lines of a cube are its wireframe: each is an edge, no edge comes
/// twice, and every edge is among them.
pub proof fn lemma_cube_wireframe(d: Fixed)
    requires
        d.raw != 0,
        d.raw != i64::MIN,
    ensures
        cube_lines(d).len() == 12,
        forall|i: int|
            0 <= i < 12 ==> {
                let line = #[trigger] cube_lines(d)[i];
                is_cube_corner(line.begin, d) && is_cube_corner(line.end, d) && differ_in_one(
                    line.begin,
                    line.end,
                )
            },
        forall|i: int, j: int|
            0 <= i < j < 12 ==> !joins(
                #[trigger] cube_lines(d)[i],
                (#[trigger] cube_lines(d)[j]).begin,
                cube_lines(d)[j].end,
            ),
        forall|p: Vector, q: Vector|
            is_cube_corner(p, d) && is_cube_corner(q, d) && #[trigger] differ_in_one(p, q)
                ==> exists|i: int| 0 <= i < 12 && joins(#[trigger] cube_lines(d)[i], p, q),
{
    let n = d.spec_negated();
    let l = cube_lines(d);
    assert(n.raw == -d.raw && n.spec_negated() == d && n != d);
    assert(l =~= seq![
        Line { begin: point(n, n, d), end: point(d, n, d) },
        Line { begin: point(n, n, d), end: point(n, d, d) },
        Line { begin: point(n, n, d), end: point(n, n, n) },
        Line { begin: point(n, d, n), end: point(d, d, n) },
        Line { begin: point(n, d, n), end: point(n, n, n) },
        Line { begin: point(n, d, n), end: point(n, d, d) },
        Line { begin: point(d, n, n), end: point(n, n, n) },
        Line { begin: point(d, n, n), end: point(d, d, n) },
        Line { begin: point(d, n, n), end: point(d, n, d) },
        Line { begin: point(d, d, d), end: point(n, d, d) },
        Line { begin: point(d, d, d), end: point(d, n, d) },
        Line { begin: point(d, d, d), end: point(d, d, n) },
    ]);
    assert forall|p: Vector, q: Vector|
        is_cube_corner(p, d) && is_cube_corner(q, d) && #[trigger] differ_in_one(
            p,
            q,
        ) implies exists|i: int| 0 <= i < 12 && joins(#[trigger] cube_lines(d)[i], p, q) by {
        assert(joins(l[0], p, q) || joins(l[1], p, q) || joins(l[2], p, q) || joins(l[3], p, q)
            || joins(l[4], p, q) || joins(l[5], p, q) || joins(l[6], p, q) || joins(l[7], p, q)
            || joins(l[8], p, q) || joins(l[9], p, q) || joins(l[10], p, q) || joins(l[11], p, q));
    }
}

/// A line turned by an angle and then by the opposite angle about the same
/// axis has both its ends near where they were, in every coordinate: within
/// a thousand millionth of a cell, and within one raw unit up to a hundred
/// thousand cells.
pub proof fn lemma_line_rotation_reversible(line: Line, alpha: Angle, back: Angle)
    requires
        alpha.wf(),
        back.is_inverse_of(alpha),
        clear_of_saturation(line.begin),
        clear_of_saturation(line.end),
    ensures
        ({
            let lx = line.spec_rotated_x(alpha).spec_rotated_x(back);
            let ly = line.spec_rotated_y(alpha).spec_rotated_y(back);
            let lz = line.spec_rotated_z(alpha).spec_rotated_z(back);
            &&& close_point(lx.begin, line.begin) && close_point(lx.end, line.end)
            &&& close_point(ly.begin, line.begin) && close_point(ly.end, line.end)
            &&& close_point(lz.begin, line.begin) && close_point(lz.end, line.end)
        }),
{
    lemma_rotation_reversible(line.begin, alpha, back);
    lemma_rotation_reversible(line.end, alpha, back);
}

/// A rotation of a line of up to a thousand cells in each coordinate, about
/// any axis, keeps the scalar product of each of its ends with itself to a
/// thousand millionth.
pub proof fn lemma_line_rotation_keeps_length(line: Line, alpha: Angle)
    requires
        alpha.wf(),
        within_reach(line.begin),
        within_reach(line.end),
    ensures
        same_length(line.spec_rotated_x(alpha).begin, line.begin),
        same_length(line.spec_rotated_x(alpha).end, line.end),
        same_length(line.spec_rotated_y(alpha).begin, line.begin),
        same_length(line.spec_rotated_y(alpha).end, line.end),
        same_length(line.spec_rotated_z(alpha).begin, line.begin),
        same_length(line.spec_rotated_z(alpha).end, line.end),
{
    lemma_rotation_keeps_length(line.begin, alpha);
    lemma_rotation_keeps_length(line.end, alpha);
}

impl Line {
    /// Both ends turned about the x axis.
    pub open spec fn spec_rotated_x(self, alpha: Angle) -> Line {
        Line { begin: self.begin.spec_rotated_x(alpha), end: self.end.spec_rotated_x(alpha) }
    }

    /// Both ends turned about the y axis.
    pub open spec fn spec_rotated_y(self, alpha: Angle) -> Line {
        Line { begin: self.begin.spec_rotated_y(alpha), end: self.end.spec_rotated_y(alpha) }
    }

    /// Both ends turned about the z axis.
    pub open spec fn spec_rotated_z(self, alpha: Angle) -> Line {
        Line { begin: self.begin.spec_rotated_z(alpha), end: self.end.spec_rotated_z(alpha) }
    }

    pub fn new(begin: Vector, end: Vector) -> (l: Line)
        ensures
            l == (Line { begin, end }),
    {
        Line { begin, end }
    }

    pub fn rotate_in_x(&mut self, alpha: Angle)
        ensures
            *final(self) == old(self).spec_rotated_x(alpha),
    {
        self.begin = self.begin.rotated_x(alpha);
        self.end = self.end.rotated_x(alpha);
    }

    pub fn rotate_in_y(&mut self, alpha: Angle)
        ensures
            *final(self) == old(self).spec_rotated_y(alpha),
    {
        self.begin = self.begin.rotated_y(alpha);
        self.end = self.end.rotated_y(alpha);
    }

    pub fn rotate_in_z(&mut self, alpha: Angle)
        ensures
            *final(self) == old(self).spec_rotated_z(alpha),
    {
        self.begin = self.begin.rotated_z(alpha);
        self.end = self.end.rotated_z(alpha);
    }
}

/// Appends the three edges that leave the corner `p`.
fn push_corner_edges(lines: &mut Vec<Line>, p: Vector)
    ensures
        final(lines)@ == old(lines)@ + corner_edges(p),
{
    let mut q = p;
    q.x = q.x.negated();
    lines.push(Line { begin: p, end: q });
    q.x = p.x;
    q.y = q.y.negated();
    lines.push(Line { begin: p, end: q });
    q.y = p.y;
    q.z = q.z.negated();
    lines.push(Line { begin: p, end: q });
    assert(lines@ =~= old(lines)@ + corner_edges(p));
}

impl Figure {
    /// A figure made of the given lines.
    pub fn new(position: Vector, lines: Vec<Line>, color: Color) -> (f: Figure)
        ensures
            f@ == (FigureView { position, lines: lines@, color }),
    {
        Figure { position, lines, color }
    }

    pub fn position(&self) -> (p: Vector)
        ensures
            p == self@.position,
    {
        self.position
    }

    pub fn color(&self) -> (c: Color)
        ensures
            c == self@.color,
    {
        self.color
    }

    pub fn lines(&self) -> (l: &Vec<Line>)
        ensures
            l@ == self@.lines,
    {
        &self.lines
    }

    /// A cube with edges of length `dimention`.
    pub fn cube(dimention: Fixed, _position: Vector, _color: Color) -> (f: Figure)
        ensures
            f@.lines == cube_lines(dimention.spec_scaled(1, 2)),
            f@.lines.len() == 12,
            f@.position == _position,
            f@.color == _color,
    {
        let dim = dimention.scaled(1, 2);
        let neg = dim.negated();
        let mut lines: Vec<Line> = Vec::new();
        push_corner_edges(&mut lines, Vector { x: neg, y: neg, z: dim });
        push_corner_edges(&mut lines, Vector { x: neg, y: dim, z: neg });
        push_corner_edges(&mut lines, Vector { x: dim, y: neg, z: neg });
        push_corner_edges(&mut lines, Vector { x: dim, y: dim, z: dim });
        assert(lines@ =~= cube_lines(dim));
        Figure { lines, position: _position, color: _color }
    }

    /// A bipyramid: a square waist, a tall cap above it and a shallow one below.
    pub fn ruby(dimention: Fixed, _position: Vector, _color: Color) -> (f: Figure)
        ensures
            f@.lines == ruby_lines(dimention.spec_scaled(1, 2)),
            f@.lines.len() == 12,
            f@.position == _position,
            f@.color == _color,
    {
        let zero = Fixed { raw: 0 };
        let dim = dimention.scaled(1, 2);
        let med = dim.scaled(3, 4);
        let neg = med.negated();
        let top = Vector { x: zero, y: dim, z: zero };
        let e1 = Vector { x: med, y: zero, z: med };
        let e2 = Vector { x: neg, y: zero, z: med };
        let e3 = Vector { x: med, y: zero, z: neg };
        let e4 = Vector { x: neg, y: zero, z: neg };
        let bottom = Vector { x: zero, y: dim.scaled(-1, 2), z: zero };
        let mut lines: Vec<Line> = Vec::new();
        lines.push(Line { begin: top, end: e1 });
        lines.push(Line { begin: top, end: e2 });
        lines.push(Line { begin: top, end: e3 });
        lines.push(Line { begin: top, end: e4 });
        lines.push(Line { begin: e1, end: bottom });
        lines.push(Line { begin: e2, end: bottom });
        lines.push(Line { begin: e3, end: bottom });
        lines.push(Line { begin: e4, end: bottom });
        lines.push(Line { begin: e1, end: e2 });
        lines.push(Line { begin: e2, end: e4 });
        lines.push(Line { begin: e4, end: e3 });
        lines.push(Line { begin: e3, end: e1 });
        assert(lines@ =~= ruby_lines(dim));
        Figure { lines, position: _position, color: _color }
    }

    /// A triangular pyramid with its apex at height `dimention`.
    pub fn pyramid(dimention: Fixed, _position: Vector, _color: Color) -> (f: Figure)
        ensures
            f@.lines == pyramid_lines(dimention),
            f@.lines.len() == 6,
            f@.position == _position,
            f@.color == _color,
    {
        let zero = Fixed { raw: 0 };
        let dcos = dimention.times(Fixed { raw: 1_250_000_000_000 }).negated();
        let dsen = dimention.times(Fixed { raw: 2_165_063_509_461 });
        let apex = Vector { x: zero, y: dimention, z: zero };
        let b1 = Vector { x: dcos, y: zero, z: dsen };
        let b2 = Vector { x: dcos, y: zero, z: dsen.negated() };
        let b3 = Vector { x: dimention, y: zero, z: zero };
        let mut lines: Vec<Line> = Vec::new();
        lines.push(Line { begin: apex, end: b1 });
        lines.push(Line { begin: apex, end: b2 });
        lines.push(Line { begin: apex, end: b3 });
        lines.push(Line { begin: b1, end: b2 });
        lines.push(Line { begin: b1, end: b3 });
        lines.push(Line { begin: b2, end: b3 });
        assert(lines@ =~= pyramid_lines(dimention));
        Figure { lines, position: _position, color: _color }
    }

    /// A flat rectangle of `height` by `width` cells, for framing.
    pub fn square(height: usize, width: usize, _position: Vector, _color: Color) -> (f: Figure)
        ensures
            f@.lines == square_lines(height, width),
            f@.lines.len() == 4,
            f@.position == _position,
            f@.color == _color,
    {
        let zero = Fixed { raw: 0 };
        let wby2 = Fixed::half_of(width);
        let hby2 = Fixed::half_of(height);
        let c1 = Vector { x: wby2, y: hby2, z: zero };
        let c2 = Vector { x: wby2.negated(), y: hby2, z: zero };
        let c3 = Vector { x: wby2.negated(), y: hby2.negated(), z: zero };
        let c4 = Vector { x: wby2, y: hby2.negated(), z: zero };
        let mut lines: Vec<Line> = Vec::new();
        lines.push(Line { begin: c1, end: c2 });
        lines.push(Line { begin: c2, end: c3 });
        lines.push(Line { begin: c3, end: c4 });
        lines.push(Line { begin: c4, end: c1 });
        assert(lines@ =~= square_lines(height, width));
        Figure { lines, position: _position, color: _color }
    }

    /// Turns every line about the x axis; the figure stays where it stands.
    pub fn rotate_in_x(&mut self, alpha: Angle)
        ensures
            final(self)@.position == old(self)@.position,
            final(self)@.color == old(self)@.color,
            final(self)@.lines.len() == old(self)@.lines.len(),
            forall|i: int|
                0 <= i < old(self)@.lines.len() ==> final(self)@.lines[i] == old(
                    self,
                )@.lines[i].spec_rotated_x(alpha),
    {
        let n: usize = self.lines.len();
        let mut i: usize = 0;
        while i < n
            invariant
                i <= n,
                n == self.lines@.len(),
                self.lines@.len() == old(self).lines@.len(),
                self.position == old(self).position,
                self.color == old(self).color,
                forall|k: int| 0 <= k < i ==> self.lines@[k] == old(self).lines@[k].spec_rotated_x(alpha),
                forall|k: int| i <= k < n ==> self.lines@[k] == old(self).lines@[k],
            decreases n - i,
        {
            let mut line = self.lines[i];
            line.rotate_in_x(alpha);
            self.lines.set(i, line);
            i = i + 1;
        }
    }

    /// Turns every line about the y axis; the figure stays where it stands.
    pub fn rotate_in_y(&mut self, alpha: Angle)
        ensures
            final(self)@.position == old(self)@.position,
            final(self)@.color == old(self)@.color,
            final(self)@.lines.len() == old(self)@.lines.len(),
            forall|i: int|
                0 <= i < old(self)@.lines.len() ==> final(self)@.lines[i] == old(
                    self,
                )@.lines[i].spec_rotated_y(alpha),
    {
        let n: usize = self.lines.len();
        let mut i: usize = 0;
        while i < n
            invariant
                i <= n,
                n == self.lines@.len(),
                self.lines@.len() == old(self).lines@.len(),
                self.position == old(self).position,
                self.color == old(self).color,
                forall|k: int| 0 <= k < i ==> self.lines@[k] == old(self).lines@[k].spec_rotated_y(alpha),
                forall|k: int| i <= k < n ==> self.lines@[k] == old(self).lines@[k],
            decreases n - i,
        {
            let mut line = self.lines[i];
            line.rotate_in_y(alpha);
            self.lines.set(i, line);
            i = i + 1;
        }
    }

    /// Turns every line about the z axis; the figure stays where it stands.
    pub fn rotate_in_z(&mut self, alpha: Angle)
        ensures
            final(self)@.position == old(self)@.position,
            final(self)@.color == old(self)@.color,
            final(self)@.lines.len() == old(self)@.lines.len(),
            forall|i: int|
                0 <= i < old(self)@.lines.len() ==> final(self)@.lines[i] == old(
                    self,
                )@.lines[i].spec_rotated_z(alpha),
    {
        let n: usize = self.lines.len();
        let mut i: usize = 0;
        while i < n
            invariant
                i <= n,
                n == self.lines@.len(),
                self.lines@.len() == old(self).lines@.len(),
                self.position == old(self).position,
                self.color == old(self).color,
                forall|k: int| 0 <= k < i ==> self.lines@[k] == old(self).lines@[k].spec_rotated_z(alpha),
                forall|k: int| i <= k < n ==> self.lines@[k] == old(self).lines@[k],
            decreases n - i,
        {
            let mut line = self.lines[i];
            line.rotate_in_z(alpha);
            self.lines.set(i, line);
            i = i + 1;
        }
    }
}

} // verus!
