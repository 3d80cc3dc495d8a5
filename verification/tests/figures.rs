use wireframe::angle::Angle;
use wireframe::color::Color;
use wireframe::figure::{Figure, Line};
use wireframe::fixed::{Fixed, SCALE};
use wireframe::vector::Vector;

fn fx(v: f64) -> Fixed {
    Fixed::from_raw((v * SCALE as f64).round() as i64)
}

fn vec3(x: f64, y: f64, z: f64) -> Vector {
    Vector::new(fx(x), fx(y), fx(z))
}

fn line(a: (f64, f64, f64), b: (f64, f64, f64)) -> Line {
    Line::new(vec3(a.0, a.1, a.2), vec3(b.0, b.1, b.2))
}

fn same_segment(a: &Line, b: &Line) -> bool {
    (a.begin == b.begin && a.end == b.end) || (a.begin == b.end && a.end == b.begin)
}

#[test]
fn cube_has_twelve_lines() {
    for size in [1.0, 2.0, 25.0, 30.0, 1000.5] {
        let cube = Figure::cube(fx(size), vec3(0.0, 0.0, 60.0), Color::White);
        assert_eq!(cube.lines().len(), 12);
    }
}

#[test]
fn pyramid_has_six_lines() {
    for size in [1.0, 10.0, 20.0, 1000.5] {
        let pyramid = Figure::pyramid(fx(size), vec3(0.0, 0.0, 60.0), Color::White);
        assert_eq!(pyramid.lines().len(), 6);
    }
}

#[test]
fn ruby_has_twelve_lines() {
    for size in [1.0, 12.0, 15.0, 30.0, 1000.5] {
        let ruby = Figure::ruby(fx(size), vec3(0.0, 0.0, 60.0), Color::White);
        assert_eq!(ruby.lines().len(), 12);
    }
}

#[test]
fn square_has_four_lines() {
    for (h, w) in [(1usize, 1usize), (3, 20), (40, 80)] {
        let square = Figure::square(h, w, vec3(0.0, 0.0, 0.0), Color::White);
        assert_eq!(square.lines().len(), 4);
    }
}

#[test]
fn builders_keep_position_and_color() {
    let at = vec3(35.0, 10.0, 40.0);
    let red = Color::Rgb(255, 0, 0);
    let ruby = Figure::ruby(fx(15.0), at, red);
    assert_eq!(ruby.position(), at);
    assert_eq!(ruby.color(), red);
    let cube = Figure::cube(fx(25.0), at, Color::Cyan);
    assert_eq!(cube.position(), at);
    assert_eq!(cube.color(), Color::Cyan);
    let pyramid = Figure::pyramid(fx(10.0), at, Color::AnsiValue(200));
    assert_eq!(pyramid.position(), at);
    assert_eq!(pyramid.color(), Color::AnsiValue(200));
    let square = Figure::square(3, 20, at, Color::Reset);
    assert_eq!(square.position(), at);
    assert_eq!(square.color(), Color::Reset);
}

#[test]
fn cube_lines_in_drawing_order() {
    let cube = Figure::cube(fx(25.0), vec3(0.0, 0.0, 60.0), Color::White);
    let d = 12.5;
    let want = vec![
        line((-d, -d, d), (d, -d, d)),
        line((-d, -d, d), (-d, d, d)),
        line((-d, -d, d), (-d, -d, -d)),
        line((-d, d, -d), (d, d, -d)),
        line((-d, d, -d), (-d, -d, -d)),
        line((-d, d, -d), (-d, d, d)),
        line((d, -d, -d), (-d, -d, -d)),
        line((d, -d, -d), (d, d, -d)),
        line((d, -d, -d), (d, -d, d)),
        line((d, d, d), (-d, d, d)),
        line((d, d, d), (d, -d, d)),
        line((d, d, d), (d, d, -d)),
    ];
    assert_eq!(cube.lines(), &want);
}

#[test]
fn cube_lines_are_the_twelve_edges() {
    let cube = Figure::cube(fx(30.0), vec3(0.0, 0.0, 60.0), Color::White);
    let lines = cube.lines();
    let d = fx(15.0);
    for (i, l) in lines.iter().enumerate() {
        let mut differing = 0;
        for (a, b) in [(l.begin.x, l.end.x), (l.begin.y, l.end.y), (l.begin.z, l.end.z)] {
            assert!(a == d || a == d.negated());
            assert!(b == d || b == d.negated());
            if a != b {
                differing += 1;
            }
        }
        assert_eq!(differing, 1);
        for other in lines.iter().skip(i + 1) {
            assert!(!same_segment(l, other));
        }
    }
}

#[test]
fn ruby_lines_in_drawing_order() {
    let ruby = Figure::ruby(fx(16.0), vec3(0.0, 0.0, 40.0), Color::Red);
    // half-extent 8, waist at three quarters of it, bottom at half of it below
    let top = (0.0, 8.0, 0.0);
    let e1 = (6.0, 0.0, 6.0);
    let e2 = (-6.0, 0.0, 6.0);
    let e3 = (6.0, 0.0, -6.0);
    let e4 = (-6.0, 0.0, -6.0);
    let bottom = (0.0, -4.0, 0.0);
    let want = vec![
        line(top, e1),
        line(top, e2),
        line(top, e3),
        line(top, e4),
        line(e1, bottom),
        line(e2, bottom),
        line(e3, bottom),
        line(e4, bottom),
        line(e1, e2),
        line(e2, e4),
        line(e4, e3),
        line(e3, e1),
    ];
    assert_eq!(ruby.lines(), &want);
}

#[test]
fn ruby_waist_is_a_ring() {
    let ruby = Figure::ruby(fx(8.0), vec3(0.0, 0.0, 60.0), Color::Red);
    let zero = fx(0.0);
    let ring: Vec<&Line> =
        ruby.lines().iter().filter(|l| l.begin.y == zero && l.end.y == zero).collect();
    assert_eq!(ring.len(), 4);
    for l in ring.iter() {
        // a side of the square: the ends differ in the sign of one of x and z, not both
        let across_x = l.begin.x != l.end.x;
        let across_z = l.begin.z != l.end.z;
        assert!(across_x != across_z);
        assert_eq!(l.begin.x.raw.abs(), fx(3.0).raw);
        assert_eq!(l.begin.z.raw.abs(), fx(3.0).raw);
        assert_eq!(l.end.x.raw.abs(), fx(3.0).raw);
        assert_eq!(l.end.z.raw.abs(), fx(3.0).raw);
    }
    for corner in [(3.0, 3.0), (-3.0, 3.0), (3.0, -3.0), (-3.0, -3.0)] {
        let p = vec3(corner.0, 0.0, corner.1);
        let met = ring.iter().filter(|l| l.begin == p || l.end == p).count();
        assert_eq!(met, 2);
    }
    // one after the other round the waist
    for i in 0..4 {
        assert_eq!(ring[i].end, ring[(i + 1) % 4].begin);
    }
}

#[test]
fn pyramid_lines_in_drawing_order() {
    let pyramid = Figure::pyramid(fx(10.0), vec3(0.0, 0.0, 60.0), Color::White);
    let apex = vec3(0.0, 10.0, 0.0);
    let b1 = Vector::new(fx(-5.0), fx(0.0), Fixed::from_raw(21_650_635_094_610));
    let b2 = Vector::new(fx(-5.0), fx(0.0), Fixed::from_raw(-21_650_635_094_610));
    let b3 = vec3(10.0, 0.0, 0.0);
    let want = vec![
        Line::new(apex, b1),
        Line::new(apex, b2),
        Line::new(apex, b3),
        Line::new(b1, b2),
        Line::new(b1, b3),
        Line::new(b2, b3),
    ];
    assert_eq!(pyramid.lines(), &want);
}

#[test]
fn pyramid_base_uses_sine_and_cosine_of_sixty_degrees() {
    let pyramid = Figure::pyramid(fx(1.0), vec3(0.0, 0.0, 0.0), Color::White);
    let b1 = pyramid.lines()[0].end;
    let third = std::f64::consts::PI / 3.0;
    assert_eq!(b1.x, fx(-third.cos()));
    assert_eq!(b1.z, fx(third.sin()));
}

#[test]
fn square_lines_in_drawing_order() {
    // half of 20 and half of 3: 10 and 1.5
    let square = Figure::square(3, 20, vec3(0.0, -5.0, 0.0), Color::White);
    let want = vec![
        line((10.0, 1.5, 0.0), (-10.0, 1.5, 0.0)),
        line((-10.0, 1.5, 0.0), (-10.0, -1.5, 0.0)),
        line((-10.0, -1.5, 0.0), (10.0, -1.5, 0.0)),
        line((10.0, -1.5, 0.0), (10.0, 1.5, 0.0)),
    ];
    assert_eq!(square.lines(), &want);
}

#[test]
fn square_corners_stand_at_half_the_sides() {
    for (h, w) in [(1usize, 1usize), (3, 20), (4, 7), (40, 80)] {
        let square = Figure::square(h, w, vec3(0.0, 0.0, 5.0), Color::White);
        for l in square.lines().iter() {
            for p in [l.begin, l.end] {
                assert_eq!(p.x.raw.abs(), fx(w as f64 / 2.0).raw);
                assert_eq!(p.y.raw.abs(), fx(h as f64 / 2.0).raw);
                assert_eq!(p.z.raw, 0);
            }
        }
    }
}

#[test]
fn figure_new_holds_what_it_is_given() {
    let lines = vec![line((0.0, 0.0, 0.0), (1.0, 2.0, 3.0))];
    let fig = Figure::new(vec3(1.0, 1.0, 1.0), lines.clone(), Color::Green);
    assert_eq!(fig.lines(), &lines);
    assert_eq!(fig.position(), vec3(1.0, 1.0, 1.0));
    assert_eq!(fig.color(), Color::Green);
}

#[test]
fn figure_rotation_turns_every_line_and_nothing_else() {
    let a = Angle::new(fx(0.6), fx(0.8)).unwrap();
    let at = vec3(7.0, 8.0, 9.0);
    let lines = vec![
        line((10.0, 5.0, 20.0), (0.0, 10.0, 5.0)),
        line((0.0, 10.0, 5.0), (10.0, 5.0, 20.0)),
    ];

    let mut fig = Figure::new(at, lines.clone(), Color::Blue);
    fig.rotate_in_x(a);
    let want = vec![
        line((10.0, -8.0, 19.0), (0.0, 5.0, 10.0)),
        line((0.0, 5.0, 10.0), (10.0, -8.0, 19.0)),
    ];
    assert_eq!(fig.lines(), &want);
    assert_eq!(fig.position(), at);
    assert_eq!(fig.color(), Color::Blue);

    let mut fig = Figure::new(at, lines.clone(), Color::Blue);
    fig.rotate_in_y(a);
    let want = vec![
        line((-4.0, 5.0, 22.0), (-3.0, 10.0, 4.0)),
        line((-3.0, 10.0, 4.0), (-4.0, 5.0, 22.0)),
    ];
    assert_eq!(fig.lines(), &want);
    assert_eq!(fig.position(), at);

    let mut fig = Figure::new(at, lines, Color::Blue);
    fig.rotate_in_z(a);
    let want = vec![
        line((5.0, 10.0, 20.0), (-6.0, 8.0, 5.0)),
        line((-6.0, 8.0, 5.0), (5.0, 10.0, 20.0)),
    ];
    assert_eq!(fig.lines(), &want);
    assert_eq!(fig.position(), at);
}

#[test]
fn rotating_a_figure_without_lines_is_possible() {
    let mut fig = Figure::new(vec3(0.0, 0.0, 0.0), Vec::new(), Color::White);
    fig.rotate_in_x(Angle::zero());
    fig.rotate_in_y(Angle::zero());
    fig.rotate_in_z(Angle::zero());
    assert_eq!(fig.lines().len(), 0);
}
