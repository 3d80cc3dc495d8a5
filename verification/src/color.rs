//! Cell colours and the escape sequences that select them on a terminal.

use vstd::prelude::*;

verus! {

/// A foreground colour: one of the sixteen named ones, a palette entry, a
/// true-colour triple, or the terminal's default.
#[derive(Clone, Copy, Debug, PartialEq, Eq, Structural)]
pub enum Color {
    Black,
    Red,
    Green,
    Yellow,
    Blue,
    Magenta,
    Cyan,
    White,
    LightBlack,
    LightRed,
    LightGreen,
    LightYellow,
    LightBlue,
    LightMagenta,
    LightCyan,
    LightWhite,
    /// An entry of the 256-colour palette.
    AnsiValue(u8),
    /// Red, green and blue.
    Rgb(u8, u8, u8),
    /// The terminal's own default foreground.
    Reset,
}

/// The character of the decimal digit `d`.
pub open spec fn digit(d: int) -> char
    recommends
        0 <= d <= 9,
{
    ('0' as int + d) as char
}

/// `n` in decimal, without leading zeros.
pub open spec fn decimal(n: u8) -> Seq<char> {
    let n = n as int;
    if n < 10 {
        seq![digit(n)]
    } else if n < 100 {
        seq![digit(n / 10), digit(n % 10)]
    } else {
        seq![digit(n / 100), digit((n / 10) % 10), digit(n % 10)]
    }
}

/// `ESC [ 3 8 ; 5 ; n m`: selects entry `n` of the palette.
pub open spec fn palette_escape(n: u8) -> Seq<char> {
    seq!['\u{1b}', '[', '3', '8', ';', '5', ';'] + decimal(n) + seq!['m']
}

/// `ESC [ 3 8 ; 2 ; r ; g ; b m`: selects a true colour.
pub open spec fn rgb_escape(r: u8, g: u8, b: u8) -> Seq<char> {
    seq!['\u{1b}', '[', '3', '8', ';', '2', ';'] + decimal(r) + seq![';'] + decimal(g) + seq![';']
        + decimal(b) + seq!['m']
}

/// `ESC [ 3 9 m`: back to the default foreground.
pub open spec fn reset_escape() -> Seq<char> {
    seq!['\u{1b}', '[', '3', '9', 'm']
}

/// `termion::color::AnsiValue::fg_string`: the fixed prefix `ESC [ 3 8 ; 5 ;`,
/// the value in decimal, and `m`. Believed, not proved.
#[verifier::external_body]
fn palette_fg(n: u8) -> (s: String)
    ensures
        s@ == palette_escape(n),
{
    termion::color::AnsiValue(n).fg_string()
}

/// `termion::color::Rgb::fg_string`: the fixed prefix `ESC [ 3 8 ; 2 ;`, the
/// three components in decimal with `;` between them, and `m`. Believed, not proved.
#[verifier::external_body]
fn rgb_fg(r: u8, g: u8, b: u8) -> (s: String)
    ensures
        s@ == rgb_escape(r, g, b),
{
    termion::color::Rgb(r, g, b).fg_string()
}

/// `termion::color::Reset::fg_str`: the constant `ESC [ 3 9 m`. Believed, not proved.
#[verifier::external_body]
fn reset_fg() -> (s: String)
    ensures
        s@ == reset_escape(),
{
    termion::color::Reset.fg_str().to_string()
}

impl Color {
    /// The palette entry that a named colour stands for.
    pub open spec fn spec_palette_index(self) -> Option<u8> {
        match self {
            Color::Black => Some(0u8),
            Color::Red => Some(1u8),
            Color::Green => Some(2u8),
            Color::Yellow => Some(3u8),
            Color::Blue => Some(4u8),
            Color::Magenta => Some(5u8),
            Color::Cyan => Some(6u8),
            Color::White => Some(7u8),
            Color::LightBlack => Some(8u8),
            Color::LightRed => Some(9u8),
            Color::LightGreen => Some(10u8),
            Color::LightYellow => Some(11u8),
            Color::LightBlue => Some(12u8),
            Color::LightMagenta => Some(13u8),
            Color::LightCyan => Some(14u8),
            Color::LightWhite => Some(15u8),
            Color::AnsiValue(n) => Some(n),
            Color::Rgb(_, _, _) => None,
            Color::Reset => None,
        }
    }

    /// The escape sequence that makes this colour the foreground.
    pub open spec fn spec_fg_escape(self) -> Seq<char> {
        match self {
            Color::Rgb(r, g, b) => rgb_escape(r, g, b),
            Color::Reset => reset_escape(),
            _ => palette_escape(self.spec_palette_index().unwrap()),
        }
    }

    pub fn palette_index(&self) -> (r: Option<u8>)
        ensures
            r == self.spec_palette_index(),
    {
        match self {
            Color::Black => Some(0u8),
            Color::Red => Some(1u8),
            Color::Green => Some(2u8),
            Color::Yellow => Some(3u8),
            Color::Blue => Some(4u8),
            Color::Magenta => Some(5u8),
            Color::Cyan => Some(6u8),
            Color::White => Some(7u8),
            Color::LightBlack => Some(8u8),
            Color::LightRed => Some(9u8),
            Color::LightGreen => Some(10u8),
            Color::LightYellow => Some(11u8),
            Color::LightBlue => Some(12u8),
            Color::LightMagenta => Some(13u8),
            Color::LightCyan => Some(14u8),
            Color::LightWhite => Some(15u8),
            Color::AnsiValue(n) => Some(*n),
            Color::Rgb(_, _, _) => None,
            Color::Reset => None,
        }
    }

    pub fn fg_escape(&self) -> (s: String)
        ensures
            s@ == self.spec_fg_escape(),
    {
        match self.palette_index() {
            Some(n) => palette_fg(n),
            None => match self {
                Color::Rgb(r, g, b) => rgb_fg(*r, *g, *b),
                _ => reset_fg(),
            },
        }
    }
}

} // verus!
