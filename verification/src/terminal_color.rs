//! Colours of a text terminal and how they map to the game's colours.
use vstd::prelude::*;
use crate::game_color::GameColor;

verus! {

/// A colour as a text terminal knows it: the sixteen named colours, the
/// reset colour, a 24-bit colour and an entry of the 256-colour table.
#[derive(Clone, Copy, Debug, PartialEq, Eq, Structural)]
pub enum TermColor {
    Reset,
    Black,
    DarkGrey,
    Red,
    DarkRed,
    Green,
    DarkGreen,
    Yellow,
    DarkYellow,
    Blue,
    DarkBlue,
    Magenta,
    DarkMagenta,
    Cyan,
    DarkCyan,
    White,
    Grey,
    Rgb { r: u8, g: u8, b: u8 },
    AnsiValue(u8),
}

/// The terminal colour that draws a game colour: the named colour of the
/// same name.
pub open spec fn spec_term_of(c: GameColor) -> TermColor {
    match c {
        GameColor::Cyan => TermColor::Cyan,
        GameColor::Magenta => TermColor::Magenta,
        GameColor::Yellow => TermColor::Yellow,
        GameColor::Grey => TermColor::Grey,
        GameColor::Red => TermColor::Red,
        GameColor::Green => TermColor::Green,
        GameColor::Blue => TermColor::Blue,
        GameColor::White => TermColor::White,
        GameColor::Black => TermColor::Black,
        GameColor::DarkGrey => TermColor::DarkGrey,
        GameColor::DarkRed => TermColor::DarkRed,
        GameColor::DarkGreen => TermColor::DarkGreen,
        GameColor::DarkBlue => TermColor::DarkBlue,
        GameColor::DarkYellow => TermColor::DarkYellow,
        GameColor::DarkMagenta => TermColor::DarkMagenta,
        GameColor::DarkCyan => TermColor::DarkCyan,
    }
}

/// The game colour of an RGB triple: the eight pure corners of the RGB cube
/// have their colour, every other triple is grey.
pub open spec fn spec_game_of_rgb(r: u8, g: u8, b: u8) -> GameColor {
    if r == 255 && g == 255 && b == 255 {
        GameColor::White
    } else if r == 0 && g == 0 && b == 0 {
        GameColor::Black
    } else if r == 255 && g == 0 && b == 0 {
        GameColor::Red
    } else if r == 0 && g == 255 && b == 0 {
        GameColor::Green
    } else if r == 0 && g == 0 && b == 255 {
        GameColor::Blue
    } else if r == 255 && g == 255 && b == 0 {
        GameColor::Yellow
    } else if r == 255 && g == 0 && b == 255 {
        GameColor::Magenta
    } else if r == 0 && g == 255 && b == 255 {
        GameColor::Cyan
    } else {
        GameColor::Grey
    }
}

/// The game colour of a terminal colour: a named colour gives the game colour
/// of the same name, reset gives white, an RGB triple goes by
/// `spec_game_of_rgb`, and a table entry gives grey.
pub open spec fn spec_game_of(t: TermColor) -> GameColor {
    match t {
        TermColor::Cyan => GameColor::Cyan,
        TermColor::Magenta => GameColor::Magenta,
        TermColor::Yellow => GameColor::Yellow,
        TermColor::Grey => GameColor::Grey,
        TermColor::Red => GameColor::Red,
        TermColor::Green => GameColor::Green,
        TermColor::Blue => GameColor::Blue,
        TermColor::White => GameColor::White,
        TermColor::Black => GameColor::Black,
        TermColor::DarkGrey => GameColor::DarkGrey,
        TermColor::DarkRed => GameColor::DarkRed,
        TermColor::DarkGreen => GameColor::DarkGreen,
        TermColor::DarkBlue => GameColor::DarkBlue,
        TermColor::DarkYellow => GameColor::DarkYellow,
        TermColor::DarkMagenta => GameColor::DarkMagenta,
        TermColor::DarkCyan => GameColor::DarkCyan,
        TermColor::Reset => GameColor::White,
        TermColor::Rgb { r, g, b } => spec_game_of_rgb(r, g, b),
        TermColor::AnsiValue(_) => GameColor::Grey,
    }
}

impl From<GameColor> for TermColor {
    fn from(color: GameColor) -> (t: TermColor) {
        match color {
            GameColor::Cyan => TermColor::Cyan,
            GameColor::Magenta => TermColor::Magenta,
            GameColor::Yellow => TermColor::Yellow,
            GameColor::Grey => TermColor::Grey,
            GameColor::Red => TermColor::Red,
            GameColor::Green => TermColor::Green,
            GameColor::Blue => TermColor::Blue,
            GameColor::White => TermColor::White,
            GameColor::Black => TermColor::Black,
            GameColor::DarkGrey => TermColor::DarkGrey,
            GameColor::DarkRed => TermColor::DarkRed,
            GameColor::DarkGreen => TermColor::DarkGreen,
            GameColor::DarkBlue => TermColor::DarkBlue,
            GameColor::DarkYellow => TermColor::DarkYellow,
            GameColor::DarkMagenta => TermColor::DarkMagenta,
            GameColor::DarkCyan => TermColor::DarkCyan,
        }
    }
}

impl vstd::std_specs::convert::FromSpecImpl<GameColor> for TermColor {
    open spec fn obeys_from_spec() -> bool {
        true
    }

    open spec fn from_spec(v: GameColor) -> TermColor {
        spec_term_of(v)
    }
}

/// The game colour of an RGB triple, as `spec_game_of_rgb` says.
pub fn game_color_of_rgb(r: u8, g: u8, b: u8) -> (c: GameColor)
    ensures
        c == spec_game_of_rgb(r, g, b),
{
    match (r, g, b) {
        (255, 255, 255) => GameColor::White,
        (0, 0, 0) => GameColor::Black,
        (255, 0, 0) => GameColor::Red,
        (0, 255, 0) => GameColor::Green,
        (0, 0, 255) => GameColor::Blue,
        (255, 255, 0) => GameColor::Yellow,
        (255, 0, 255) => GameColor::Magenta,
        (0, 255, 255) => GameColor::Cyan,
        _ => GameColor::Grey,
    }
}

impl From<TermColor> for GameColor {
    fn from(color: TermColor) -> (c: GameColor) {
        match color {
            TermColor::Cyan => GameColor::Cyan,
            TermColor::Magenta => GameColor::Magenta,
            TermColor::Yellow => GameColor::Yellow,
            TermColor::Grey => GameColor::Grey,
            TermColor::Red => GameColor::Red,
            TermColor::Green => GameColor::Green,
            TermColor::Blue => GameColor::Blue,
            TermColor::White => GameColor::White,
            TermColor::Black => GameColor::Black,
            TermColor::DarkGrey => GameColor::DarkGrey,
            TermColor::DarkRed => GameColor::DarkRed,
            TermColor::DarkGreen => GameColor::DarkGreen,
            TermColor::DarkBlue => GameColor::DarkBlue,
            TermColor::DarkYellow => GameColor::DarkYellow,
            TermColor::DarkMagenta => GameColor::DarkMagenta,
            TermColor::DarkCyan => GameColor::DarkCyan,
            TermColor::Reset => GameColor::White,
            TermColor::Rgb { r, g, b } => game_color_of_rgb(r, g, b),
            TermColor::AnsiValue(_) => GameColor::Grey,
        }
    }
}

impl vstd::std_specs::convert::FromSpecImpl<TermColor> for GameColor {
    open spec fn obeys_from_spec() -> bool {
        true
    }

    open spec fn from_spec(v: TermColor) -> GameColor {
        spec_game_of(v)
    }
}

/// Drawing a game colour on the terminal and reading it back gives the same
/// colour.
pub proof fn lemma_term_round_trip(c: GameColor)
    ensures
        spec_game_of(spec_term_of(c)) == c,
{
}

/// Two different game colours are drawn with different terminal colours.
pub proof fn lemma_term_of_injective(a: GameColor, b: GameColor)
    ensures
        spec_term_of(a) == spec_term_of(b) ==> a == b,
{
    lemma_term_round_trip(a);
    lemma_term_round_trip(b);
}

} // verus!
