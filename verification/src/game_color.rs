use vstd::prelude::*;
use crate::text::{hex_byte_chars, hex_digit_char, hex_value, lemma_hex_byte_round_trip, lemma_hex_digit_round_trip};
use crate::text::push_hex_byte;

verus! {

/// Device-independent colours of the game.
#[derive(Clone, Copy, Debug, PartialEq, Eq, Hash, Structural)]
pub enum GameColor {
    Cyan,
    Magenta,
    Yellow,
    Grey,
    Red,
    Green,
    Blue,
    White,
    Black,
    DarkGrey,
    DarkRed,
    DarkGreen,
    DarkBlue,
    DarkYellow,
    DarkMagenta,
    DarkCyan,
}

/// The three colours that falling pieces are painted with.
pub open spec fn is_piece_color(c: GameColor) -> bool {
    c == GameColor::Cyan || c == GameColor::Magenta || c == GameColor::Yellow
}

/// RGB value of each colour.
pub open spec fn spec_rgb(c: GameColor) -> (u8, u8, u8) {
    match c {
        GameColor::Cyan => (0, 255, 255),
        GameColor::Magenta => (255, 0, 255),
        GameColor::Yellow => (255, 255, 0),
        GameColor::Grey => (128, 128, 128),
        GameColor::Red => (255, 0, 0),
        GameColor::Green => (0, 255, 0),
        GameColor::Blue => (0, 0, 255),
        GameColor::White => (255, 255, 255),
        GameColor::Black => (0, 0, 0),
        GameColor::DarkGrey => (64, 64, 64),
        GameColor::DarkRed => (128, 0, 0),
        GameColor::DarkGreen => (0, 128, 0),
        GameColor::DarkBlue => (0, 0, 128),
        GameColor::DarkYellow => (128, 128, 0),
        GameColor::DarkMagenta => (128, 0, 128),
        GameColor::DarkCyan => (0, 128, 128),
    }
}

/// CSS colour name of each colour.
pub open spec fn spec_css_name(c: GameColor) -> Seq<char> {
    match c {
        GameColor::Cyan => seq!['c', 'y', 'a', 'n'],
        GameColor::Magenta => seq!['m', 'a', 'g', 'e', 'n', 't', 'a'],
        GameColor::Yellow => seq!['y', 'e', 'l', 'l', 'o', 'w'],
        GameColor::Grey => seq!['g', 'r', 'a', 'y'],
        GameColor::Red => seq!['r', 'e', 'd'],
        GameColor::Green => seq!['l', 'i', 'm', 'e'],
        GameColor::Blue => seq!['b', 'l', 'u', 'e'],
        GameColor::White => seq!['w', 'h', 'i', 't', 'e'],
        GameColor::Black => seq!['b', 'l', 'a', 'c', 'k'],
        GameColor::DarkGrey => seq!['d', 'i', 'm', 'g', 'r', 'a', 'y'],
        GameColor::DarkRed => seq!['d', 'a', 'r', 'k', 'r', 'e', 'd'],
        GameColor::DarkGreen => seq!['d', 'a', 'r', 'k', 'g', 'r', 'e', 'e', 'n'],
        GameColor::DarkBlue => seq!['d', 'a', 'r', 'k', 'b', 'l', 'u', 'e'],
        GameColor::DarkYellow => seq!['g', 'o', 'l', 'd', 'e', 'n', 'r', 'o', 'd'],
        GameColor::DarkMagenta => seq!['d', 'a', 'r', 'k', 'm', 'a', 'g', 'e', 'n', 't', 'a'],
        GameColor::DarkCyan => seq!['d', 'a', 'r', 'k', 'c', 'y', 'a', 'n'],
    }
}

/// `#rrggbb` in lower-case hexadecimal.
pub open spec fn spec_hex(c: GameColor) -> Seq<char> {
    let (r, g, b) = spec_rgb(c);
    seq!['#'] + hex_byte_chars(r) + hex_byte_chars(g) + hex_byte_chars(b)
}

/// The hexadecimal form of every colour is `#` followed by two lower-case
/// hexadecimal digits for each of its red, green and blue bytes, in that
/// order.
pub proof fn lemma_hex_format(c: GameColor)
    ensures
        spec_hex(c).len() == 7,
        spec_hex(c)[0] == '#',
        forall|i: int| 1 <= i < 7 ==> 0 <= #[trigger] hex_value(spec_hex(c)[i]) < 16,
        hex_value(spec_hex(c)[1]) * 16 + hex_value(spec_hex(c)[2]) == spec_rgb(c).0,
        hex_value(spec_hex(c)[3]) * 16 + hex_value(spec_hex(c)[4]) == spec_rgb(c).1,
        hex_value(spec_hex(c)[5]) * 16 + hex_value(spec_hex(c)[6]) == spec_rgb(c).2,
{
    let (r, g, b) = spec_rgb(c);
    lemma_hex_byte_round_trip(r);
    lemma_hex_byte_round_trip(g);
    lemma_hex_byte_round_trip(b);
    lemma_hex_digit_round_trip(r as int / 16);
    lemma_hex_digit_round_trip(r as int % 16);
    lemma_hex_digit_round_trip(g as int / 16);
    lemma_hex_digit_round_trip(g as int % 16);
    lemma_hex_digit_round_trip(b as int / 16);
    lemma_hex_digit_round_trip(b as int % 16);
    let h = spec_hex(c);
    assert(h =~= seq!['#', hex_digit_char(r as int / 16), hex_digit_char(r as int % 16),
        hex_digit_char(g as int / 16), hex_digit_char(g as int % 16),
        hex_digit_char(b as int / 16), hex_digit_char(b as int % 16)]);
}

/// Name of each colour as written in messages: the variant's name.
pub open spec fn spec_debug_name(c: GameColor) -> Seq<char> {
    match c {
        GameColor::Cyan => "Cyan"@,
        GameColor::Magenta => "Magenta"@,
        GameColor::Yellow => "Yellow"@,
        GameColor::Grey => "Grey"@,
        GameColor::Red => "Red"@,
        GameColor::Green => "Green"@,
        GameColor::Blue => "Blue"@,
        GameColor::White => "White"@,
        GameColor::Black => "Black"@,
        GameColor::DarkGrey => "DarkGrey"@,
        GameColor::DarkRed => "DarkRed"@,
        GameColor::DarkGreen => "DarkGreen"@,
        GameColor::DarkBlue => "DarkBlue"@,
        GameColor::DarkYellow => "DarkYellow"@,
        GameColor::DarkMagenta => "DarkMagenta"@,
        GameColor::DarkCyan => "DarkCyan"@,
    }
}

impl GameColor {
    /// Name of the colour as written in messages.
    pub fn debug_name(&self) -> (name: &'static str)
        ensures
            name@ == spec_debug_name(*self),
    {
        match self {
            GameColor::Cyan => "Cyan",
            GameColor::Magenta => "Magenta",
            GameColor::Yellow => "Yellow",
            GameColor::Grey => "Grey",
            GameColor::Red => "Red",
            GameColor::Green => "Green",
            GameColor::Blue => "Blue",
            GameColor::White => "White",
            GameColor::Black => "Black",
            GameColor::DarkGrey => "DarkGrey",
            GameColor::DarkRed => "DarkRed",
            GameColor::DarkGreen => "DarkGreen",
            GameColor::DarkBlue => "DarkBlue",
            GameColor::DarkYellow => "DarkYellow",
            GameColor::DarkMagenta => "DarkMagenta",
            GameColor::DarkCyan => "DarkCyan",
        }
    }

    /// RGB value of the colour.
    pub fn to_rgb(&self) -> (rgb: (u8, u8, u8))
        ensures
            rgb == spec_rgb(*self),
    {
        match self {
            GameColor::Cyan => (0, 255, 255),
            GameColor::Magenta => (255, 0, 255),
            GameColor::Yellow => (255, 255, 0),
            GameColor::Grey => (128, 128, 128),
            GameColor::Red => (255, 0, 0),
            GameColor::Green => (0, 255, 0),
            GameColor::Blue => (0, 0, 255),
            GameColor::White => (255, 255, 255),
            GameColor::Black => (0, 0, 0),
            GameColor::DarkGrey => (64, 64, 64),
            GameColor::DarkRed => (128, 0, 0),
            GameColor::DarkGreen => (0, 128, 0),
            GameColor::DarkBlue => (0, 0, 128),
            GameColor::DarkYellow => (128, 128, 0),
            GameColor::DarkMagenta => (128, 0, 128),
            GameColor::DarkCyan => (0, 128, 128),
        }
    }

    /// CSS colour name of the colour.
    pub fn to_css_name(&self) -> (name: &'static str)
        ensures
            name@ == spec_css_name(*self),
    {
        let name = match self {
            GameColor::Cyan => "cyan",
            GameColor::Magenta => "magenta",
            GameColor::Yellow => "yellow",
            GameColor::Grey => "gray",
            GameColor::Red => "red",
            GameColor::Green => "lime",
            GameColor::Blue => "blue",
            GameColor::White => "white",
            GameColor::Black => "black",
            GameColor::DarkGrey => "dimgray",
            GameColor::DarkRed => "darkred",
            GameColor::DarkGreen => "darkgreen",
            GameColor::DarkBlue => "darkblue",
            GameColor::DarkYellow => "goldenrod",
            GameColor::DarkMagenta => "darkmagenta",
            GameColor::DarkCyan => "darkcyan",
        };
        proof {
            reveal_strlit("cyan");
            reveal_strlit("magenta");
            reveal_strlit("yellow");
            reveal_strlit("gray");
            reveal_strlit("red");
            reveal_strlit("lime");
            reveal_strlit("blue");
            reveal_strlit("white");
            reveal_strlit("black");
            reveal_strlit("dimgray");
            reveal_strlit("darkred");
            reveal_strlit("darkgreen");
            reveal_strlit("darkblue");
            reveal_strlit("goldenrod");
            reveal_strlit("darkmagenta");
            reveal_strlit("darkcyan");
        }
        name
    }

    /// Hexadecimal colour code `#rrggbb`.
    pub fn to_hex(&self) -> (hex: String)
        ensures
            hex@ == spec_hex(*self),
    {
        let (r, g, b) = self.to_rgb();
        let mut s = String::from_str("#");
        proof {
            reveal_strlit("#");
        }
        push_hex_byte(&mut s, r);
        push_hex_byte(&mut s, g);
        push_hex_byte(&mut s, b);
        s
    }
}

} // verus!
