//! The text of a full screen: the board framed in box-drawing characters,
//! the current piece drawn over it, and the score panel below.
use vstd::prelude::*;
use crate::cell::Cell;
use crate::cli::renderer::frame::Frame;
use crate::cli::renderer::settings::CliRenderSettings;
use crate::config::{BOARD_HEIGHT, BOARD_WIDTH};
use crate::core_logic::game_state::{CoreGameMode, CoreGameState};
use crate::core_logic::input_handler::{piece_ok, lemma_piece_ok_fits};
use crate::game_color::{GameColor, is_piece_color};
use crate::terminal_color::{spec_term_of, TermColor};
use crate::text::digit_char;
use crate::text::{decimal_chars, push_decimal};
use crate::tetromino::Tetromino;

verus! {

/// Builds the text of screens.
#[derive(Debug)]
pub struct FrameBuilder;

/// `s` written `n` times.
pub open spec fn repeated(s: Seq<char>, n: nat) -> Seq<char>
    decreases n,
{
    if n == 0 { Seq::empty() } else { repeated(s, (n - 1) as nat) + s }
}

/// A border line: `left`, two horizontal strokes per column, `right`.
pub open spec fn border_text(left: Seq<char>, right: Seq<char>) -> Seq<char> {
    left + repeated("──"@, BOARD_WIDTH as nat) + right
}

/// Two coloured spaces for a colour (terminal escape codes); black for a
/// colour without its own code.
pub open spec fn ansi_text(c: GameColor) -> Seq<char> {
    match c {
        GameColor::Red => "\x1B[41m  \x1B[0m"@,
        GameColor::Green => "\x1B[42m  \x1B[0m"@,
        GameColor::Blue => "\x1B[44m  \x1B[0m"@,
        GameColor::Yellow => "\x1B[43m  \x1B[0m"@,
        GameColor::Cyan => "\x1B[46m  \x1B[0m"@,
        GameColor::Magenta => "\x1B[45m  \x1B[0m"@,
        GameColor::Grey => "\x1B[47m  \x1B[0m"@,
        _ => "\x1B[40m  \x1B[0m"@,
    }
}

/// A block of colour `c`: coloured spaces, or a full block without colours.
pub open spec fn color_text(c: GameColor, use_colors: bool) -> Seq<char> {
    if !use_colors { "██"@ } else { ansi_text(c) }
}

/// A board cell: two spaces when empty, a block otherwise; a solid cell is
/// white, or shaded without colours.
pub open spec fn cell_text(cell: Cell, use_colors: bool) -> Seq<char> {
    match cell {
        Cell::Empty => "  "@,
        Cell::Occupied(color) => color_text(color, use_colors),
        Cell::Solid => if use_colors { "\x1B[47m  \x1B[0m"@ } else { "▓▓"@ },
        Cell::Connected { color, .. } => color_text(color, use_colors),
    }
}

/// The colour of the first of the first `n` blocks of `p` that lies at
/// column `x`, row `y`.
pub open spec fn piece_color_at(p: Tetromino, x: usize, y: usize, n: int) -> Option<GameColor>
    decreases n,
{
    if n <= 0 {
        None
    } else {
        match piece_color_at(p, x, y, n - 1) {
            Some(c) => Some(c),
            None => {
                let b = p.block_at(n - 1);
                if b.0.0 >= 0 && b.0.1 >= 0 && b.0.0 == x && b.0.1 == y { Some(b.1) } else { None }
            },
        }
    }
}

/// What is drawn at column `x`, row `y`: the current piece's block there,
/// else the board's cell.
pub open spec fn position_text(s: CoreGameState, x: usize, y: usize, use_colors: bool) -> Seq<char> {
    let over = match s.current_piece {
        Some(p) => piece_color_at(p, x, y, p.blocks_seq().len() as int),
        None => None,
    };
    match over {
        Some(c) => color_text(c, use_colors),
        None => cell_text(s.board[y as int][x as int], use_colors),
    }
}

/// The first `n` positions of row `y`, drawn.
pub open spec fn row_cells_text(s: CoreGameState, y: usize, use_colors: bool, n: nat) -> Seq<char>
    decreases n,
{
    if n == 0 {
        Seq::empty()
    } else {
        row_cells_text(s, y, use_colors, (n - 1) as nat) + position_text(s, (n - 1) as usize, y, use_colors)
    }
}

/// Row `y` of the board between vertical strokes.
pub open spec fn board_line_text(s: CoreGameState, y: usize, use_colors: bool) -> Seq<char> {
    "│"@ + row_cells_text(s, y, use_colors, BOARD_WIDTH as nat) + "│"@
}

/// Name of a mode.
pub open spec fn mode_text(m: CoreGameMode) -> Seq<char> {
    match m {
        CoreGameMode::Title => "Title"@,
        CoreGameMode::Playing => "Playing"@,
        CoreGameMode::GameOver => "GameOver"@,
    }
}

/// The lines of the score panel.
pub open spec fn panel_text(s: CoreGameState) -> Seq<Seq<char>> {
    seq![
        Seq::empty(),
        "TOTAL SCORE: "@ + decimal_chars(s.score as nat),
        "CHAIN-BONUS: "@ + decimal_chars(s.chain_bonus as nat),
        Seq::empty(),
        "MAX-CHAIN:"@,
        "  CYAN:    "@ + decimal_chars(s.max_chains.cyan as nat),
        "  MAGENTA: "@ + decimal_chars(s.max_chains.magenta as nat),
        "  YELLOW:  "@ + decimal_chars(s.max_chains.yellow as nat),
        Seq::empty(),
        "Lines: "@ + decimal_chars(s.lines_cleared as nat),
        "Mode: "@ + mode_text(s.game_mode),
    ]
}

/// The whole screen: top border, the board rows, bottom border, the panel.
pub open spec fn frame_text(s: CoreGameState, use_colors: bool) -> Seq<Seq<char>> {
    seq![border_text("┌"@, "┐"@)]
        + Seq::new(BOARD_HEIGHT as nat, |y: int| board_line_text(s, y as usize, use_colors))
        + seq![border_text("└"@, "┘"@)]
        + panel_text(s)
}

/// Standard number (0 to 7) of a basic ANSI terminal colour: black 0,
/// red 1, green 2, yellow 3, blue 4, magenta 5, cyan 6, white 7; -1 for the
/// other terminal colours.
pub open spec fn ansi_number(t: TermColor) -> int {
    match t {
        TermColor::Black => 0,
        TermColor::Red => 1,
        TermColor::Green => 2,
        TermColor::Yellow => 3,
        TermColor::Blue => 4,
        TermColor::Magenta => 5,
        TermColor::Cyan => 6,
        TermColor::White => 7,
        _ => -1,
    }
}

/// A block of a piece colour is drawn with the ANSI background of the
/// terminal colour that the terminal model gives that colour: ESC `[4n m`
/// with `n` its standard number, two spaces, then ESC `[0m`.  So the three
/// piece colours are drawn differently.
pub proof fn lemma_block_colours_are_faithful(c: GameColor)
    requires
        is_piece_color(c),
    ensures
        ansi_text(c) == seq!['\x1B', '[', '4', digit_char(ansi_number(spec_term_of(c))), 'm', ' ', ' ', '\x1B', '[', '0', 'm'],
        0 <= ansi_number(spec_term_of(c)) <= 7,
        forall|d: GameColor| is_piece_color(d) && d != c ==> ansi_text(d) != ansi_text(c),
{
    reveal_strlit("\x1B[46m  \x1B[0m");
    reveal_strlit("\x1B[45m  \x1B[0m");
    reveal_strlit("\x1B[43m  \x1B[0m");
    assert(ansi_text(c) =~= seq!['\x1B', '[', '4', digit_char(ansi_number(spec_term_of(c))), 'm', ' ', ' ', '\x1B', '[', '0', 'm']);
    assert forall|d: GameColor| is_piece_color(d) && d != c implies ansi_text(d) != ansi_text(c) by {
        assert(ansi_text(d)[3] != ansi_text(c)[3]);
    }
}

/// Text of the lines of `v`.
pub open spec fn texts(v: Seq<String>) -> Seq<Seq<char>> {
    v.map_values(|l: String| l@)
}

impl FrameBuilder {
    /// A builder.
    pub fn new() -> (b: Self) {
        Self
    }

    /// The screen for `core` (see `frame_text`), cleared before drawing.
    /// The frame-rate line that follows the panel when `settings` asks for
    /// it is added by `CliRenderer::prepare_frame` from the text the program
    /// writes, since the program measures the rate.
    pub fn build_full_frame(&self, core: &CoreGameState, settings: &CliRenderSettings) -> (f: Frame)
        requires
            core.current_piece matches Some(p) ==> piece_ok(p),
        ensures
            texts(f.lines@) == frame_text(*core, settings.use_colors),
            f.requires_clear,
    {
        let mut lines: Vec<String> = Vec::new();
        lines.push(self.build_top_border());
        let mut y: usize = 0;
        while y < BOARD_HEIGHT
            invariant
                y <= BOARD_HEIGHT,
                core.current_piece matches Some(p) ==> piece_ok(p),
                texts(lines@) == seq![border_text("┌"@, "┐"@)]
                    + Seq::new(y as nat, |k: int| board_line_text(*core, k as usize, settings.use_colors)),
            decreases BOARD_HEIGHT - y,
        {
            let line = self.build_board_line(core, y, settings);
            let ghost before = texts(lines@);
            lines.push(line);
            proof {
                assert(texts(lines@) =~= before.push(line@));
                assert(seq![border_text("┌"@, "┐"@)]
                    + Seq::new((y + 1) as nat, |k: int| board_line_text(*core, k as usize, settings.use_colors))
                    =~= (seq![border_text("┌"@, "┐"@)]
                    + Seq::new(y as nat, |k: int| board_line_text(*core, k as usize, settings.use_colors))).push(line@));
            }
            y += 1;
        }
        lines.push(self.build_bottom_border());
        lines.push(String::new());
        lines.push(labelled_number("TOTAL SCORE: ", core.score));
        lines.push(labelled_number("CHAIN-BONUS: ", core.chain_bonus as u64));
        lines.push(String::new());
        lines.push(String::from_str("MAX-CHAIN:"));
        lines.push(labelled_number("  CYAN:    ", core.max_chains.cyan as u64));
        lines.push(labelled_number("  MAGENTA: ", core.max_chains.magenta as u64));
        lines.push(labelled_number("  YELLOW:  ", core.max_chains.yellow as u64));
        lines.push(String::new());
        lines.push(labelled_number("Lines: ", core.lines_cleared as u64));
        let mut mode_line = String::from_str("Mode: ");
        mode_line.append(mode_name(core.game_mode));
        lines.push(mode_line);
        proof {
            assert(texts(lines@) =~= frame_text(*core, settings.use_colors));
        }
        Frame::new(lines)
    }

    /// The top border.
    fn build_top_border(&self) -> (s: String)
        ensures
            s@ == border_text("┌"@, "┐"@),
    {
        let mut top_border = String::from_str("┌");
        push_strokes(&mut top_border);
        top_border.append("┐");
        top_border
    }

    /// The bottom border.
    fn build_bottom_border(&self) -> (s: String)
        ensures
            s@ == border_text("└"@, "┘"@),
    {
        let mut bottom_border = String::from_str("└");
        push_strokes(&mut bottom_border);
        bottom_border.append("┘");
        bottom_border
    }

    /// Row `y` of the board between vertical strokes.
    fn build_board_line(&self, core: &CoreGameState, y: usize, settings: &CliRenderSettings) -> (s: String)
        requires
            y < BOARD_HEIGHT,
            core.current_piece matches Some(p) ==> piece_ok(p),
        ensures
            s@ == board_line_text(*core, y, settings.use_colors),
    {
        let mut line = String::from_str("│");
        let mut x: usize = 0;
        while x < BOARD_WIDTH
            invariant
                x <= BOARD_WIDTH,
                y < BOARD_HEIGHT,
                core.current_piece matches Some(p) ==> piece_ok(p),
                line@ == "│"@ + row_cells_text(*core, y, settings.use_colors, x as nat),
            decreases BOARD_WIDTH - x,
        {
            let cell_display = self.display_for_position(core, x, y, settings);
            line.append(cell_display.as_str());
            x += 1;
        }
        line.append("│");
        line
    }

    /// What is drawn at column `x`, row `y` (see `position_text`).
    fn display_for_position(&self, core: &CoreGameState, x: usize, y: usize, settings: &CliRenderSettings) -> (s: String)
        requires
            x < BOARD_WIDTH,
            y < BOARD_HEIGHT,
            core.current_piece matches Some(p) ==> piece_ok(p),
        ensures
            s@ == position_text(*core, x, y, settings.use_colors),
    {
        match &core.current_piece {
            Some(current_piece) => {
                proof {
                    lemma_piece_ok_fits(*current_piece);
                }
                let blocks = current_piece.iter_blocks();
                let mut i: usize = 0;
                while i < blocks.len()
                    invariant
                        i <= blocks@.len(),
                        blocks@.len() == current_piece.blocks_seq().len(),
                        forall|j: int| 0 <= j < blocks@.len() ==> #[trigger] blocks@[j] == current_piece.block_at(j),
                        piece_color_at(*current_piece, x, y, i as int) is None,
                        core.current_piece == Some(*current_piece),
                    decreases blocks@.len() - i,
                {
                    let ((piece_x, piece_y), piece_color) = blocks[i];
                    if piece_x >= 0 && piece_y >= 0 && piece_x as usize == x && piece_y as usize == y {
                        proof {
                            lemma_piece_color_found(*current_piece, x, y, i as int, blocks@.len() as int);
                        }
                        return self.color_to_display(&piece_color, settings.use_colors);
                    }
                    i += 1;
                }
            },
            None => {},
        }
        let board_cell = core.board[y][x];
        self.cell_to_display(board_cell, settings.use_colors)
    }

    /// A block of colour `color`.
    fn color_to_display(&self, color: &GameColor, use_colors: bool) -> (s: String)
        ensures
            s@ == color_text(*color, use_colors),
    {
        if !use_colors {
            String::from_str("██")
        } else {
            String::from_str(self.color_to_ansi(color))
        }
    }

    /// A board cell.
    fn cell_to_display(&self, cell: Cell, use_colors: bool) -> (s: String)
        ensures
            s@ == cell_text(cell, use_colors),
    {
        match cell {
            Cell::Empty => String::from_str("  "),
            Cell::Occupied(color) => self.color_to_display(&color, use_colors),
            Cell::Solid => {
                if use_colors {
                    String::from_str("\x1B[47m  \x1B[0m")
                } else {
                    String::from_str("▓▓")
                }
            },
            Cell::Connected { color, .. } => self.color_to_display(&color, use_colors),
        }
    }

    /// Coloured spaces for a colour.
    fn color_to_ansi(&self, color: &GameColor) -> (s: &'static str)
        ensures
            s@ == ansi_text(*color),
    {
        match color {
            GameColor::Red => "\x1B[41m  \x1B[0m",
            GameColor::Green => "\x1B[42m  \x1B[0m",
            GameColor::Blue => "\x1B[44m  \x1B[0m",
            GameColor::Yellow => "\x1B[43m  \x1B[0m",
            GameColor::Cyan => "\x1B[46m  \x1B[0m",
            GameColor::Magenta => "\x1B[45m  \x1B[0m",
            GameColor::Grey => "\x1B[47m  \x1B[0m",
            _ => "\x1B[40m  \x1B[0m",
        }
    }
}

/// Once a block at the position is found, the first match is that block.
proof fn lemma_piece_color_found(p: Tetromino, x: usize, y: usize, i: int, n: int)
    requires
        0 <= i < n,
        piece_color_at(p, x, y, i) is None,
        p.block_at(i).0.0 >= 0 && p.block_at(i).0.1 >= 0 && p.block_at(i).0.0 == x && p.block_at(i).0.1 == y,
    ensures
        piece_color_at(p, x, y, n) == Some(p.block_at(i).1),
    decreases n - i,
{
    if n > i + 1 {
        lemma_piece_color_found(p, x, y, i, n - 1);
    }
}

/// Appends two horizontal strokes per column.
fn push_strokes(s: &mut String)
    ensures
        final(s)@ == old(s)@ + repeated("──"@, BOARD_WIDTH as nat),
{
    let mut x: usize = 0;
    while x < BOARD_WIDTH
        invariant
            x <= BOARD_WIDTH,
            s@ == old(s)@ + repeated("──"@, x as nat),
        decreases BOARD_WIDTH - x,
    {
        s.append("──");
        proof {
            assert(old(s)@ + repeated("──"@, (x + 1) as nat) =~= old(s)@ + repeated("──"@, x as nat) + "──"@);
        }
        x += 1;
    }
}

/// `label` followed by the decimal numeral of `n`.
fn labelled_number(label: &str, n: u64) -> (s: String)
    ensures
        s@ == label@ + decimal_chars(n as nat),
{
    let mut s = String::from_str(label);
    push_decimal(&mut s, n);
    s
}

/// Name of a mode.
fn mode_name(m: CoreGameMode) -> (s: &'static str)
    ensures
        s@ == mode_text(m),
{
    match m {
        CoreGameMode::Title => "Title",
        CoreGameMode::Playing => "Playing",
        CoreGameMode::GameOver => "GameOver",
    }
}

} // verus!
