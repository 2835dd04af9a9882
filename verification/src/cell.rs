use vstd::prelude::*;
use crate::game_color::{GameColor, spec_debug_name};
use crate::text::{decimal_chars, push_decimal};
use crate::config::{BOARD_HEIGHT, BOARD_WIDTH};

verus! {

/// Content of one square of the board.
#[derive(Clone, Copy, PartialEq, Eq, Debug, Structural)]
pub enum Cell {
    Empty,
    Occupied(GameColor),
    Solid,
    Connected { color: GameColor, count: u8 },
}

/// A board given as rows of cells; row 0 is the top.
pub type Board = Vec<Vec<Cell>>;

/// Colour of a block cell (`Occupied` or `Connected`), `None` otherwise.
pub open spec fn cell_color(c: Cell) -> Option<GameColor> {
    match c {
        Cell::Occupied(color) => Some(color),
        Cell::Connected { color, .. } => Some(color),
        _ => None,
    }
}

/// Executable form of `cell_color`.
pub fn block_color(c: Cell) -> (r: Option<GameColor>)
    ensures
        r == cell_color(c),
{
    match c {
        Cell::Occupied(color) => Some(color),
        Cell::Connected { color, .. } => Some(color),
        _ => None,
    }
}

/// Rows of a board as sequences of cells.
pub open spec fn board_rows(b: Seq<Vec<Cell>>) -> Seq<Seq<Cell>> {
    b.map_values(|r: Vec<Cell>| r@)
}

/// Rows of a fixed-size board as sequences of cells.
pub open spec fn fixed_rows(b: [[Cell; BOARD_WIDTH]; BOARD_HEIGHT]) -> Seq<Seq<Cell>> {
    b@.map_values(|r: [Cell; BOARD_WIDTH]| r@)
}

/// The board has its full size.
pub open spec fn rows_wf(rows: Seq<Seq<Cell>>) -> bool {
    &&& rows.len() == BOARD_HEIGHT as int
    &&& forall|y: int| 0 <= y < BOARD_HEIGHT as int ==> #[trigger] rows[y].len() == BOARD_WIDTH as int
}

/// Cell with index `i` (row by row) of a board.
pub open spec fn cell_at(rows: Seq<Seq<Cell>>, i: int) -> Cell {
    rows[i / BOARD_WIDTH as int][i % BOARD_WIDTH as int]
}

/// The rows of an empty board.
pub open spec fn empty_rows() -> Seq<Seq<Cell>> {
    Seq::new(BOARD_HEIGHT as nat, |y: int| Seq::new(BOARD_WIDTH as nat, |x: int| Cell::Empty))
}

/// An empty board of full size.
pub fn empty_board() -> (board: Board)
    ensures
        board_rows(board@) == empty_rows(),
{
    let mut board: Board = Vec::new();
    let mut y: usize = 0;
    while y < BOARD_HEIGHT
        invariant
            y <= BOARD_HEIGHT,
            board_rows(board@) == Seq::new(y as nat, |r: int| Seq::new(BOARD_WIDTH as nat, |x: int| Cell::Empty)),
        decreases BOARD_HEIGHT - y,
    {
        let row = vec![Cell::Empty; BOARD_WIDTH];
        assert(row@ =~= Seq::new(BOARD_WIDTH as nat, |x: int| Cell::Empty));
        let ghost prev = board@;
        board.push(row);
        assert(board_rows(board@) =~= board_rows(prev).push(row@));
        y = y + 1;
        assert(board_rows(board@) =~= Seq::new(y as nat, |r: int| Seq::new(BOARD_WIDTH as nat, |x: int| Cell::Empty)));
    }
    board
}

/// Writes one cell of a board given as rows.
pub fn set_cell(board: &mut Board, y: usize, x: usize, cell: Cell)
    requires
        y < old(board)@.len(),
        x < old(board)@[y as int]@.len(),
    ensures
        board_rows(final(board)@) == board_rows(old(board)@).update(
            y as int,
            board_rows(old(board)@)[y as int].update(x as int, cell),
        ),
{
    board[y][x] = cell;
    assert(board_rows(board@) =~= board_rows(old(board)@).update(
        y as int,
        board_rows(old(board)@)[y as int].update(x as int, cell),
    ));
}

/// Writes one cell of a fixed-size board.
pub fn set_fixed_cell(board: &mut [[Cell; BOARD_WIDTH]; BOARD_HEIGHT], y: usize, x: usize, cell: Cell)
    requires
        y < BOARD_HEIGHT,
        x < BOARD_WIDTH,
    ensures
        fixed_rows(*final(board)) == fixed_rows(*old(board)).update(
            y as int,
            fixed_rows(*old(board))[y as int].update(x as int, cell),
        ),
{
    board[y][x] = cell;
    assert(fixed_rows(*board) =~= fixed_rows(*old(board)).update(
        y as int,
        fixed_rows(*old(board))[y as int].update(x as int, cell),
    ));
}

/// Text of a cell in messages: `Empty`, `Occupied(Red)`, `Solid`,
/// `Connected(Red, 5)`.
pub open spec fn cell_debug_text(c: Cell) -> Seq<char> {
    match c {
        Cell::Empty => "Empty"@,
        Cell::Occupied(color) => "Occupied("@ + spec_debug_name(color) + ")"@,
        Cell::Solid => "Solid"@,
        Cell::Connected { color, count } => "Connected("@ + spec_debug_name(color) + ", "@
            + decimal_chars(count as nat) + ")"@,
    }
}

impl Cell {
    /// Text of the cell in messages (see `cell_debug_text`).
    pub fn debug_string(&self) -> (s: String)
        ensures
            s@ == cell_debug_text(*self),
    {
        match self {
            Cell::Empty => String::from_str("Empty"),
            Cell::Occupied(color) => {
                let mut s = String::from_str("Occupied(");
                s.append(color.debug_name());
                s.append(")");
                s
            },
            Cell::Solid => String::from_str("Solid"),
            Cell::Connected { color, count } => {
                let mut s = String::from_str("Connected(");
                s.append(color.debug_name());
                s.append(", ");
                push_decimal(&mut s, *count as u64);
                s.append(")");
                s
            },
        }
    }
}

} // verus!
