//! Bridge between the terminal front end's game state (a board of rows,
//! legacy animations and scores) and the platform-independent core state.
use vstd::prelude::*;
use crate::animation::Animation;
use crate::cell::{board_rows, fixed_rows, set_fixed_cell, Board, Cell};
use crate::config::{BOARD_HEIGHT, BOARD_WIDTH, FALL_SPEED_START_MS};
use crate::core_logic::board_logic::FixedBoard;
use crate::core_logic::game_state::{CoreGameEvent, CoreGameMode, CoreGameState};
use crate::core_logic::input_handler::{fresh_piece, input_outcome, process_input, state_ok, InputProcessResult};
use crate::game_input::GameInput;
use crate::scoring::CustomScoreSystem;
use crate::tetromino::Tetromino;

verus! {

/// Mode of the terminal front end's game.
#[derive(Clone, Copy, Debug, PartialEq, Eq, Structural)]
pub enum CLIGameMode {
    Title,
    Playing,
    GameOver,
}

/// The terminal front end's game state.  `fall_speed_ms` is the time
/// between two automatic steps down, in milliseconds.
#[derive(Debug)]
pub struct CLIGameState {
    pub mode: CLIGameMode,
    pub board: Board,
    pub current_piece: Option<Tetromino>,
    pub next_piece: Option<Tetromino>,
    pub animation: Vec<Animation>,
    pub lines_cleared: u32,
    pub fall_speed_ms: u64,
    pub current_board_height: usize,
    pub custom_score_system: CustomScoreSystem,
    pub enable_erase_line: bool,
}

/// The core state together with what only the terminal front end keeps:
/// the fall speed, the next piece and the erase-line switch.
#[derive(Debug)]
pub struct CLIBridge {
    pub core_state: CoreGameState,
    pub fall_speed_ms: u64,
    pub next_piece: Option<Tetromino>,
    pub enable_erase_line: bool,
}

/// Cell at row `y`, column `x` of a board given as rows, `Empty` where the
/// board has no such cell.
pub open spec fn padded_cell(rows: Seq<Seq<Cell>>, y: int, x: int) -> Cell {
    if 0 <= y < rows.len() && 0 <= x < rows[y].len() {
        rows[y][x]
    } else {
        Cell::Empty
    }
}

/// The fixed-size board that holds `rows` in its top left corner and is
/// empty elsewhere.
pub open spec fn fits_fixed(rows: Seq<Seq<Cell>>) -> bool {
    &&& rows.len() <= BOARD_HEIGHT as int
    &&& forall|y: int| 0 <= y < rows.len() ==> #[trigger] rows[y].len() <= BOARD_WIDTH as int
}

/// Mode of the front end for a core mode: the one of the same name.
pub open spec fn spec_mode_to_cli(m: CoreGameMode) -> CLIGameMode {
    match m {
        CoreGameMode::Title => CLIGameMode::Title,
        CoreGameMode::Playing => CLIGameMode::Playing,
        CoreGameMode::GameOver => CLIGameMode::GameOver,
    }
}

/// Core mode for a mode of the front end: the one of the same name.
pub open spec fn spec_mode_to_core(m: CLIGameMode) -> CoreGameMode {
    match m {
        CLIGameMode::Title => CoreGameMode::Title,
        CLIGameMode::Playing => CoreGameMode::Playing,
        CLIGameMode::GameOver => CoreGameMode::GameOver,
    }
}

/// Two optional pieces are the same piece, or both absent.
pub open spec fn same_piece_opt(a: Option<Tetromino>, b: Option<Tetromino>) -> bool {
    match (a, b) {
        (Some(p), Some(q)) => p.same_piece(q),
        (None, None) => true,
        _ => false,
    }
}

/// A copy of an optional piece.
fn copy_piece(p: &Option<Tetromino>) -> (r: Option<Tetromino>)
    ensures
        same_piece_opt(r, *p),
{
    match p {
        Some(t) => Some(t.clone()),
        None => None,
    }
}

impl CLIBridge {
    /// A bridge around a new core state, with the starting fall speed, a
    /// next piece drawn from the core's bag and erase-lines off.
    pub fn new() -> (b: Self)
        ensures
            b.core_state.wf(),
            b.core_state.game_mode == CoreGameMode::Title,
            b.core_state.current_piece is None,
            b.core_state.score == 0,
            b.core_state.chain_bonus == 0,
            !b.core_state.enable_erase_line,
            b.fall_speed_ms == FALL_SPEED_START_MS,
            b.next_piece matches Some(t) && fresh_piece(t),
            !b.enable_erase_line,
    {
        let mut core_state = CoreGameState::new();
        let next = Tetromino::new_random(&mut core_state.bag);
        Self { core_state, fall_speed_ms: FALL_SPEED_START_MS, next_piece: Some(next), enable_erase_line: false }
    }

    /// The fixed-size board holding `board` in its top left corner; the
    /// cells that `board` does not have are empty.
    pub fn convert_board_to_fixed(board: &Board) -> (f: FixedBoard)
        requires
            fits_fixed(board_rows(board@)),
        ensures
            forall|y: int, x: int| 0 <= y < BOARD_HEIGHT as int && 0 <= x < BOARD_WIDTH as int
                ==> #[trigger] fixed_rows(f)[y][x] == padded_cell(board_rows(board@), y, x),
    {
        let ghost rows = board_rows(board@);
        let mut fixed_board: FixedBoard = [[Cell::Empty; BOARD_WIDTH]; BOARD_HEIGHT];
        assert forall|y: int, x: int| 0 <= y < BOARD_HEIGHT as int && 0 <= x < BOARD_WIDTH as int
            implies #[trigger] fixed_rows(fixed_board)[y][x] == Cell::Empty by {}
        let mut y: usize = 0;
        while y < board.len()
            invariant
                rows == board_rows(board@),
                fits_fixed(rows),
                y <= board@.len(),
                forall|i: int, x: int| 0 <= i < BOARD_HEIGHT as int && 0 <= x < BOARD_WIDTH as int
                    ==> #[trigger] fixed_rows(fixed_board)[i][x] == if i < y { padded_cell(rows, i, x) } else { Cell::Empty },
            decreases board@.len() - y,
        {
            let row = &board[y];
            assert(rows[y as int] == row@);
            let mut x: usize = 0;
            while x < row.len()
                invariant
                    rows == board_rows(board@),
                    fits_fixed(rows),
                    y < board@.len(),
                    row@ == rows[y as int],
                    x <= row@.len(),
                    forall|i: int, c: int| 0 <= i < BOARD_HEIGHT as int && 0 <= c < BOARD_WIDTH as int
                        ==> #[trigger] fixed_rows(fixed_board)[i][c] == if i < y || (i == y && c < x) {
                            padded_cell(rows, i, c)
                        } else {
                            Cell::Empty
                        },
                decreases row@.len() - x,
            {
                set_fixed_cell(&mut fixed_board, y, x, row[x]);
                x = x + 1;
            }
            y = y + 1;
        }
        fixed_board
    }

    /// The board as rows, one for each row of `fixed_board`.
    pub fn convert_fixed_to_board(fixed_board: &FixedBoard) -> (b: Board)
        ensures
            board_rows(b@) == fixed_rows(*fixed_board),
    {
        let mut board: Board = Vec::new();
        let mut y: usize = 0;
        while y < BOARD_HEIGHT
            invariant
                y <= BOARD_HEIGHT,
                board_rows(board@) == fixed_rows(*fixed_board).take(y as int),
            decreases BOARD_HEIGHT - y,
        {
            let mut row: Vec<Cell> = Vec::new();
            let mut x: usize = 0;
            while x < BOARD_WIDTH
                invariant
                    y < BOARD_HEIGHT,
                    x <= BOARD_WIDTH,
                    board_rows(board@) == fixed_rows(*fixed_board).take(y as int),
                    row@ == fixed_rows(*fixed_board)[y as int].take(x as int),
                decreases BOARD_WIDTH - x,
            {
                row.push(fixed_board[y][x]);
                x = x + 1;
            }
            assert(row@ =~= fixed_rows(*fixed_board)[y as int]);
            let ghost prev = board@;
            board.push(row);
            assert(board_rows(board@) =~= board_rows(prev).push(fixed_rows(*fixed_board)[y as int]));
            assert(board_rows(board@) =~= fixed_rows(*fixed_board).take(y as int + 1));
            y = y + 1;
        }
        assert(fixed_rows(*fixed_board).take(BOARD_HEIGHT as int) =~= fixed_rows(*fixed_board));
        board
    }

    /// Applies `input` at `current_time_ms` to the core state (see
    /// `process_input`) and returns the events it produced.
    pub fn handle_input_core(&mut self, input: GameInput, current_time_ms: u64) -> (events: Vec<CoreGameEvent>)
        requires
            state_ok(old(self).core_state),
            old(self).core_state.pieces_placed < u32::MAX,
        ensures
            state_ok(final(self).core_state),
            exists|consumed: bool, render: bool| input_outcome(
                old(self).core_state,
                input,
                current_time_ms,
                (InputProcessResult {
                    new_state: final(self).core_state,
                    events: events,
                    input_consumed: consumed,
                    render_required: render,
                }),
            ),
            final(self).fall_speed_ms == old(self).fall_speed_ms,
            final(self).next_piece == old(self).next_piece,
            final(self).enable_erase_line == old(self).enable_erase_line,
    {
        let mut state = CoreGameState::new();
        std::mem::swap(&mut state, &mut self.core_state);
        let result = process_input(state, input, current_time_ms);
        let InputProcessResult { new_state, events, input_consumed, render_required } = result;
        self.core_state = new_state;
        assert(input_outcome(
            old(self).core_state,
            input,
            current_time_ms,
            (InputProcessResult {
                new_state: self.core_state,
                events: events,
                input_consumed: input_consumed,
                render_required: render_required,
            }),
        ));
        events
    }

    /// The front end's mode for a core mode.
    pub fn convert_mode_to_cli(core_mode: CoreGameMode) -> (m: CLIGameMode)
        ensures
            m == spec_mode_to_cli(core_mode),
    {
        match core_mode {
            CoreGameMode::Title => CLIGameMode::Title,
            CoreGameMode::Playing => CLIGameMode::Playing,
            CoreGameMode::GameOver => CLIGameMode::GameOver,
        }
    }

    /// The core mode for a mode of the front end.
    pub fn convert_mode_to_core(cli_mode: CLIGameMode) -> (m: CoreGameMode)
        ensures
            m == spec_mode_to_core(cli_mode),
    {
        match cli_mode {
            CLIGameMode::Title => CoreGameMode::Title,
            CLIGameMode::Playing => CoreGameMode::Playing,
            CLIGameMode::GameOver => CoreGameMode::GameOver,
        }
    }

    /// Copies the core state into the front end's state: mode, board,
    /// current piece, cleared lines, play-area height, erase-line switch
    /// and chain bonus; and the bridge's own next piece and fall speed.
    /// The animations, the score and the chains of `cli_state` stay.
    pub fn sync_to_cli_state(&self, cli_state: &mut CLIGameState)
        ensures
            final(cli_state).mode == spec_mode_to_cli(self.core_state.game_mode),
            board_rows(final(cli_state).board@) == fixed_rows(self.core_state.board),
            same_piece_opt(final(cli_state).current_piece, self.core_state.current_piece),
            final(cli_state).lines_cleared == self.core_state.lines_cleared,
            final(cli_state).current_board_height == self.core_state.current_board_height,
            final(cli_state).enable_erase_line == self.core_state.enable_erase_line,
            final(cli_state).custom_score_system == (CustomScoreSystem {
                chain_bonus: self.core_state.chain_bonus,
                ..old(cli_state).custom_score_system
            }),
            same_piece_opt(final(cli_state).next_piece, self.next_piece),
            final(cli_state).fall_speed_ms == self.fall_speed_ms,
            final(cli_state).animation == old(cli_state).animation,
    {
        cli_state.mode = Self::convert_mode_to_cli(self.core_state.game_mode);
        cli_state.board = Self::convert_fixed_to_board(&self.core_state.board);
        cli_state.current_piece = copy_piece(&self.core_state.current_piece);
        cli_state.lines_cleared = self.core_state.lines_cleared;
        cli_state.current_board_height = self.core_state.current_board_height;
        cli_state.enable_erase_line = self.core_state.enable_erase_line;
        cli_state.custom_score_system.chain_bonus = self.core_state.chain_bonus;
        cli_state.next_piece = copy_piece(&self.next_piece);
        cli_state.fall_speed_ms = self.fall_speed_ms;
    }

    /// Copies the front end's state into the core state: mode, board,
    /// current piece, cleared lines, play-area height, erase-line switch
    /// and chain bonus; and into the bridge the next piece, the fall speed
    /// and the erase-line switch.  Everything else of the core state stays.
    pub fn sync_from_cli_state(&mut self, cli_state: &CLIGameState)
        requires
            fits_fixed(board_rows(cli_state.board@)),
        ensures
            final(self).core_state.game_mode == spec_mode_to_core(cli_state.mode),
            forall|y: int, x: int| 0 <= y < BOARD_HEIGHT as int && 0 <= x < BOARD_WIDTH as int
                ==> #[trigger] fixed_rows(final(self).core_state.board)[y][x] == padded_cell(board_rows(cli_state.board@), y, x),
            same_piece_opt(final(self).core_state.current_piece, cli_state.current_piece),
            final(self).core_state == (CoreGameState {
                game_mode: final(self).core_state.game_mode,
                board: final(self).core_state.board,
                current_piece: final(self).core_state.current_piece,
                lines_cleared: cli_state.lines_cleared,
                current_board_height: cli_state.current_board_height,
                enable_erase_line: cli_state.enable_erase_line,
                chain_bonus: cli_state.custom_score_system.chain_bonus,
                ..old(self).core_state
            }),
            same_piece_opt(final(self).next_piece, cli_state.next_piece),
            final(self).fall_speed_ms == cli_state.fall_speed_ms,
            final(self).enable_erase_line == cli_state.enable_erase_line,
    {
        self.core_state.game_mode = Self::convert_mode_to_core(cli_state.mode);
        self.core_state.board = Self::convert_board_to_fixed(&cli_state.board);
        self.core_state.current_piece = copy_piece(&cli_state.current_piece);
        self.core_state.lines_cleared = cli_state.lines_cleared;
        self.core_state.current_board_height = cli_state.current_board_height;
        self.core_state.enable_erase_line = cli_state.enable_erase_line;
        self.core_state.chain_bonus = cli_state.custom_score_system.chain_bonus;
        self.next_piece = copy_piece(&cli_state.next_piece);
        self.fall_speed_ms = cli_state.fall_speed_ms;
        self.enable_erase_line = cli_state.enable_erase_line;
    }
}

/// Converting a mode to the front end's and back gives it again, both ways
/// round.
pub proof fn lemma_mode_round_trip(core_mode: CoreGameMode, cli_mode: CLIGameMode)
    ensures
        spec_mode_to_core(spec_mode_to_cli(core_mode)) == core_mode,
        spec_mode_to_cli(spec_mode_to_core(cli_mode)) == cli_mode,
{
}

/// A board of full size made fixed and turned back into rows is the same
/// board.
pub proof fn lemma_board_round_trip(rows: Seq<Seq<Cell>>, fixed: FixedBoard)
    requires
        rows.len() == BOARD_HEIGHT as int,
        forall|y: int| 0 <= y < BOARD_HEIGHT as int ==> #[trigger] rows[y].len() == BOARD_WIDTH as int,
        forall|y: int, x: int| 0 <= y < BOARD_HEIGHT as int && 0 <= x < BOARD_WIDTH as int
            ==> #[trigger] fixed_rows(fixed)[y][x] == padded_cell(rows, y, x),
    ensures
        fixed_rows(fixed) == rows,
{
    assert forall|y: int| 0 <= y < BOARD_HEIGHT as int implies #[trigger] fixed_rows(fixed)[y] == rows[y] by {
        assert forall|x: int| 0 <= x < BOARD_WIDTH as int implies fixed_rows(fixed)[y][x] == rows[y][x] by {
            assert(fixed_rows(fixed)[y][x] == padded_cell(rows, y, x));
        }
        assert(fixed_rows(fixed)[y] =~= rows[y]);
    }
    assert(fixed_rows(fixed) =~= rows);
}

} // verus!
