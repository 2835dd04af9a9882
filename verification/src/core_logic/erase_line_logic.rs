//! The erase-line animation: the chain bonus buys the removal of solid lines
//! from the bottom of the board, one line per step.
use vstd::prelude::*;
use crate::cell::{Cell, fixed_rows};
use crate::config::{BOARD_HEIGHT, BOARD_WIDTH};
use crate::animation::filled_row;
use crate::core_logic::board_logic::{FixedBoard, row_is_solid, row_solid, solid_run, lemma_solid_run_bounds};

verus! {

/// Interval between two erased lines, in milliseconds.
pub const ERASE_LINE_STEP_MS: u64 = 120;

/// Outcome of one erase-line step.
#[derive(Debug, Clone, PartialEq, Eq, Structural)]
pub enum EraseLineStepResult {
    Continue,
    Complete { lines_erased: u32 },
}

/// State of an erase-line animation.
#[derive(Debug, Clone, PartialEq)]
pub struct EraseLineAnimationState {
    pub target_lines: Vec<usize>,
    pub current_step: usize,
    pub last_update_ms: u64,
    pub chain_bonus_consumed: u32,
    pub is_completed: bool,
}

impl EraseLineAnimationState {
    /// A fresh animation over `target_lines`, started at `start_time_ms`.
    pub fn new(target_lines: Vec<usize>, start_time_ms: u64) -> (s: Self)
        ensures
            s.target_lines == target_lines,
            s.current_step == 0,
            s.last_update_ms == start_time_ms,
            s.chain_bonus_consumed == 0,
            !s.is_completed,
    {
        Self { target_lines, current_step: 0, last_update_ms: start_time_ms, chain_bonus_consumed: 0, is_completed: false }
    }
}

/// Number of lines an erase-line animation removes: as many as the chain
/// bonus pays for, at most the number of solid lines.
pub fn determine_erase_line_count(chain_bonus: u32, solid_lines_count: usize) -> (n: usize)
    ensures
        n as int == if (chain_bonus as int) <= solid_lines_count as int { chain_bonus as int } else { solid_lines_count as int },
{
    let cb = chain_bonus as usize;
    if cb <= solid_lines_count { cb } else { solid_lines_count }
}

/// Pays for `lines_erased` lines from the chain bonus; returns the remaining
/// bonus and the amount paid (never more than the bonus).
pub fn consume_chain_bonus_for_erase_line(chain_bonus: u32, lines_erased: u32) -> (r: (u32, u32))
    ensures
        r.1 == if chain_bonus <= lines_erased { chain_bonus } else { lines_erased },
        r.0 == chain_bonus - r.1,
{
    let consumed = if chain_bonus <= lines_erased { chain_bonus } else { lines_erased };
    (chain_bonus - consumed, consumed)
}

/// Number of solid lines stacked at the physical bottom of the board.
pub fn count_solid_lines_from_bottom(board: FixedBoard) -> (count: usize)
    ensures
        count as int == solid_run(fixed_rows(board), BOARD_HEIGHT as int),
{
    let ghost rows = fixed_rows(board);
    let mut count: usize = 0;
    let mut y: usize = 20;
    while y > 0
        invariant
            y <= 20,
            rows == fixed_rows(board),
            count + solid_run(rows, y as int) == solid_run(rows, 20),
            count <= 20 - y,
        decreases y,
    {
        if row_is_solid(&board[y - 1]) {
            count += 1;
            y -= 1;
        } else {
            return count;
        }
    }
    count
}

/// The lowest row that is entirely solid, if any.
fn lowest_solid_row(board: &FixedBoard) -> (r: Option<usize>)
    ensures
        match r {
            Some(y) => y < BOARD_HEIGHT && row_solid(fixed_rows(*board)[y as int])
                && forall|k: int| y < k < BOARD_HEIGHT ==> !row_solid(#[trigger] fixed_rows(*board)[k]),
            None => forall|k: int| 0 <= k < BOARD_HEIGHT ==> !row_solid(#[trigger] fixed_rows(*board)[k]),
        },
{
    let ghost rows = fixed_rows(*board);
    let mut y: usize = 20;
    while y > 0
        invariant
            y <= 20,
            rows == fixed_rows(*board),
            forall|k: int| y <= k < 20 ==> !row_solid(#[trigger] rows[k]),
        decreases y,
    {
        if row_is_solid(&board[y - 1]) {
            return Some(y - 1);
        }
        y -= 1;
    }
    None
}

/// The board after its bottom line is taken out and an empty row enters at
/// the top.
pub open spec fn rows_without_bottom(rows: Seq<Seq<Cell>>) -> Seq<Seq<Cell>> {
    seq![filled_row(Cell::Empty)] + rows.subrange(0, BOARD_HEIGHT as int - 1)
}

/// Removes the bottom solid line: when the board has a solid line at its
/// physical bottom, every row moves down by one, an empty row enters at the
/// top and the play area grows by one row (at most to the board's height).
/// Returns the board, the new height and whether a line was removed.
pub fn remove_solid_line_from_bottom(board: FixedBoard, current_height: usize) -> (r: (FixedBoard, usize, bool))
    requires
        solid_run(fixed_rows(board), BOARD_HEIGHT as int) > 0 ==> current_height < usize::MAX,
    ensures
        if solid_run(fixed_rows(board), BOARD_HEIGHT as int) == 0 {
            r.0 == board && r.1 == current_height && !r.2
        } else {
            &&& fixed_rows(r.0) == rows_without_bottom(fixed_rows(board))
            &&& r.2
            &&& r.1 == grown_height(current_height as int)
        },
{
    let ghost rows = fixed_rows(board);
    if count_solid_lines_from_bottom(board) == 0 {
        return (board, current_height, false);
    }
    let mut board = board;
    let bottom_solid_line = lowest_solid_row(&board);
    proof {
        assert(row_solid(rows[19]));
    }
    if let Some(solid_y) = bottom_solid_line {
        assert(solid_y == 19);
        let mut yy: usize = solid_y;
        while yy >= 1
            invariant
                yy <= 19,
                rows.len() == 20,
                forall|k: int| 0 <= k <= yy ==> #[trigger] fixed_rows(board)[k] == rows[k],
                forall|k: int| yy < k < 20 ==> #[trigger] fixed_rows(board)[k] == rows[k - 1],
            decreases yy,
        {
            let ghost before = fixed_rows(board);
            board[yy] = board[yy - 1];
            proof {
                assert(fixed_rows(board) =~= before.update(yy as int, before[yy - 1]));
            }
            yy -= 1;
        }
        let ghost before = fixed_rows(board);
        board[0] = [Cell::Empty; 10];
        proof {
            assert(fixed_rows(board) =~= before.update(0, fixed_rows(board)[0]));
            assert(fixed_rows(board)[0] =~= filled_row(Cell::Empty));
            assert forall|k: int| 0 <= k < 20 implies fixed_rows(board)[k] == rows_without_bottom(rows)[k] by {
                if k > 0 {
                    assert(before[k] == rows[k - 1]);
                }
            }
            assert(fixed_rows(board) =~= rows_without_bottom(rows));
        }
    }
    let new_height: usize = if current_height + 1 <= 20 { current_height + 1 } else { 20 };
    (board, new_height, true)
}

/// The play area grown by one row, at most to the board's height.
pub open spec fn grown_height(h: int) -> int {
    if h + 1 <= BOARD_HEIGHT { h + 1 } else { BOARD_HEIGHT as int }
}

/// One step of an erase-line animation at time `current_time_ms`.  Once
/// 120 ms have passed since the last step, one solid line is removed from the
/// bottom while target lines remain; the animation completes when all target
/// lines are gone, when no solid line is left (reporting the lines removed so
/// far) or when there was nothing left to do.  Before that it continues
/// unchanged.
pub fn process_erase_line_step(
    animation_state: EraseLineAnimationState,
    current_time_ms: u64,
    board: FixedBoard,
    current_height: usize,
) -> (r: (EraseLineAnimationState, FixedBoard, usize, EraseLineStepResult))
    requires
        (current_time_ms >= animation_state.last_update_ms + ERASE_LINE_STEP_MS
            && animation_state.current_step < animation_state.target_lines@.len()
            && solid_run(fixed_rows(board), BOARD_HEIGHT as int) > 0)
            ==> current_height < usize::MAX,
        (current_time_ms >= animation_state.last_update_ms + ERASE_LINE_STEP_MS
            && animation_state.current_step < animation_state.target_lines@.len()
            && solid_run(fixed_rows(board), BOARD_HEIGHT as int) > 0)
            ==> animation_state.chain_bonus_consumed < u32::MAX,
    ensures
        ({
            let s = animation_state;
            let n = s.target_lines@.len();
            if current_time_ms < s.last_update_ms + ERASE_LINE_STEP_MS {
                r == (s, board, current_height, EraseLineStepResult::Continue)
            } else if s.current_step < n {
                if solid_run(fixed_rows(board), BOARD_HEIGHT as int) > 0 {
                    let done = s.current_step + 1 >= n;
                    &&& r.0 == (EraseLineAnimationState {
                        target_lines: s.target_lines,
                        current_step: (s.current_step + 1) as usize,
                        last_update_ms: current_time_ms,
                        chain_bonus_consumed: (s.chain_bonus_consumed + 1) as u32,
                        is_completed: done || s.is_completed,
                    })
                    &&& fixed_rows(r.1) == rows_without_bottom(fixed_rows(board))
                    &&& r.2 == grown_height(current_height as int)
                    &&& r.3 == if done { EraseLineStepResult::Complete { lines_erased: n as u32 } } else { EraseLineStepResult::Continue }
                } else {
                    &&& r.0 == (EraseLineAnimationState { is_completed: true, ..s })
                    &&& r.1 == board && r.2 == current_height
                    &&& r.3 == (EraseLineStepResult::Complete { lines_erased: s.current_step as u32 })
                }
            } else {
                &&& r.0 == (EraseLineAnimationState { is_completed: true, ..s })
                &&& r.1 == board && r.2 == current_height
                &&& r.3 == (EraseLineStepResult::Complete { lines_erased: n as u32 })
            }
        }),
{
    let mut animation_state = animation_state;
    let erase_interval_ms: u64 = 120;
    let elapsed_ms = if current_time_ms >= animation_state.last_update_ms {
        current_time_ms - animation_state.last_update_ms
    } else {
        0
    };
    if elapsed_ms >= erase_interval_ms {
        if animation_state.current_step < animation_state.target_lines.len() {
            let (new_board, new_height, removed) = remove_solid_line_from_bottom(board, current_height);
            proof {
                lemma_solid_run_bounds(fixed_rows(board), BOARD_HEIGHT as int);
            }
            if removed {
                animation_state.current_step = animation_state.current_step + 1;
                animation_state.chain_bonus_consumed = animation_state.chain_bonus_consumed + 1;
                animation_state.last_update_ms = current_time_ms;
                let target_lines_len = animation_state.target_lines.len();
                let current_step = animation_state.current_step;
                if current_step >= target_lines_len {
                    animation_state.is_completed = true;
                    (animation_state, new_board, new_height, EraseLineStepResult::Complete { lines_erased: target_lines_len as u32 })
                } else {
                    (animation_state, new_board, new_height, EraseLineStepResult::Continue)
                }
            } else {
                let current_step = animation_state.current_step;
                animation_state.is_completed = true;
                (animation_state, board, current_height, EraseLineStepResult::Complete { lines_erased: current_step as u32 })
            }
        } else {
            let target_lines_len = animation_state.target_lines.len();
            animation_state.is_completed = true;
            (animation_state, board, current_height, EraseLineStepResult::Complete { lines_erased: target_lines_len as u32 })
        }
    } else {
        (animation_state, board, current_height, EraseLineStepResult::Continue)
    }
}

/// Whether an erase-line animation starts, and its target lines: with erasing
/// enabled and a chain bonus, as many lines as the bonus pays for (at most the
/// solid lines at the bottom), listed upwards from row `current_height - 1`.
pub fn should_start_erase_line_animation(
    enable_erase_line: bool,
    chain_bonus: u32,
    board: FixedBoard,
    current_height: usize,
) -> (r: (bool, Vec<usize>))
    requires
        enable_erase_line ==> {
            let solid = solid_run(fixed_rows(board), BOARD_HEIGHT as int);
            let n = if (chain_bonus as int) <= solid { chain_bonus as int } else { solid };
            n <= current_height
        },
    ensures
        ({
            let solid = solid_run(fixed_rows(board), BOARD_HEIGHT as int);
            let n = if (chain_bonus as int) <= solid { chain_bonus as int } else { solid };
            if enable_erase_line && n > 0 {
                &&& r.0
                &&& r.1@.len() == n
                &&& forall|i: int| 0 <= i < n ==> #[trigger] r.1@[i] == current_height - 1 - i
            } else {
                !r.0 && r.1@.len() == 0
            }
        }),
{
    if !enable_erase_line {
        return (false, Vec::new());
    }
    let solid_count = count_solid_lines_from_bottom(board);
    let erasable_lines = determine_erase_line_count(chain_bonus, solid_count);
    if erasable_lines > 0 {
        let mut target_lines: Vec<usize> = Vec::new();
        let mut i: usize = 0;
        while i < erasable_lines
            invariant
                i <= erasable_lines <= current_height,
                target_lines@.len() == i,
                forall|k: int| 0 <= k < i ==> #[trigger] target_lines@[k] == current_height - 1 - k,
            decreases erasable_lines - i,
        {
            target_lines.push(current_height - 1 - i);
            i += 1;
        }
        (true, target_lines)
    } else {
        (false, Vec::new())
    }
}

/// On rows that all have the board's width, each removal of the bottom
/// solid line leaves one solid line fewer at the bottom.
pub proof fn lemma_remove_solid_line_decrements(rows: Seq<Seq<Cell>>)
    requires
        rows.len() == BOARD_HEIGHT,
        solid_run(rows, BOARD_HEIGHT as int) > 0,
    ensures
        solid_run(rows_without_bottom(rows), BOARD_HEIGHT as int) == solid_run(rows, BOARD_HEIGHT as int) - 1,
{
    let new_rows = rows_without_bottom(rows);
    assert(!row_solid(filled_row(Cell::Empty))) by {
        assert(filled_row(Cell::Empty)[0] == Cell::Empty);
    }
    lemma_shifted_run(rows, new_rows, BOARD_HEIGHT as int);
}

/// Counting up from row `h - 1` of the shifted rows is counting up from row
/// `h - 2` of the original ones, the empty top row stopping both.
proof fn lemma_shifted_run(rows: Seq<Seq<Cell>>, new_rows: Seq<Seq<Cell>>, h: int)
    requires
        rows.len() == BOARD_HEIGHT,
        new_rows == rows_without_bottom(rows),
        1 <= h <= BOARD_HEIGHT,
        !row_solid(filled_row(Cell::Empty)),
    ensures
        solid_run(new_rows, h) == solid_run(rows, h - 1),
    decreases h,
{
    if h == 1 {
        assert(new_rows[0] == filled_row(Cell::Empty));
    } else {
        assert(new_rows[h - 1] == rows[h - 2]);
        lemma_shifted_run(rows, new_rows, h - 1);
    }
}

} // verus!
