//! Animations of the falling-block game: blinking of completed lines, the
//! push-down of grey lines and the erasing of solid lines.  Times are
//! milliseconds since the start of the game.
use vstd::prelude::*;
use crate::cell::{Board, Cell, board_rows, rows_wf};
use crate::config::{
    BLINK_ANIMATION_STEP_MS, BLINK_COUNT_MAX, BOARD_HEIGHT, BOARD_WIDTH, PUSH_DOWN_STEP_DURATION_MS,
};
use crate::game_color::GameColor;
use crate::scoring::{ColorMaxChains, cell_points, cell_score};

verus! {

/// Interval between two erased lines of an erase-line animation, in milliseconds.
pub const ERASE_LINE_INTERVAL_MS: u64 = 100;

/// A running animation.
#[derive(Debug, Clone, PartialEq)]
pub enum Animation {
    LineBlink { lines: Vec<usize>, count: usize, start_time: u64 },
    PushDown { gray_line_y: usize, start_time: u64 },
    EraseLine { lines_remaining: u32, last_update: u64 },
}

/// Outcome of advancing the animations.
#[derive(Debug)]
pub struct AnimationResult {
    pub continuing_animations: Vec<Animation>,
    pub completed_line_blinks: Vec<Vec<usize>>,
    pub completed_push_downs: Vec<usize>,
}

impl AnimationResult {
    /// An outcome with nothing in it.
    pub fn new() -> (r: Self)
        ensures
            r.continuing_animations@.len() == 0,
            r.completed_line_blinks@.len() == 0,
            r.completed_push_downs@.len() == 0,
    {
        Self {
            continuing_animations: Vec::new(),
            completed_line_blinks: Vec::new(),
            completed_push_downs: Vec::new(),
        }
    }
}

/// No animation started after `t`.
pub open spec fn started_by(anims: Seq<Animation>, t: u64) -> bool {
    forall|k: int| 0 <= k < anims.len() ==> match #[trigger] anims[k] {
        Animation::LineBlink { start_time, .. } => start_time <= t,
        Animation::PushDown { start_time, .. } => start_time <= t,
        Animation::EraseLine { last_update, .. } => last_update <= t,
    }
}

/// Advancing the animations `anims` to time `t`: the animations that go on,
/// the line lists of the blinks that ended and the grey lines due to move.
pub open spec fn update_spec(anims: Seq<Animation>, t: u64) -> (Seq<Animation>, Seq<Vec<usize>>, Seq<usize>)
    decreases anims.len(),
{
    if anims.len() == 0 {
        (Seq::empty(), Seq::empty(), Seq::empty())
    } else {
        let (c, l, p) = update_spec(anims.drop_last(), t);
        match anims.last() {
            Animation::LineBlink { lines, count, start_time } => {
                let steps = (t - start_time) / (BLINK_ANIMATION_STEP_MS as int);
                if steps >= BLINK_COUNT_MAX {
                    (c, l.push(lines), p)
                } else {
                    (c.push(Animation::LineBlink { lines, count: steps as usize, start_time }), l, p)
                }
            },
            Animation::PushDown { gray_line_y, start_time } => {
                if t - start_time >= PUSH_DOWN_STEP_DURATION_MS {
                    (c, l, p.push(gray_line_y))
                } else {
                    (c.push(anims.last()), l, p)
                }
            },
            Animation::EraseLine { lines_remaining, last_update } => {
                if t - last_update >= ERASE_LINE_INTERVAL_MS {
                    if lines_remaining > 1 {
                        (c.push(Animation::EraseLine { lines_remaining: (lines_remaining - 1) as u32, last_update: t }), l, p)
                    } else {
                        (c, l, p)
                    }
                } else {
                    (c.push(anims.last()), l, p)
                }
            },
        }
    }
}

/// Advances every animation to `current_time` and empties `animations`.  A
/// blink that has gone through all its steps ends and hands back its lines; a
/// push-down whose step time has passed hands back its grey line (the caller
/// performs the step); an erase-line erases one line once its interval has
/// passed and ends when no line remains; everything else goes on.
pub fn update_animations(animations: &mut Vec<Animation>, current_time: u64) -> (result: AnimationResult)
    requires
        started_by(old(animations)@, current_time),
    ensures
        final(animations)@.len() == 0,
        (result.continuing_animations@, result.completed_line_blinks@, result.completed_push_downs@)
            == update_spec(old(animations)@, current_time),
{
    let ghost orig = animations@;
    let mut pending: Vec<Animation> = Vec::new();
    std::mem::swap(animations, &mut pending);
    let mut result = AnimationResult::new();
    let ghost mut i: int = 0;
    assert(orig.take(0) =~= Seq::<Animation>::empty());
    while pending.len() > 0
        invariant
            0 <= i <= orig.len(),
            pending@ == orig.subrange(i, orig.len() as int),
            started_by(orig, current_time),
            animations@.len() == 0,
            (result.continuing_animations@, result.completed_line_blinks@, result.completed_push_downs@)
                == update_spec(orig.take(i), current_time),
        decreases pending@.len(),
    {
        let animation = pending.remove(0);
        proof {
            assert(animation == orig[i]);
            assert(orig.take(i + 1).drop_last() =~= orig.take(i));
            assert(orig.take(i + 1).last() == orig[i]);
        }
        match animation {
            Animation::LineBlink { lines, count, start_time } => {
                let elapsed = current_time - start_time;
                let steps = elapsed / BLINK_ANIMATION_STEP_MS;
                if steps >= BLINK_COUNT_MAX as u64 {
                    result.completed_line_blinks.push(lines);
                } else {
                    result.continuing_animations.push(
                        Animation::LineBlink { lines, count: steps as usize, start_time },
                    );
                }
            },
            Animation::PushDown { gray_line_y, start_time } => {
                let elapsed = current_time - start_time;
                if elapsed >= PUSH_DOWN_STEP_DURATION_MS {
                    result.completed_push_downs.push(gray_line_y);
                } else {
                    result.continuing_animations.push(Animation::PushDown { gray_line_y, start_time });
                }
            },
            Animation::EraseLine { lines_remaining, last_update } => {
                let mut erase = Animation::EraseLine { lines_remaining, last_update };
                match process_erase_line_step(&mut erase, current_time) {
                    EraseLineStepResult::Continue => {
                        result.continuing_animations.push(erase);
                    },
                    EraseLineStepResult::Complete => {},
                }
            },
        }
        proof {
            i = i + 1;
            assert(pending@ =~= orig.subrange(i, orig.len() as int));
        }
    }
    proof {
        assert(orig.take(i) =~= orig);
    }
    result
}

/// Outcome of one push-down step.
#[derive(Debug)]
pub enum PushDownStepResult {
    Completed,
    Moved { new_gray_line_y: usize },
}

/// Outcome of one erase-line step.
#[derive(Debug)]
pub enum EraseLineStepResult {
    Continue,
    Complete,
}

/// A row of the board with every cell set to `cell`.
pub open spec fn filled_row(cell: Cell) -> Seq<Cell> {
    Seq::new(BOARD_WIDTH as nat, |x: int| cell)
}

/// The push-down of a grey line is over: it reached the bottom of the play
/// area or lies on a solid line.
pub open spec fn push_down_done(rows: Seq<Seq<Cell>>, height: int, gray_line_y: int) -> bool {
    let target_y = gray_line_y + 1;
    target_y >= height || (target_y < BOARD_HEIGHT && rows[target_y][0] == Cell::Solid)
}

/// One step of a push-down.  When the grey line has arrived it becomes a solid
/// line and the play area shrinks by one row; otherwise the row below the grey
/// line is taken out and an empty row enters at the top, so that the grey line
/// and everything above it move down by one.
pub fn process_push_down_step(board: &mut Board, current_board_height: &mut usize, gray_line_y: usize) -> (r: PushDownStepResult)
    requires
        rows_wf(board_rows(old(board)@)),
        gray_line_y < usize::MAX,
        push_down_done(board_rows(old(board)@), *old(current_board_height) as int, gray_line_y as int)
            ==> gray_line_y < BOARD_HEIGHT,
    ensures
        rows_wf(board_rows(final(board)@)),
        ({
            let rows = board_rows(old(board)@);
            let target_y = gray_line_y + 1;
            if push_down_done(rows, *old(current_board_height) as int, gray_line_y as int) {
                &&& r is Completed
                &&& board_rows(final(board)@) == rows.update(gray_line_y as int, filled_row(Cell::Solid))
                &&& *final(current_board_height) == if *old(current_board_height) > 0 { *old(current_board_height) - 1 } else { 0 }
            } else if target_y < BOARD_HEIGHT {
                &&& r == (PushDownStepResult::Moved { new_gray_line_y: target_y as usize })
                &&& board_rows(final(board)@) == seq![filled_row(Cell::Empty)] + rows.remove(target_y)
                &&& *final(current_board_height) == *old(current_board_height)
            } else {
                &&& r is Completed
                &&& board_rows(final(board)@) == rows
                &&& *final(current_board_height) == *old(current_board_height)
            }
        }),
{
    let ghost rows = board_rows(board@);
    assert(rows == board_rows(old(board)@));
    assert(rows_wf(rows));
    let target_y = gray_line_y + 1;
    let done = target_y >= *current_board_height || (target_y < 20 && board[target_y][0] == Cell::Solid);
    proof {
        if target_y < 20 {
            assert(rows[target_y as int] == board@[target_y as int]@);
        }
        assert(done == push_down_done(rows, *old(current_board_height) as int, gray_line_y as int));
    }
    if done {
        proof {
            assert(push_down_done(rows, *old(current_board_height) as int, gray_line_y as int));
            assert(gray_line_y < 20);
            assert(rows[gray_line_y as int].len() == 10);
            assert(Seq::new(10, |k: int| if k < 0 { Cell::Solid } else { rows[gray_line_y as int][k] }) =~= rows[gray_line_y as int]);
            assert(rows.update(gray_line_y as int, Seq::new(10, |k: int| if k < 0 { Cell::Solid } else { rows[gray_line_y as int][k] })) =~= rows);
        }
        let mut x: usize = 0;
        while x < 10
            invariant
                x <= 10,
                gray_line_y < 20,
                rows_wf(rows),
                rows_wf(board_rows(board@)),
                board_rows(board@) == rows.update(
                    gray_line_y as int,
                    Seq::new(10, |k: int| if k < x { Cell::Solid } else { rows[gray_line_y as int][k] }),
                ),
            decreases 10 - x,
        {
            assert(board_rows(board@)[gray_line_y as int] == board@[gray_line_y as int]@);
            assert(board_rows(board@)[gray_line_y as int].len() == 10);
            let ghost before = board_rows(board@);
            assert(before[gray_line_y as int] =~= Seq::new(10, |k: int| if k < x { Cell::Solid } else { rows[gray_line_y as int][k] }));
            crate::cell::set_cell(board, gray_line_y, x, Cell::Solid);
            proof {
                assert(board_rows(board@)[gray_line_y as int] == before[gray_line_y as int].update(x as int, Cell::Solid));
                assert(board_rows(board@)[gray_line_y as int] =~= Seq::new(10, |k: int| if k < x + 1 { Cell::Solid } else { rows[gray_line_y as int][k] }));
                assert(board_rows(board@) =~= rows.update(
                    gray_line_y as int,
                    Seq::new(10, |k: int| if k < x + 1 { Cell::Solid } else { rows[gray_line_y as int][k] }),
                ));
            }
            x += 1;
        }
        proof {
            assert(board_rows(board@)[gray_line_y as int] =~= filled_row(Cell::Solid));
            assert(board_rows(board@) =~= rows.update(gray_line_y as int, filled_row(Cell::Solid)));
        }
        *current_board_height = if *current_board_height > 0 { *current_board_height - 1 } else { 0 };
        PushDownStepResult::Completed
    } else {
        if target_y < 20 {
            let ghost b0 = board@;
            board.remove(target_y);
            let empty_row = vec![Cell::Empty; 10];
            assert(empty_row@ =~= filled_row(Cell::Empty));
            board.insert(0, empty_row);
            proof {
                assert(board@ == b0.remove(target_y as int).insert(0, empty_row));
                assert(board_rows(board@) =~= seq![filled_row(Cell::Empty)] + rows.remove(target_y as int));
            }
            PushDownStepResult::Moved { new_gray_line_y: target_y }
        } else {
            PushDownStepResult::Completed
        }
    }
}

/// One step of an erase-line animation: every 100 ms one line is erased; the
/// animation completes when no line remains.  Any other animation counts as
/// complete.
pub fn process_erase_line_step(animation: &mut Animation, current_time: u64) -> (r: EraseLineStepResult)
    requires
        (*old(animation)) matches Animation::EraseLine { last_update, .. } ==> last_update <= current_time,
    ensures
        match *old(animation) {
            Animation::EraseLine { lines_remaining, last_update } => {
                if current_time - last_update >= ERASE_LINE_INTERVAL_MS {
                    if lines_remaining > 0 {
                        &&& *final(animation) == (Animation::EraseLine { lines_remaining: (lines_remaining - 1) as u32, last_update: current_time })
                        &&& (r is Complete <==> lines_remaining == 1)
                    } else {
                        &&& *final(animation) == *old(animation)
                        &&& r is Complete
                    }
                } else {
                    &&& *final(animation) == *old(animation)
                    &&& r is Continue
                }
            },
            _ => *final(animation) == *old(animation) && r is Complete,
        },
{
    match animation {
        Animation::EraseLine { lines_remaining, last_update } => {
            if current_time - *last_update >= ERASE_LINE_INTERVAL_MS {
                if *lines_remaining > 0 {
                    *lines_remaining = *lines_remaining - 1;
                    *last_update = current_time;
                    if *lines_remaining == 0 {
                        EraseLineStepResult::Complete
                    } else {
                        EraseLineStepResult::Continue
                    }
                } else {
                    EraseLineStepResult::Complete
                }
            } else {
                EraseLineStepResult::Continue
            }
        },
        _ => EraseLineStepResult::Complete,
    }
}

/// Colour and points of each block of the first `n` cells of a row, in order.
pub open spec fn line_scores(row: Seq<Cell>, m: ColorMaxChains, n: int) -> Seq<(GameColor, u32)>
    decreases n,
{
    if n <= 0 {
        Seq::empty()
    } else {
        let prev = line_scores(row, m, n - 1);
        match row[n - 1] {
            Cell::Occupied(color) => prev.push((color, cell_points(row[n - 1], m) as u32)),
            Cell::Connected { color, .. } => prev.push((color, cell_points(row[n - 1], m) as u32)),
            _ => prev,
        }
    }
}

/// Every block of the row scores within the range of a `u32`.
pub open spec fn row_scores_fit(row: Seq<Cell>, m: ColorMaxChains) -> bool {
    forall|x: int| 0 <= x < BOARD_WIDTH ==> #[trigger] cell_points(row[x], m) <= u32::MAX
}

/// Colour and points of every block of line `line_y`: a block scores its count
/// times the longest chain of its colour times ten.
pub fn calculate_line_clear_score(board: &Board, line_y: usize, max_chains: &ColorMaxChains) -> (scores: Vec<(GameColor, u32)>)
    requires
        rows_wf(board_rows(board@)),
        line_y < BOARD_HEIGHT,
        row_scores_fit(board_rows(board@)[line_y as int], *max_chains),
    ensures
        scores@ == line_scores(board_rows(board@)[line_y as int], *max_chains, BOARD_WIDTH as int),
{
    let ghost row = board_rows(board@)[line_y as int];
    let mut scores: Vec<(GameColor, u32)> = Vec::new();
    let mut x: usize = 0;
    while x < 10
        invariant
            x <= 10,
            row == board_rows(board@)[line_y as int],
            row.len() == 10,
            line_y < board@.len(),
            row == board@[line_y as int]@,
            row_scores_fit(row, *max_chains),
            scores@ == line_scores(row, *max_chains, x as int),
        decreases 10 - x,
    {
        let cell = board[line_y][x];
        match cell {
            Cell::Occupied(color) => {
                let points = cell_score(cell, max_chains);
                scores.push((color, points));
            },
            Cell::Connected { color, .. } => {
                let points = cell_score(cell, max_chains);
                scores.push((color, points));
            },
            _ => {},
        }
        x += 1;
    }
    scores
}

/// Entries of `lines` equal to `v`, in order.
pub open spec fn lines_equal(lines: Seq<usize>, v: int) -> Seq<usize>
    decreases lines.len(),
{
    if lines.len() == 0 {
        Seq::empty()
    } else if lines.last() as int == v {
        lines_equal(lines.drop_last(), v).push(lines.last())
    } else {
        lines_equal(lines.drop_last(), v)
    }
}

/// Entries of `lines` other than `v`, in order.
pub open spec fn lines_other(lines: Seq<usize>, v: int) -> Seq<usize>
    decreases lines.len(),
{
    if lines.len() == 0 {
        Seq::empty()
    } else if lines.last() as int != v {
        lines_other(lines.drop_last(), v).push(lines.last())
    } else {
        lines_other(lines.drop_last(), v)
    }
}

/// `k` empty rows.
pub open spec fn empty_rows(k: int) -> Seq<Seq<Cell>> {
    Seq::new(k as nat, |i: int| filled_row(Cell::Empty))
}

/// The board after `b` removals of the bottom line `h - 1` and as many empty
/// rows entering at the top.
pub open spec fn rows_after_bottom_clear(rows: Seq<Seq<Cell>>, h: int, b: int) -> Seq<Seq<Cell>> {
    if b == 0 {
        rows
    } else {
        empty_rows(b) + rows.subrange(0, h - 1) + rows.subrange(h - 1 + b, BOARD_HEIGHT as int)
    }
}

/// The board after clearing `lines`: the lines equal to the bottom line
/// `h - 1` are removed (empty rows enter at the top), then the other lines
/// turn grey.
pub open spec fn rows_after_line_clear(rows: Seq<Seq<Cell>>, h: int, lines: Seq<usize>) -> Seq<Seq<Cell>> {
    let shifted = rows_after_bottom_clear(rows, h, lines_equal(lines, h - 1).len() as int);
    Seq::new(BOARD_HEIGHT as nat, |y: int|
        if lines_other(lines, h - 1).contains(y as usize) { filled_row(Cell::Occupied(GameColor::Grey)) } else { shifted[y] })
}

pub(crate) proof fn lemma_split_take(lines: Seq<usize>, v: int, k: int)
    requires
        0 <= k < lines.len(),
    ensures
        lines_equal(lines.take(k + 1), v) == if lines[k] as int == v { lines_equal(lines.take(k), v).push(lines[k]) } else { lines_equal(lines.take(k), v) },
        lines_other(lines.take(k + 1), v) == if lines[k] as int != v { lines_other(lines.take(k), v).push(lines[k]) } else { lines_other(lines.take(k), v) },
{
    assert(lines.take(k + 1).drop_last() =~= lines.take(k));
}

proof fn lemma_lines_equal_all(lines: Seq<usize>, v: int)
    ensures
        forall|m: int| 0 <= m < lines_equal(lines, v).len() ==> #[trigger] lines_equal(lines, v)[m] as int == v,
        lines_equal(lines, v).len() <= lines.len(),
        forall|m: int| 0 <= m < lines_other(lines, v).len() ==> lines.contains(#[trigger] lines_other(lines, v)[m]),
    decreases lines.len(),
{
    if lines.len() > 0 {
        lemma_lines_equal_all(lines.drop_last(), v);
        assert forall|m: int| 0 <= m < lines_other(lines, v).len() implies lines.contains(#[trigger] lines_other(lines, v)[m]) by {
            if m < lines_other(lines.drop_last(), v).len() {
                let x = lines_other(lines.drop_last(), v)[m];
                assert(lines.drop_last().contains(x));
                let q = choose|q: int| 0 <= q < lines.drop_last().len() && lines.drop_last()[q] == x;
                assert(lines[q] == x);
            } else {
                assert(lines[lines.len() - 1] == lines.last());
            }
        }
    }
}

/// Every entry of the two parts of `lines` is an entry of `lines`, and the
/// part equal to `v` is no longer than `lines`.
pub proof fn lemma_lines_split_bounds(lines: Seq<usize>, v: int)
    ensures
        lines_equal(lines, v).len() <= lines.len(),
        forall|m: int| 0 <= m < lines_equal(lines, v).len() ==> lines.contains(#[trigger] lines_equal(lines, v)[m]),
        forall|m: int| 0 <= m < lines_other(lines, v).len() ==> lines.contains(#[trigger] lines_other(lines, v)[m]),
    decreases lines.len(),
{
    lemma_lines_equal_all(lines, v);
    if lines.len() > 0 {
        lemma_lines_split_bounds(lines.drop_last(), v);
        assert forall|m: int| 0 <= m < lines_equal(lines, v).len() implies lines.contains(#[trigger] lines_equal(lines, v)[m]) by {
            if m < lines_equal(lines.drop_last(), v).len() {
                let x = lines_equal(lines.drop_last(), v)[m];
                assert(lines.drop_last().contains(x));
                let q = choose|q: int| 0 <= q < lines.drop_last().len() && lines.drop_last()[q] == x;
                assert(lines[q] == x);
            } else {
                assert(lines[lines.len() - 1] == lines.last());
            }
        }
    }
}

/// Clears the completed `lines` once their blink is over.  Lines equal to the
/// bottom line of the play area (`current_board_height - 1`) are removed like
/// in ordinary falling-block games, with empty rows entering at the top; the
/// other lines turn grey, ready to be pushed down.  Returns the bottom lines
/// and the other lines, each in the order given.
pub fn process_line_clear(board: &mut Board, current_board_height: usize, lines: &[usize]) -> (r: (Vec<usize>, Vec<usize>))
    requires
        rows_wf(board_rows(old(board)@)),
        lines@.len() > 0 ==> current_board_height >= 1,
        lines_equal(lines@, current_board_height - 1).len() > 0
            ==> current_board_height - 1 + lines_equal(lines@, current_board_height - 1).len() <= BOARD_HEIGHT,
        forall|m: int| 0 <= m < lines@.len() ==> #[trigger] lines@[m] < BOARD_HEIGHT,
    ensures
        r.0@ == lines_equal(lines@, current_board_height - 1),
        r.1@ == lines_other(lines@, current_board_height - 1),
        rows_wf(board_rows(final(board)@)),
        board_rows(final(board)@) == rows_after_line_clear(board_rows(old(board)@), current_board_height as int, lines@),
{
    let ghost rows = board_rows(board@);
    let ghost h = current_board_height as int;
    let mut bottom_lines_cleared: Vec<usize> = Vec::new();
    let mut non_bottom_lines_cleared: Vec<usize> = Vec::new();
    let mut k: usize = 0;
    while k < lines.len()
        invariant
            k <= lines@.len(),
            h == current_board_height as int,
            lines@.len() > 0 ==> current_board_height >= 1,
            bottom_lines_cleared@ == lines_equal(lines@.take(k as int), h - 1),
            non_bottom_lines_cleared@ == lines_other(lines@.take(k as int), h - 1),
        decreases lines@.len() - k,
    {
        proof {
            lemma_split_take(lines@, h - 1, k as int);
        }
        let y = lines[k];
        if y == current_board_height - 1 {
            bottom_lines_cleared.push(y);
        } else {
            non_bottom_lines_cleared.push(y);
        }
        k += 1;
    }
    proof {
        assert(lines@.take(lines@.len() as int) =~= lines@);
        lemma_lines_equal_all(lines@, h - 1);
    }
    let ghost b = bottom_lines_cleared@.len() as int;
    let num_cleared = bottom_lines_cleared.len();
    if num_cleared > 0 {
        let line_y = current_board_height - 1;
        let mut m: usize = 0;
        proof {
            assert(rows.subrange(0, h - 1) + rows.subrange(h - 1, 20) =~= rows);
        }
        while m < num_cleared
            invariant
                m <= num_cleared,
                num_cleared == b,
                1 <= h,
                line_y == h - 1,
                h - 1 + b <= 20,
                rows_wf(rows),
                board_rows(board@) == rows.subrange(0, h - 1) + rows.subrange(h - 1 + m, 20),
            decreases num_cleared - m,
        {
            assert(board@.len() == board_rows(board@).len());
            let ghost b0 = board@;
            board.remove(line_y);
            proof {
                assert(board_rows(board@) =~= board_rows(b0).remove(line_y as int));
                assert(board_rows(board@) =~= rows.subrange(0, h - 1) + rows.subrange(h - 1 + m + 1, 20));
            }
            m += 1;
        }
        let mut m: usize = 0;
        while m < num_cleared
            invariant
                m <= num_cleared,
                num_cleared == b,
                1 <= h,
                h - 1 + b <= 20,
                rows_wf(rows),
                board_rows(board@) == empty_rows(m as int) + rows.subrange(0, h - 1) + rows.subrange(h - 1 + b, 20),
            decreases num_cleared - m,
        {
            let empty_row = vec![Cell::Empty; 10];
            assert(empty_row@ =~= filled_row(Cell::Empty));
            let ghost b0 = board@;
            board.insert(0, empty_row);
            proof {
                assert(board_rows(board@) =~= board_rows(b0).insert(0, filled_row(Cell::Empty)));
                assert(board_rows(board@) =~= empty_rows(m as int + 1) + rows.subrange(0, h - 1) + rows.subrange(h - 1 + b, 20));
            }
            m += 1;
        }
    }
    let ghost shifted = rows_after_bottom_clear(rows, h, b);
    proof {
        assert(board_rows(board@) =~= shifted);
        assert forall|y: int| 0 <= y < 20 implies #[trigger] shifted[y].len() == 10 by {
            if b > 0 {
                if y < b {
                } else if y < b + h - 1 {
                    assert(shifted[y] == rows[y - b]);
                } else {
                    assert(shifted[y] == rows[y - b - (h - 1) + (h - 1 + b)]);
                }
            }
        }
    }
    let mut m: usize = 0;
    while m < non_bottom_lines_cleared.len()
        invariant
            m <= non_bottom_lines_cleared@.len(),
            non_bottom_lines_cleared@ == lines_other(lines@, h - 1),
            forall|q: int| 0 <= q < lines@.len() ==> #[trigger] lines@[q] < BOARD_HEIGHT,
            forall|q: int| 0 <= q < lines_other(lines@, h - 1).len() ==> lines@.contains(#[trigger] lines_other(lines@, h - 1)[q]),
            shifted.len() == 20,
            forall|y: int| 0 <= y < 20 ==> #[trigger] shifted[y].len() == 10,
            board_rows(board@) == Seq::new(20, |y: int|
                if non_bottom_lines_cleared@.take(m as int).contains(y as usize) { filled_row(Cell::Occupied(GameColor::Grey)) } else { shifted[y] }),
        decreases non_bottom_lines_cleared@.len() - m,
    {
        let y = non_bottom_lines_cleared[m];
        proof {
            assert(lines@.contains(lines_other(lines@, h - 1)[m as int]));
            let q = choose|q: int| 0 <= q < lines@.len() && lines@[q] == y;
            assert(lines@[q] < 20);
            assert(board@.len() == board_rows(board@).len());
        }
        let grey_row = vec![Cell::Occupied(GameColor::Grey); 10];
        assert(grey_row@ =~= filled_row(Cell::Occupied(GameColor::Grey)));
        let ghost b0 = board@;
        board.set(y, grey_row);
        proof {
            assert(board_rows(board@) =~= board_rows(b0).update(y as int, filled_row(Cell::Occupied(GameColor::Grey))));
            let t = non_bottom_lines_cleared@.take(m as int);
            assert(non_bottom_lines_cleared@.take(m as int + 1) =~= t.push(y));
            assert forall|z: usize| t.push(y).contains(z) <==> (t.contains(z) || z == y) by {
                if t.contains(z) {
                    let q = choose|q: int| 0 <= q < t.len() && t[q] == z;
                    assert(t.push(y)[q] == z);
                }
                if z == y {
                    assert(t.push(y)[t.len() as int] == y);
                }
                if t.push(y).contains(z) {
                    let q = choose|q: int| 0 <= q < t.len() + 1 && t.push(y)[q] == z;
                    if q < t.len() {
                        assert(t[q] == z);
                    }
                }
            }
            let t1 = non_bottom_lines_cleared@.take(m as int + 1);
            assert forall|yy: int| 0 <= yy < 20 implies board_rows(board@)[yy] ==
                (if t1.contains(yy as usize) { filled_row(Cell::Occupied(GameColor::Grey)) } else { shifted[yy] }) by {
                assert(board_rows(b0)[yy] == (if t.contains(yy as usize) { filled_row(Cell::Occupied(GameColor::Grey)) } else { shifted[yy] }));
                assert(t1.contains(yy as usize) <==> (t.contains(yy as usize) || yy as usize == y));
            }
            assert(board_rows(board@) =~= Seq::new(20, |yy: int|
                if non_bottom_lines_cleared@.take(m as int + 1).contains(yy as usize) { filled_row(Cell::Occupied(GameColor::Grey)) } else { shifted[yy] }));
        }
        m += 1;
    }
    proof {
        let nb = non_bottom_lines_cleared@;
        assert(nb.take(nb.len() as int) =~= nb);
        let target = rows_after_line_clear(rows, h, lines@);
        assert forall|y: int| 0 <= y < 20 implies board_rows(board@)[y] == target[y] by {
            assert(board_rows(board@)[y] == if nb.take(nb.len() as int).contains(y as usize) { filled_row(Cell::Occupied(GameColor::Grey)) } else { shifted[y] });
        }
        assert(board_rows(board@) =~= target);
    }
    (bottom_lines_cleared, non_bottom_lines_cleared)
}

} // verus!
