//! The terminal game's own engine: a board of rows, the running animations
//! and the score system, with piece locking, line clearing, the push-down of
//! grey lines and the recount of chains.  The clock is handed in as
//! milliseconds.
use vstd::prelude::*;
use crate::animation::Animation;
use crate::board_logic::{count_blocks_from_row, count_connected_blocks, counts_spec, pt_index, pt_valid, Point};
use crate::cell::{board_rows, cell_at, empty_board, rows_wf, set_cell, Board, Cell};
use crate::config::{BOARD_HEIGHT, BOARD_WIDTH};
use crate::connectivity::{all_rows, colors_from_rows, colors_of, component, num_cells, scanned};
use crate::game_color::GameColor;
use crate::config::FALL_SPEED_START_MS;
use crate::core_logic::game_state::{piece_cells, placed_rows};
use crate::core_logic::input_handler::{fresh_piece, piece_ok};
use crate::scoring::{ColorMaxChains, CustomScoreSystem, max_u32, min_u32, row_points, calculate_line_clear_total_score, CHAIN_BONUS_LIMIT};
use crate::board_logic::find_and_connect_adjacent_blocks;
use crate::connectivity::rows_except;
use crate::animation::{filled_row, lines_equal, lines_other, process_line_clear, rows_after_line_clear};
use crate::board_logic::{isolation_target, remove_isolated_blocks};
use crate::animation::{push_down_done, process_push_down_step, update_animations, update_spec, started_by, AnimationResult, PushDownStepResult};
use crate::core_logic::board_logic::solid_run;
use crate::core_logic::erase_line_logic::{count_solid_lines_from_bottom, determine_erase_line_count};
use crate::cli_bridge::CLIBridge;
use crate::core_logic::input_handler::cells_below;
use crate::game_input::{input_of_key, GameInput, Key};
use crate::tetromino::{Tetromino, TetrominoBag};

verus! {

/// Mode of the terminal game.
#[derive(Clone, Copy, Debug, PartialEq, Eq, Structural)]
pub enum GameMode {
    Title,
    Playing,
    GameOver,
}

/// The rows `0..h` take part, the others do not.
pub open spec fn rows_below(h: int) -> Seq<bool> {
    Seq::new(BOARD_HEIGHT as nat, |y: int| y < h)
}

/// Flags for the rows `0..h`.
pub(crate) fn rows_below_flags(h: usize) -> (allowed: Vec<bool>)
    ensures
        allowed@ == rows_below(h as int),
{
    let mut allowed: Vec<bool> = Vec::new();
    let mut y: usize = 0;
    while y < BOARD_HEIGHT
        invariant
            y <= BOARD_HEIGHT,
            allowed@ == rows_below(h as int).take(y as int),
        decreases BOARD_HEIGHT - y,
    {
        allowed.push(y < h);
        y = y + 1;
        assert(allowed@ =~= rows_below(h as int).take(y as int));
    }
    assert(rows_below(h as int).take(BOARD_HEIGHT as int) =~= rows_below(h as int));
    allowed
}

/// Cell `i` after a recount over the rows flagged in `allowed` of the groups
/// that reach rows `first_row..`: a `Connected` block of such a group takes
/// the group's size (truncated to `u8`); every other cell stays.
pub open spec fn recount_target(rows: Seq<Seq<Cell>>, allowed: Seq<bool>, first_row: int, i: int) -> Cell {
    match cell_at(rows, i) {
        Cell::Connected { color, .. } => if scanned(colors_of(rows), allowed, first_row * BOARD_WIDTH as int, num_cells(), i) {
            Cell::Connected { color, count: component(colors_of(rows), allowed, i).len() as u8 }
        } else {
            cell_at(rows, i)
        },
        other => other,
    }
}

/// Some of the first `k` entries of `r` names cell `j`.
pub open spec fn listed_before(r: Seq<(Point, u32)>, k: int, j: int) -> bool {
    exists|m: int| 0 <= m < k && #[trigger] pt_index(r[m].0) == j
}

/// Gives every `Connected` block named in `results` the count listed with
/// it.
pub(crate) fn apply_counts(board: &mut Board, results: &Vec<(Point, u32)>, allowed: Ghost<Seq<bool>>, first_row: Ghost<int>)
    requires
        rows_wf(board_rows(old(board)@)),
        counts_spec(colors_of(board_rows(old(board)@)), allowed@, first_row@, results@),
    ensures
        rows_wf(board_rows(final(board)@)),
        forall|i: int| 0 <= i < num_cells() ==>
            #[trigger] cell_at(board_rows(final(board)@), i)
                == recount_target(board_rows(old(board)@), allowed@, first_row@, i),
{
    let ghost rows0 = board_rows(board@);
    let ghost r = results@;
    let mut k: usize = 0;
    while k < results.len()
        invariant
            k <= r.len(),
            r == results@,
            rows_wf(board_rows(board@)),
            counts_spec(colors_of(rows0), allowed@, first_row@, r),
            forall|i: int| 0 <= i < num_cells() ==>
                #[trigger] cell_at(board_rows(board@), i)
                    == if listed_before(r, k as int, i) { recount_target(rows0, allowed@, first_row@, i) } else { cell_at(rows0, i) },
        decreases r.len() - k,
    {
        let ((x, y), count) = results[k];
        let ghost j = pt_index((x, y));
        assert(pt_valid(r[k as int].0));
        proof {
            crate::connectivity::lemma_index_parts(x as int, y as int);
        }
        assert(!listed_before(r, k as int, j)) by {
            if listed_before(r, k as int, j) {
                let m = choose|m: int| 0 <= m < k && #[trigger] pt_index(r[m].0) == j;
                assert(pt_index(r[m].0) != pt_index(r[k as int].0));
            }
        }
        let ghost before = board_rows(board@);
        assert(cell_at(before, j) == before[y as int][x as int]);
        assert(cell_at(before, j) == cell_at(rows0, j));
        if let Cell::Connected { color, count: _ } = board[y][x] {
            set_cell(board, y, x, Cell::Connected { color, count: count as u8 });
        }
        let ghost after = board_rows(board@);
        assert(after[y as int][x as int] == recount_target(rows0, allowed@, first_row@, j));
        assert forall|i: int| 0 <= i < num_cells() && i != j implies #[trigger] cell_at(after, i) == cell_at(before, i) by {
            assert(i == crate::connectivity::row_of(i) * 10 + crate::connectivity::col_of(i));
            assert(0 <= crate::connectivity::col_of(i) < 10);
        }
        assert forall|i: int| 0 <= i < num_cells() implies
            #[trigger] cell_at(board_rows(board@), i)
                == if listed_before(r, k + 1, i) { recount_target(rows0, allowed@, first_row@, i) } else { cell_at(rows0, i) } by {
            if i == j {
                assert(pt_index(r[k as int].0) == i);
                assert(listed_before(r, k + 1, i));
            } else {
                assert(cell_at(after, i) == cell_at(before, i));
                if listed_before(r, k + 1, i) {
                    let m = choose|m: int| 0 <= m < k + 1 && #[trigger] pt_index(r[m].0) == i;
                    assert(m != k);
                    assert(listed_before(r, k as int, i));
                } else {
                    assert(!listed_before(r, k as int, i)) by {
                        if listed_before(r, k as int, i) {
                            let m = choose|m: int| 0 <= m < k && #[trigger] pt_index(r[m].0) == i;
                            assert(listed_before(r, k + 1, i));
                        }
                    }
                }
            }
        }
        k = k + 1;
    }
    assert forall|i: int| 0 <= i < num_cells() implies
        #[trigger] cell_at(board_rows(board@), i) == recount_target(rows0, allowed@, first_row@, i) by {
        if !listed_before(r, r.len() as int, i) {
            if scanned(colors_of(rows0), allowed@, first_row@ * BOARD_WIDTH as int, num_cells(), i) {
                assert(crate::board_logic::listed(r, i));
                let m = choose|m: int| 0 <= m < r.len() && #[trigger] pt_index(r[m].0) == i;
                assert(listed_before(r, r.len() as int, i));
            }
        }
    }
}


/// Block position `p` is allowed: inside the columns, above the bottom of
/// the play area `h`, and on an empty cell where it lies on the board (a
/// block above the board is allowed).
pub open spec fn block_allowed(rows: Seq<Seq<Cell>>, h: int, p: (i8, i8)) -> bool {
    &&& 0 <= p.0 < BOARD_WIDTH
    &&& p.1 < h
    &&& p.1 >= 0 ==> rows[p.1 as int][p.0 as int] == Cell::Empty
}

/// Every block of `cells` is allowed.
pub open spec fn position_allowed(rows: Seq<Seq<Cell>>, h: int, cells: Seq<((i8, i8), GameColor)>) -> bool {
    forall|k: int| 0 <= k < cells.len() ==> block_allowed(rows, h, #[trigger] cells[k].0)
}

/// The rows whose cell `i` (row by row) is `f(i)`.
pub open spec fn rows_of_cells(f: spec_fn(int) -> Cell) -> Seq<Seq<Cell>> {
    Seq::new(BOARD_HEIGHT as nat, |y: int| Seq::new(BOARD_WIDTH as nat, |x: int| f(y * BOARD_WIDTH as int + x)))
}

/// Rows of full size are determined by their cells.
pub(crate) proof fn lemma_rows_from_cells(rows: Seq<Seq<Cell>>, f: spec_fn(int) -> Cell)
    requires
        rows_wf(rows),
        forall|i: int| 0 <= i < num_cells() ==> #[trigger] cell_at(rows, i) == f(i),
    ensures
        rows == rows_of_cells(f),
{
    let g = rows_of_cells(f);
    assert forall|y: int| 0 <= y < BOARD_HEIGHT as int implies #[trigger] rows[y] =~= g[y] by {
        assert forall|x: int| 0 <= x < BOARD_WIDTH as int implies rows[y][x] == g[y][x] by {
            crate::connectivity::lemma_index_parts(x, y);
            assert(cell_at(rows, y * 10 + x) == f(y * 10 + x));
        }
    }
    assert(rows =~= g);
}

/// The rows after a recount (see `recount_target`).
pub open spec fn recounted_rows(rows: Seq<Seq<Cell>>, allowed: Seq<bool>, first_row: int) -> Seq<Seq<Cell>> {
    rows_of_cells(|i: int| recount_target(rows, allowed, first_row, i))
}

/// `m` after meeting `cell`: a `Connected` block raises the chain recorded
/// for its colour to its count (see `ColorMaxChains::update_max`).
pub open spec fn chains_after_cell(m: ColorMaxChains, cell: Cell) -> ColorMaxChains {
    match cell {
        Cell::Connected { color, count } => match color {
            GameColor::Cyan => ColorMaxChains { cyan: max_u32(m.cyan, count as u32), ..m },
            GameColor::Magenta => ColorMaxChains { magenta: max_u32(m.magenta, count as u32), ..m },
            GameColor::Yellow => ColorMaxChains { yellow: max_u32(m.yellow, count as u32), ..m },
            _ => m,
        },
        _ => m,
    }
}

/// `m` after meeting the first `n` cells of `rows`, row by row.
pub open spec fn chains_after_cells(m: ColorMaxChains, rows: Seq<Seq<Cell>>, n: int) -> ColorMaxChains
    decreases n,
{
    if n <= 0 { m } else { chains_after_cell(chains_after_cells(m, rows, n - 1), cell_at(rows, n - 1)) }
}


/// A line with a block in every cell.
pub open spec fn full_row(row: Seq<Cell>) -> bool {
    forall|x: int| 0 <= x < row.len() ==> (#[trigger] row[x] is Occupied || row[x] is Connected)
}

/// The full lines among rows `0..n`, from the lowest up.
pub open spec fn full_lines_desc(rows: Seq<Seq<Cell>>, n: int) -> Seq<usize>
    decreases n,
{
    if n <= 0 {
        Seq::empty()
    } else if full_row(rows[n - 1]) {
        seq![(n - 1) as usize] + full_lines_desc(rows, n - 1)
    } else {
        full_lines_desc(rows, n - 1)
    }
}

/// There are at most `n` full lines among rows `0..n`, each below `n`.
pub(crate) proof fn lemma_full_lines_bounds(rows: Seq<Seq<Cell>>, n: int)
    requires
        n >= 0,
    ensures
        full_lines_desc(rows, n).len() <= n,
        forall|k: int| 0 <= k < full_lines_desc(rows, n).len() ==> #[trigger] full_lines_desc(rows, n)[k] < n,
    decreases n,
{
    if n > 0 {
        lemma_full_lines_bounds(rows, n - 1);
    }
}

/// Writes the blocks of `piece` that lie on the board.
fn place_blocks(board: &mut Board, piece: &Tetromino)
    requires
        rows_wf(board_rows(old(board)@)),
        piece.fits(),
        forall|k: int| 0 <= k < piece_cells(*piece).len() && 0 <= (#[trigger] piece_cells(*piece)[k]).0.1 < BOARD_HEIGHT
            ==> 0 <= piece_cells(*piece)[k].0.0 < BOARD_WIDTH,
    ensures
        rows_wf(board_rows(final(board)@)),
        board_rows(final(board)@) == placed_rows(board_rows(old(board)@), piece_cells(*piece)),
{
    let blocks = piece.iter_blocks();
    let ghost cells = piece_cells(*piece);
    let ghost rows0 = board_rows(board@);
    assert(blocks@ =~= cells);
    let mut i: usize = 0;
    while i < blocks.len()
        invariant
            i <= blocks@.len(),
            blocks@ == cells,
            cells == piece_cells(*piece),
            forall|k: int| 0 <= k < cells.len() && 0 <= (#[trigger] cells[k]).0.1 < BOARD_HEIGHT ==> 0 <= cells[k].0.0 < BOARD_WIDTH,
            rows_wf(board_rows(board@)),
            board_rows(board@) == placed_rows(rows0, cells.take(i as int)),
        decreases blocks@.len() - i,
    {
        let ((bx, by), color) = blocks[i];
        assert(cells[i as int] == ((bx, by), color));
        assert(cells.take(i + 1).drop_last() =~= cells.take(i as int));
        if by >= 0 && by < BOARD_HEIGHT as i8 {
            assert(0 <= bx < BOARD_WIDTH);
            let x = bx as usize;
            let y = by as usize;
            assert(board_rows(board@)[y as int] == board@[y as int]@);
            set_cell(board, y, x, Cell::Occupied(color));
        }
        i = i + 1;
    }
    assert(cells.take(cells.len() as int) =~= cells);
}

/// Whether every cell of row `y` holds a block.
fn row_is_full(board: &Board, y: usize) -> (r: bool)
    requires
        rows_wf(board_rows(board@)),
        y < BOARD_HEIGHT,
    ensures
        r == full_row(board_rows(board@)[y as int]),
{
    let ghost row = board_rows(board@)[y as int];
    assert(row == board@[y as int]@);
    let mut x: usize = 0;
    while x < BOARD_WIDTH
        invariant
            x <= BOARD_WIDTH,
            y < BOARD_HEIGHT,
            rows_wf(board_rows(board@)),
            row == board_rows(board@)[y as int],
            row == board@[y as int]@,
            forall|k: int| 0 <= k < x ==> (#[trigger] row[k] is Occupied || row[k] is Connected),
        decreases BOARD_WIDTH - x,
    {
        match board[y][x] {
            Cell::Occupied(_) => {},
            Cell::Connected { .. } => {},
            _ => {
                assert(!(row[x as int] is Occupied || row[x as int] is Connected));
                return false;
            },
        }
        x = x + 1;
    }
    true
}

/// The full lines of rows `0..h`, from the lowest up.
pub(crate) fn find_full_lines(board: &Board, h: usize) -> (lines: Vec<usize>)
    requires
        rows_wf(board_rows(board@)),
        h <= BOARD_HEIGHT,
    ensures
        lines@ == full_lines_desc(board_rows(board@), h as int),
{
    let ghost rows = board_rows(board@);
    let mut lines: Vec<usize> = Vec::new();
    let mut y: usize = 0;
    while y < h
        invariant
            y <= h <= BOARD_HEIGHT,
            rows == board_rows(board@),
            rows_wf(rows),
            lines@ == full_lines_desc(rows, y as int),
        decreases h - y,
    {
        if row_is_full(board, y) {
            lines.insert(0, y);
            assert(lines@ =~= seq![y] + full_lines_desc(rows, y as int));
        }
        y = y + 1;
    }
    lines
}

/// The rows after joining (see `connect_target`).
pub open spec fn connected_rows(rows: Seq<Seq<Cell>>, allowed: Seq<bool>) -> Seq<Seq<Cell>> {
    rows_of_cells(|i: int| crate::board_logic::connect_target(rows, allowed, i))
}

/// The sum of the rises of the three piece colours' chains from `a` to `b`.
pub open spec fn chain_increase(a: ColorMaxChains, b: ColorMaxChains) -> int {
    (b.cyan - a.cyan) + (b.magenta - a.magenta) + (b.yellow - a.yellow)
}

/// Meeting cells only raises the chains, and never above the largest
/// `Connected` count, 255, when they start at most there.
pub(crate) proof fn lemma_chains_after_bounds(m: ColorMaxChains, rows: Seq<Seq<Cell>>, n: int)
    ensures
        chains_after_cells(m, rows, n).cyan >= m.cyan,
        chains_after_cells(m, rows, n).magenta >= m.magenta,
        chains_after_cells(m, rows, n).yellow >= m.yellow,
        m.cyan <= 255 ==> chains_after_cells(m, rows, n).cyan <= 255,
        m.magenta <= 255 ==> chains_after_cells(m, rows, n).magenta <= 255,
        m.yellow <= 255 ==> chains_after_cells(m, rows, n).yellow <= 255,
    decreases n,
{
    if n > 0 {
        lemma_chains_after_bounds(m, rows, n - 1);
    }
}

/// Points of the listed lines of `rows`, in order.
pub open spec fn lines_points(rows: Seq<Seq<Cell>>, m: ColorMaxChains, lines: Seq<usize>) -> int
    decreases lines.len(),
{
    if lines.len() == 0 {
        0
    } else {
        lines_points(rows, m, lines.drop_last())
            + crate::scoring::row_points(rows[lines.last() as int], m, BOARD_WIDTH as int)
    }
}

/// Most points one line can give with chains of at most 255.
pub const MAX_LINE_POINTS: u32 = 6_502_500;

/// Most points one lock can give: every row of the board full.
pub const MAX_LOCK_POINTS: u32 = 130_050_000;

/// A line gives at most `MAX_LINE_POINTS` points.
pub(crate) proof fn lemma_row_points_bound(row: Seq<Cell>, m: ColorMaxChains, n: int)
    requires
        0 <= n,
        m.cyan <= 255,
        m.magenta <= 255,
        m.yellow <= 255,
    ensures
        0 <= crate::scoring::row_points(row, m, n) <= n * 650250,
    decreases n,
{
    if n > 0 {
        lemma_row_points_bound(row, m, n - 1);
        let c = row[n - 1];
        let g = crate::scoring::chain_of(m, match c {
            Cell::Occupied(color) => color,
            Cell::Connected { color, .. } => color,
            _ => GameColor::Cyan,
        });
        assert(0 <= g <= 255);
        assert(0 <= crate::scoring::cell_points(c, m) <= 650250) by {
            match c {
                Cell::Connected { color, count } => {
                    assert(0 <= count * g * 10 <= 650250) by (nonlinear_arith)
                        requires
                            0 <= count <= 255,
                            0 <= g <= 255,
                    ;
                },
                _ => {},
            }
        }
    }
}


/// Board cells of the current piece's blocks; none without a piece.
pub open spec fn current_cells(s: GameState) -> Seq<((i8, i8), GameColor)> {
    match s.current_piece {
        Some(p) => piece_cells(p),
        None => Seq::empty(),
    }
}

/// The board once the current piece is written on it.
pub open spec fn lock_placed(s: GameState) -> Seq<Seq<Cell>> {
    placed_rows(s.rows(), current_cells(s))
}

/// The full lines of the play area once the piece is written, lowest first.
pub open spec fn lock_lines(s: GameState) -> Seq<usize> {
    full_lines_desc(lock_placed(s), s.current_board_height as int)
}

/// The board after a lock: the piece written, the groups joined outside
/// the full lines, and the chains counted.
pub open spec fn lock_rows(s: GameState) -> Seq<Seq<Cell>> {
    recounted_rows(connected_rows(lock_placed(s), rows_except(lock_lines(s))), all_rows(), 1)
}

/// The recorded chains after a lock.
pub open spec fn lock_chains(s: GameState) -> ColorMaxChains {
    chains_after_cells(s.custom_score_system.max_chains, lock_rows(s), s.current_board_height * BOARD_WIDTH as int)
}

/// Listed lines give at most `MAX_LINE_POINTS` each.
pub(crate) proof fn lemma_lines_points_bound(rows: Seq<Seq<Cell>>, m: ColorMaxChains, lines: Seq<usize>)
    requires
        m.cyan <= 255,
        m.magenta <= 255,
        m.yellow <= 255,
    ensures
        0 <= lines_points(rows, m, lines) <= lines.len() * MAX_LINE_POINTS,
    decreases lines.len(),
{
    if lines.len() > 0 {
        lemma_lines_points_bound(rows, m, lines.drop_last());
        lemma_row_points_bound(rows[lines.last() as int], m, BOARD_WIDTH as int);
    }
}


/// Keeping the entries equal to `v` twice keeps them once.
proof fn lemma_lines_equal_idempotent(lines: Seq<usize>, v: int)
    ensures
        lines_equal(lines_equal(lines, v), v) == lines_equal(lines, v),
    decreases lines.len(),
{
    if lines.len() > 0 {
        lemma_lines_equal_idempotent(lines.drop_last(), v);
        let prev = lines_equal(lines.drop_last(), v);
        if lines.last() as int == v {
            assert(lines_equal(prev.push(lines.last()), v).drop_last() =~= lines_equal(prev, v)) by {
                assert(prev.push(lines.last()).drop_last() =~= prev);
            }
            assert(prev.push(lines.last()).drop_last() =~= prev);
        }
    }
}

/// The rows after each listed line in turn first loses the isolated blocks
/// below it (see `isolation_target`) and then turns grey.
pub open spec fn isolate_and_grey(rows: Seq<Seq<Cell>>, lines: Seq<usize>) -> Seq<Seq<Cell>>
    decreases lines.len(),
{
    if lines.len() == 0 {
        rows
    } else {
        let prev = isolate_and_grey(rows, lines.drop_last());
        let y = lines.last() as int;
        rows_of_cells(|i: int| isolation_target(prev, y, i)).update(y, filled_row(Cell::Occupied(GameColor::Grey)))
    }
}

/// The rows after the blink of `lines` is over, with the play area `h`: the
/// lines on the bottom line `h - 1` are removed with empty rows entering at
/// the top and the play area recounted; then each other line loses the
/// isolated blocks below it and turns grey; then, if any line was cleared,
/// the play area is recounted.
pub open spec fn blink_rows(rows: Seq<Seq<Cell>>, h: int, lines: Seq<usize>) -> Seq<Seq<Cell>> {
    let bottom = lines_equal(lines, h - 1);
    let others = lines_other(lines, h - 1);
    let r1 = if bottom.len() > 0 {
        recounted_rows(rows_after_line_clear(rows, h, bottom), rows_below(h), 0)
    } else {
        rows
    };
    let r2 = isolate_and_grey(r1, others);
    if bottom.len() > 0 || others.len() > 0 { recounted_rows(r2, rows_below(h), 0) } else { r2 }
}

/// Line lists that a blink can finish with in a play area of height `h`:
/// every line on the board, and room for removing the bottom lines.
pub open spec fn blink_lines_ok(lines: Seq<usize>, h: int) -> bool {
    &&& h >= 1
    &&& forall|m: int| 0 <= m < lines.len() ==> #[trigger] lines[m] < BOARD_HEIGHT
    &&& lines_equal(lines, h - 1).len() > 0 ==> h - 1 + lines_equal(lines, h - 1).len() <= BOARD_HEIGHT
}


/// Animations that `handle_animation` can advance with the play area `h`:
/// finished blinks can be cleared and grey lines lie on the board.
pub open spec fn animations_ok(anims: Seq<Animation>, h: int) -> bool {
    forall|k: int| 0 <= k < anims.len() ==> match #[trigger] anims[k] {
        Animation::LineBlink { lines, .. } => blink_lines_ok(lines@, h),
        Animation::PushDown { gray_line_y, .. } => gray_line_y < BOARD_HEIGHT,
        Animation::EraseLine { .. } => true,
    }
}

/// What advancing animations that satisfy `animations_ok` hands back keeps
/// to the same bounds.
pub(crate) proof fn lemma_update_spec_ok(anims: Seq<Animation>, t: u64, h: int)
    requires
        animations_ok(anims, h),
    ensures
        forall|j: int| 0 <= j < update_spec(anims, t).1.len() ==> blink_lines_ok(#[trigger] update_spec(anims, t).1[j]@, h),
        forall|j: int| 0 <= j < update_spec(anims, t).2.len() ==> #[trigger] update_spec(anims, t).2[j] < BOARD_HEIGHT,
    decreases anims.len(),
{
    if anims.len() > 0 {
        assert(animations_ok(anims.drop_last(), h)) by {
            assert forall|k: int| 0 <= k < anims.drop_last().len() implies match #[trigger] anims.drop_last()[k] {
                Animation::LineBlink { lines, .. } => blink_lines_ok(lines@, h),
                Animation::PushDown { gray_line_y, .. } => gray_line_y < BOARD_HEIGHT,
                Animation::EraseLine { .. } => true,
            } by {
                assert(anims.drop_last()[k] == anims[k]);
            }
        }
        lemma_update_spec_ok(anims.drop_last(), t, h);
        assert(anims.last() == anims[anims.len() - 1]);
        let prev = update_spec(anims.drop_last(), t);
        let cur = update_spec(anims, t);
        match anims.last() {
            Animation::LineBlink { lines, .. } => {
                assert(cur.2 == prev.2);
                assert(cur.1 == prev.1 || cur.1 == prev.1.push(lines));
            },
            Animation::PushDown { gray_line_y, .. } => {
                assert(cur.1 == prev.1);
                assert(cur.2 == prev.2 || cur.2 == prev.2.push(gray_line_y));
            },
            Animation::EraseLine { .. } => {
                assert(cur.1 == prev.1);
                assert(cur.2 == prev.2);
            },
        }
        assert forall|j: int| 0 <= j < cur.1.len() implies blink_lines_ok(#[trigger] cur.1[j]@, h) by {
            if cur.1 != prev.1 {
                assert(cur.1 =~= prev.1.push(cur.1.last()));
                if j < prev.1.len() {
                    assert(cur.1[j] == prev.1[j]);
                }
            }
        }
        assert forall|j: int| 0 <= j < cur.2.len() implies #[trigger] cur.2[j] < BOARD_HEIGHT by {
            if cur.2 != prev.2 {
                assert(cur.2 =~= prev.2.push(cur.2.last()));
                if j < prev.2.len() {
                    assert(cur.2[j] == prev.2[j]);
                }
            }
        }
    }
}

/// The rows after the blinks of `blinks` are finished in turn.
pub open spec fn blinks_rows(rows: Seq<Seq<Cell>>, h: int, blinks: Seq<Vec<usize>>) -> Seq<Seq<Cell>>
    decreases blinks.len(),
{
    if blinks.len() == 0 {
        rows
    } else {
        blink_rows(blinks_rows(rows, h, blinks.drop_last()), h, blinks.last()@)
    }
}

/// Push-downs starting at `now` for the listed lines.
pub open spec fn push_downs_of(lines: Seq<usize>, now: u64) -> Seq<Animation> {
    Seq::new(lines.len(), |k: int| Animation::PushDown { gray_line_y: lines[k], start_time: now })
}

/// Push-downs starting at `now` for the lines of the finished blinks that
/// are not the bottom line `h - 1`, blink by blink.
pub open spec fn blink_push_downs(blinks: Seq<Vec<usize>>, h: int, now: u64) -> Seq<Animation>
    decreases blinks.len(),
{
    if blinks.len() == 0 {
        Seq::empty()
    } else {
        blink_push_downs(blinks.drop_last(), h, now) + push_downs_of(lines_other(blinks.last()@, h - 1), now)
    }
}

/// Board, play-area height and animations after the push-down steps of the
/// grey lines `grays` in turn: a grey line that has arrived becomes solid,
/// the play area shrinks by one, the play area is recounted and, when the
/// chain bonus and the solid lines at the bottom allow, an erase-line
/// animation of that many lines starts; a grey line that moves on takes
/// the row below it out (an empty row enters at the top), the play area is
/// recounted and its push-down goes on from the next row.
pub open spec fn push_down_fold(
    rows: Seq<Seq<Cell>>,
    h: int,
    anims: Seq<Animation>,
    bonus: u32,
    grays: Seq<usize>,
    now: u64,
) -> (Seq<Seq<Cell>>, int, Seq<Animation>)
    decreases grays.len(),
{
    if grays.len() == 0 {
        (rows, h, anims)
    } else {
        let (r, hh, a) = push_down_fold(rows, h, anims, bonus, grays.drop_last(), now);
        let g = grays.last() as int;
        if push_down_done(r, hh, g) || g + 1 >= BOARD_HEIGHT {
            let r2 = if push_down_done(r, hh, g) { r.update(g, filled_row(Cell::Solid)) } else { r };
            let h2 = if push_down_done(r, hh, g) { if hh > 0 { hh - 1 } else { 0 } } else { hh };
            let r3 = recounted_rows(r2, rows_below(h2), 0);
            let solid = solid_run(r3, BOARD_HEIGHT as int);
            let n = if (bonus as int) <= solid { bonus as int } else { solid };
            (r3, h2, if n > 0 { a.push(Animation::EraseLine { lines_remaining: n as u32, last_update: now }) } else { a })
        } else {
            let r2 = seq![filled_row(Cell::Empty)] + r.remove(g + 1);
            (recounted_rows(r2, rows_below(hh), 0), hh, a.push(Animation::PushDown { gray_line_y: (g + 1) as usize, start_time: now }))
        }
    }
}


/// Dropped straight down, `p` stops `n` rows lower: every one of the first
/// `n` rows below is allowed and the next is not.
pub open spec fn drop_stops(rows: Seq<Seq<Cell>>, h: int, p: Tetromino, n: int) -> bool {
    &&& n >= 0
    &&& forall|j: int| 1 <= j <= n ==> position_allowed(rows, h, #[trigger] cells_below(p, j))
    &&& !position_allowed(rows, h, cells_below(p, n + 1))
}

/// `q` is where the command `input` would put the piece `p`: one column
/// left or right, one row down, a quarter turn either way, or as far down as
/// it goes.
pub open spec fn input_candidate(rows: Seq<Seq<Cell>>, h: int, p: Tetromino, input: GameInput, q: Tetromino) -> bool {
    match input {
        GameInput::MoveLeft => q.is_move_of(p, -1, 0),
        GameInput::MoveRight => q.is_move_of(p, 1, 0),
        GameInput::SoftDrop => q.is_move_of(p, 0, 1),
        GameInput::RotateClockwise => q.is_cw_turn_of(p),
        GameInput::RotateCounterClockwise => q.is_ccw_turn_of(p),
        GameInput::HardDrop => exists|n: int| drop_stops(rows, h, p, n) && q.is_move_of(p, 0, n),
        _ => false,
    }
}

/// The command moves pieces.
pub open spec fn moves_piece(input: GameInput) -> bool {
    input is MoveLeft || input is MoveRight || input is SoftDrop || input is HardDrop
        || input is RotateClockwise || input is RotateCounterClockwise
}

/// An allowed piece lies in or just left of the columns and above the
/// bottom of the board.
proof fn lemma_allowed_bounds(rows: Seq<Seq<Cell>>, h: int, q: Tetromino)
    requires
        q.in_shape(),
        q.fits(),
        h <= BOARD_HEIGHT,
        position_allowed(rows, h, piece_cells(q)),
    ensures
        -3 <= q.position().0 < BOARD_WIDTH,
        q.position().1 < BOARD_HEIGHT,
{
    crate::tetromino::lemma_shape_offsets_small(q.piece_shape(), q.rotation() as int, 0);
    assert(piece_cells(q)[0] == q.block_at(0));
    assert(block_allowed(rows, h, piece_cells(q)[0].0));
}


/// `after` is `before` after `k` pieces were handed over (see
/// `GameState::spawn_piece`): with none the pieces and the bag are as they
/// were; after one the next piece became the current one and a fresh piece
/// drawn from the bag is next; after more both are fresh pieces.
pub open spec fn handed_over(before: GameState, after: GameState, k: nat) -> bool {
    if k == 0 {
        &&& after.current_piece == before.current_piece
        &&& after.next_piece == before.next_piece
        &&& after.bag == before.bag
    } else {
        &&& after.next_piece matches Some(t) && fresh_piece(t)
        &&& if k == 1 {
            &&& after.current_piece == before.next_piece
            &&& after.bag.is_draw_from(after.next_piece->0.piece_shape(), before.bag)
        } else {
            after.current_piece matches Some(c) && fresh_piece(c)
        }
    }
}

/// One more hand-over extends a run of hand-overs.
proof fn lemma_hand_over_step(s0: GameState, s1: GameState, s2: GameState, k: nat)
    requires
        handed_over(s0, s1, k),
        s2.current_piece == s1.next_piece,
        s2.next_piece matches Some(t) && fresh_piece(t) && s2.bag.is_draw_from(t.piece_shape(), s1.bag),
    ensures
        handed_over(s0, s2, k + 1),
{
}

/// Pieces and bag unchanged keep a run of hand-overs.
proof fn lemma_hand_over_same(s0: GameState, s1: GameState, s2: GameState, k: nat)
    requires
        handed_over(s0, s1, k),
        s2.current_piece == s1.current_piece,
        s2.next_piece == s1.next_piece,
        s2.bag == s1.bag,
    ensures
        handed_over(s0, s2, k),
{
}


/// Hand-overs in a row add up.
proof fn lemma_hand_over_then(s0: GameState, s1: GameState, s2: GameState, k: nat, d: nat)
    requires
        handed_over(s0, s1, k),
        handed_over(s1, s2, d),
        d <= 1,
    ensures
        handed_over(s0, s2, k + d),
{
    if d == 1 {
        lemma_hand_over_step(s0, s1, s2, k);
    }
}

/// Finished blinks that remove a bottom line, each of which hands a piece
/// over.
pub open spec fn blink_spawns(blinks: Seq<Vec<usize>>, h: int) -> nat
    decreases blinks.len(),
{
    if blinks.len() == 0 {
        0
    } else {
        blink_spawns(blinks.drop_last(), h) + if lines_equal(blinks.last()@, h - 1).len() > 0 { 1nat } else { 0nat }
    }
}

/// Push-down steps (see `push_down_fold`) after which the grey line has
/// arrived and no animation is left, each of which hands a piece over.
pub open spec fn push_down_spawns(
    rows: Seq<Seq<Cell>>,
    h: int,
    anims: Seq<Animation>,
    bonus: u32,
    grays: Seq<usize>,
    now: u64,
) -> nat
    decreases grays.len(),
{
    if grays.len() == 0 {
        0
    } else {
        let (r, hh, a) = push_down_fold(rows, h, anims, bonus, grays.drop_last(), now);
        let g = grays.last() as int;
        let after = push_down_fold(rows, h, anims, bonus, grays, now);
        push_down_spawns(rows, h, anims, bonus, grays.drop_last(), now)
            + if (push_down_done(r, hh, g) || g + 1 >= BOARD_HEIGHT) && after.2.len() == 0 { 1nat } else { 0nat }
    }
}


/// The points of the first `k` listed lines are at most those of all of
/// them.
pub(crate) proof fn lemma_lines_points_prefix(rows: Seq<Seq<Cell>>, m: ColorMaxChains, lines: Seq<usize>, k: int)
    requires
        0 <= k <= lines.len(),
        m.cyan <= 255,
        m.magenta <= 255,
        m.yellow <= 255,
    ensures
        lines_points(rows, m, lines.take(k)) <= lines_points(rows, m, lines),
    decreases lines.len(),
{
    if k < lines.len() {
        lemma_row_points_bound(rows[lines.last() as int], m, BOARD_WIDTH as int);
        assert(lines.drop_last().take(k) =~= lines.take(k));
        lemma_lines_points_prefix(rows, m, lines.drop_last(), k);
    } else {
        assert(lines.take(k) =~= lines);
    }
}


/// A lock scores at most `MAX_LOCK_POINTS`: a program that keeps the score
/// at most `u32::MAX - MAX_LOCK_POINTS` meets the bound `lock_piece` asks.
pub proof fn lemma_lock_points_bounded(s: GameState)
    requires
        s.wf(),
    ensures
        0 <= lines_points(lock_rows(s), lock_chains(s), lock_lines(s)) <= MAX_LOCK_POINTS,
{
    lemma_chains_after_bounds(s.custom_score_system.max_chains, lock_rows(s), s.current_board_height * BOARD_WIDTH as int);
    lemma_full_lines_bounds(lock_placed(s), s.current_board_height as int);
    lemma_lines_points_bound(lock_rows(s), lock_chains(s), lock_lines(s));
}

/// `t` is `s` after `GameState::spawn_piece`: the next piece became the
/// current one, a fresh piece drawn from the bag is next, and the game is
/// over when the new current piece is not at an allowed position; nothing
/// else changed.
pub open spec fn spawned(s: GameState, t: GameState) -> bool {
    &&& t.current_piece == s.next_piece
    &&& t.next_piece matches Some(q) && fresh_piece(q) && t.bag.is_draw_from(q.piece_shape(), s.bag)
    &&& t.mode == if s.next_piece matches Some(p) && !position_allowed(
        s.rows(),
        s.current_board_height as int,
        piece_cells(p),
    ) {
        GameMode::GameOver
    } else {
        s.mode
    }
    &&& t == (GameState {
        current_piece: t.current_piece,
        next_piece: t.next_piece,
        mode: t.mode,
        bag: t.bag,
        ..s
    })
}

/// `t` is `s` after `GameState::lock_piece(now_ms)`: the board is
/// `lock_rows`, the chains `lock_chains`, the chain bonus grows by the rises
/// (at most `CHAIN_BONUS_LIMIT`), the score by the points of the full lines;
/// then either the full lines blink from `now_ms` or, with none, the next
/// piece comes.
pub open spec fn locked(s: GameState, t: GameState, now_ms: u64) -> bool {
    &&& t.rows() == lock_rows(s)
    &&& t.custom_score_system.max_chains == lock_chains(s)
    &&& t.custom_score_system.chain_bonus == min_u32(
        (s.custom_score_system.chain_bonus + chain_increase(s.custom_score_system.max_chains, lock_chains(s))) as u32,
        CHAIN_BONUS_LIMIT,
    )
    &&& t.custom_score_system.score.value() == s.custom_score_system.score.value()
        + lines_points(lock_rows(s), lock_chains(s), lock_lines(s))
    &&& t.lines_cleared == s.lines_cleared
    &&& t.fall_speed_ms == s.fall_speed_ms
    &&& t.current_board_height == s.current_board_height
    &&& if lock_lines(s).len() > 0 {
        &&& t.animation@.len() == s.animation@.len() + 1
        &&& t.animation@.drop_last() == s.animation@
        &&& t.animation@.last() matches Animation::LineBlink { lines, count, start_time }
            && lines@ == lock_lines(s) && count == 0 && start_time == now_ms
        &&& t.current_piece is None
        &&& t.next_piece == s.next_piece
        &&& t.mode == s.mode
        &&& t.bag == s.bag
    } else {
        &&& t.animation == s.animation
        &&& t.current_piece == s.next_piece
        &&& t.next_piece matches Some(q) && fresh_piece(q)
            && t.bag.is_draw_from(q.piece_shape(), s.bag)
        &&& t.mode == if s.next_piece matches Some(p) && !position_allowed(
            lock_rows(s),
            s.current_board_height as int,
            piece_cells(p),
        ) {
            GameMode::GameOver
        } else {
            s.mode
        }
    }
}

/// `s` is a game as `GameState::new` makes it, whatever its mode: an empty
/// board of full height, no current piece, a fresh next piece, no
/// animation, nothing cleared, the starting fall speed and a fresh score
/// system.
pub open spec fn fresh_game(s: GameState) -> bool {
    &&& s.rows() == Seq::new(BOARD_HEIGHT as nat, |y: int| Seq::new(BOARD_WIDTH as nat, |x: int| Cell::Empty))
    &&& s.current_piece is None
    &&& s.next_piece matches Some(t) && fresh_piece(t)
    &&& s.animation@.len() == 0
    &&& s.lines_cleared == 0
    &&& s.fall_speed_ms == FALL_SPEED_START_MS
    &&& s.current_board_height == BOARD_HEIGHT
    &&& s.custom_score_system.score.value() == 0
    &&& s.custom_score_system.max_chains == (ColorMaxChains { cyan: 0, magenta: 0, yellow: 0 })
    &&& s.custom_score_system.chain_bonus == 0
}

/// `t` is `s` after `GameState::handle_input(input)`: only the current
/// piece changes; a move, turn or drop puts it where the command asks when
/// that is allowed and leaves it otherwise; other commands leave it.
pub open spec fn input_handled(s: GameState, t: GameState, input: GameInput) -> bool {
    &&& t == (GameState { current_piece: t.current_piece, ..s })
    &&& match s.current_piece {
        None => t.current_piece is None,
        Some(p) => if moves_piece(input) {
            ||| (t.current_piece matches Some(q)
                && input_candidate(s.rows(), s.current_board_height as int, p, input, q)
                && position_allowed(s.rows(), s.current_board_height as int, piece_cells(q)))
            ||| (t.current_piece == s.current_piece
                && forall|q: Tetromino| input_candidate(s.rows(), s.current_board_height as int, p, input, q)
                    ==> !position_allowed(s.rows(), s.current_board_height as int, #[trigger] piece_cells(q)))
        } else {
            t.current_piece == s.current_piece
        },
    }
}

/// What the play loop does after a command: go on, or leave the program.
#[derive(Clone, Copy, Debug, PartialEq, Eq, Structural)]
pub enum LoopAction {
    Continue,
    Exit,
}

/// `t` and `a` are what the play loop makes of the command `input` in the
/// state `s`.  At the title, Restart starts a game (a fresh game in play
/// with its first piece spawned) and Quit leaves.  In play, Quit ends the
/// game and every other command goes to `handle_input`.  After the game,
/// Quit leaves and Restart returns to the title with a fresh game.  Other
/// commands change nothing.
pub open spec fn command_result(s: GameState, t: GameState, input: GameInput, a: LoopAction) -> bool {
    match s.mode {
        GameMode::Title => if input is Restart {
            &&& a is Continue
            &&& exists|m: GameState| #[trigger] fresh_game(m) && m.mode == GameMode::Playing && spawned(m, t)
        } else if input is Quit {
            a is Exit && t == s
        } else {
            a is Continue && t == s
        },
        GameMode::Playing => if input is Quit {
            a is Continue && t == (GameState { mode: GameMode::GameOver, ..s })
        } else {
            a is Continue && input_handled(s, t, input)
        },
        GameMode::GameOver => if input is Quit {
            a is Exit && t == s
        } else if input is Restart {
            a is Continue && fresh_game(t) && t.mode == GameMode::Title
        } else {
            a is Continue && t == s
        },
    }
}

/// The keys a player plays with: the four arrows, Enter and Space.
pub open spec fn play_key(k: Key) -> bool {
    k is Left || k is Right || k is Up || k is Down || k is Enter || k == Key::Char(' ')
}

/// A press of an arrow key moves the piece in the arrow's direction, with
/// Shift or without: the command of Left puts the piece exactly one column
/// to the left, that of Right one column to the right.  Up turns it a
/// quarter counter-clockwise, Down a quarter clockwise (with Shift it drops
/// as far as it goes), Space moves it one row down, and Enter does not move
/// it.  The play keys each give a different command.
pub proof fn lemma_arrow_keys_move_their_way(rows: Seq<Seq<Cell>>, h: int, p: Tetromino, q: Tetromino, shift: bool)
    ensures
        input_candidate(rows, h, p, input_of_key(Key::Left, shift, true), q) <==> q.is_move_of(p, -1, 0),
        input_candidate(rows, h, p, input_of_key(Key::Right, shift, true), q) <==> q.is_move_of(p, 1, 0),
        input_candidate(rows, h, p, input_of_key(Key::Up, shift, true), q) <==> q.is_ccw_turn_of(p),
        input_candidate(rows, h, p, input_of_key(Key::Down, false, true), q) <==> q.is_cw_turn_of(p),
        input_candidate(rows, h, p, input_of_key(Key::Char(' '), shift, true), q) <==> q.is_move_of(p, 0, 1),
        input_candidate(rows, h, p, input_of_key(Key::Down, true, true), q)
            <==> exists|n: int| drop_stops(rows, h, p, n) && q.is_move_of(p, 0, n),
        !input_candidate(rows, h, p, input_of_key(Key::Enter, shift, true), q),
        forall|k1: Key, k2: Key| play_key(k1) && play_key(k2) && k1 != k2
            ==> #[trigger] input_of_key(k1, false, true) != #[trigger] input_of_key(k2, false, true),
{
}

/// Every one of the `BOARD_WIDTH` cells of `row` holds a block, plain or
/// joined.
pub open spec fn blocks_across(row: Seq<Cell>) -> bool {
    forall|x: int| 0 <= x < BOARD_WIDTH ==> (#[trigger] row[x] is Occupied || row[x] is Connected)
}

/// The found full lines are exactly the rows of the play area (`0..n`) with
/// a block, plain or joined, in every one of the `BOARD_WIDTH` cells: a
/// row with an empty or solid cell is never among them.
pub proof fn lemma_full_lines_are_full(rows: Seq<Seq<Cell>>, n: int)
    requires
        rows_wf(rows),
        0 <= n <= BOARD_HEIGHT,
    ensures
        forall|k: int| 0 <= k < full_lines_desc(rows, n).len() ==> 0 <= #[trigger] full_lines_desc(rows, n)[k] < n
            && blocks_across(rows[full_lines_desc(rows, n)[k] as int]),
        forall|y: int| 0 <= y < n && #[trigger] blocks_across(rows[y]) ==> full_lines_desc(rows, n).contains(y as usize),
    decreases n,
{
    if n > 0 {
        lemma_full_lines_are_full(rows, n - 1);
        let prev = full_lines_desc(rows, n - 1);
        let cur = full_lines_desc(rows, n);
        assert(full_row(rows[n - 1]) <==> blocks_across(rows[n - 1])) by {
            assert(rows[n - 1].len() == BOARD_WIDTH);
        }
        if full_row(rows[n - 1]) {
            assert(cur == seq![(n - 1) as usize] + prev);
            assert forall|k: int| 0 <= k < cur.len() implies 0 <= #[trigger] cur[k] < n
                && blocks_across(rows[cur[k] as int]) by {
                if k > 0 {
                    assert(cur[k] == prev[k - 1]);
                } else {
                    assert(cur[0] == (n - 1) as usize);
                }
            }
            assert forall|y: int| 0 <= y < n && #[trigger] blocks_across(rows[y]) implies cur.contains(y as usize) by {
                if y == n - 1 {
                    assert(cur[0] == y as usize);
                } else {
                    assert(prev.contains(y as usize));
                    let m = choose|m: int| 0 <= m < prev.len() && prev[m] == y as usize;
                    assert(cur[m + 1] == prev[m]);
                }
            }
        } else {
            assert(cur == prev);
        }
    }
}

/// An allowed position puts every block of the piece inside the columns
/// and above the bottom of the play area, and every block that lies on the
/// board on an empty cell: a piece never overlaps a block, plain or
/// joined, or a solid line.
pub proof fn lemma_allowed_position_is_free(rows: Seq<Seq<Cell>>, h: int, cells: Seq<((i8, i8), GameColor)>)
    requires
        position_allowed(rows, h, cells),
    ensures
        forall|k: int| 0 <= k < cells.len() ==> {
            let (x, y) = #[trigger] cells[k].0;
            &&& 0 <= x < BOARD_WIDTH
            &&& y < h
            &&& y >= 0 ==> rows[y as int][x as int] == Cell::Empty
        },
{
    assert forall|k: int| 0 <= k < cells.len() implies {
        let (x, y) = #[trigger] cells[k].0;
        &&& 0 <= x < BOARD_WIDTH
        &&& y < h
        &&& y >= 0 ==> rows[y as int][x as int] == Cell::Empty
    } by {
        assert(block_allowed(rows, h, cells[k].0));
    }
}

/// The terminal game's state.  `fall_speed_ms` is the time between two
/// automatic steps down; the bag hands out the pieces.
#[derive(Debug)]
pub struct GameState {
    pub mode: GameMode,
    pub board: Board,
    pub current_piece: Option<Tetromino>,
    pub next_piece: Option<Tetromino>,
    pub animation: Vec<Animation>,
    pub lines_cleared: u32,
    pub fall_speed_ms: u64,
    pub current_board_height: usize,
    pub custom_score_system: CustomScoreSystem,
    pub bag: TetrominoBag,
}

impl GameState {
    /// The board has its full size, the play area is at most the board, and
    /// the bag can draw.
    pub open spec fn wf(&self) -> bool {
        &&& rows_wf(board_rows(self.board@))
        &&& self.current_board_height <= BOARD_HEIGHT
        &&& self.bag.can_draw()
        &&& (self.current_piece matches Some(p) ==> piece_ok(p))
        &&& (self.next_piece matches Some(p) ==> piece_ok(p))
        &&& self.custom_score_system.max_chains.cyan <= 255
        &&& self.custom_score_system.max_chains.magenta <= 255
        &&& self.custom_score_system.max_chains.yellow <= 255
        &&& self.custom_score_system.chain_bonus <= CHAIN_BONUS_LIMIT
    }

    /// The board as rows of cells.
    pub open spec fn rows(&self) -> Seq<Seq<Cell>> {
        board_rows(self.board@)
    }

    /// A new game: title mode, empty board of full height, no current piece,
    /// a next piece from the bag, no animation, nothing cleared, the
    /// starting fall speed and a fresh score system.
    pub fn new() -> (s: Self)
        ensures
            s.wf(),
            s.mode == GameMode::Title,
            fresh_game(s),
    {
        let mut bag = TetrominoBag::new();
        let next = Tetromino::new_random(&mut bag);
        let board = empty_board();
        Self {
            mode: GameMode::Title,
            board,
            current_piece: None,
            next_piece: Some(next),
            animation: Vec::new(),
            lines_cleared: 0,
            fall_speed_ms: FALL_SPEED_START_MS,
            current_board_height: BOARD_HEIGHT,
            custom_score_system: CustomScoreSystem::new(),
            bag,
        }
    }

    /// Whether every block of `piece` is allowed (see `block_allowed`).
    pub fn is_valid_position(&self, piece: &Tetromino) -> (r: bool)
        requires
            self.wf(),
            piece.fits(),
        ensures
            r == position_allowed(self.rows(), self.current_board_height as int, piece_cells(*piece)),
    {
        let blocks = piece.iter_blocks();
        let ghost cells = piece_cells(*piece);
        assert(blocks@ =~= cells);
        let h = self.current_board_height;
        let mut k: usize = 0;
        while k < blocks.len()
            invariant
                k <= blocks@.len(),
                blocks@ == cells,
                cells == piece_cells(*piece),
                h == self.current_board_height,
                self.wf(),
                forall|j: int| 0 <= j < k ==> block_allowed(self.rows(), h as int, #[trigger] cells[j].0),
            decreases blocks@.len() - k,
        {
            let ((x, y), _) = blocks[k];
            assert(cells[k as int].0 == (x, y));
            if x < 0 || x >= BOARD_WIDTH as i8 {
                assert(!block_allowed(self.rows(), h as int, cells[k as int].0));
                return false;
            }
            if y >= h as i8 {
                assert(!block_allowed(self.rows(), h as int, cells[k as int].0));
                return false;
            }
            if y >= 0 {
                assert(self.rows()[y as int] == self.board@[y as int]@);
                if self.board[y as usize][x as usize] != Cell::Empty {
                    return false;
                }
            }
            k = k + 1;
        }
        true
    }

    /// Gives every `Connected` block of a group that reaches below row 0
    /// (any group with a block outside the top row) the size of its group.
    pub fn update_connected_block_counts(&mut self)
        requires
            old(self).wf(),
        ensures
            final(self).wf(),
            final(self).rows() == recounted_rows(old(self).rows(), all_rows(), 1),
            *final(self) == (GameState { board: final(self).board, ..*old(self) }),
    {
        let ghost rows0 = self.rows();
        let counts = count_connected_blocks(&self.board, 0);
        apply_counts(&mut self.board, &counts, Ghost(all_rows()), Ghost(1int));
        proof {
            lemma_rows_from_cells(self.rows(), |i: int| recount_target(rows0, all_rows(), 1, i));
        }
    }

    /// Gives every `Connected` block in the play area the size of its group
    /// of same-coloured blocks, counted inside the play area.
    pub fn update_all_connected_block_counts(&mut self)
        requires
            old(self).wf(),
        ensures
            final(self).wf(),
            final(self).rows() == recounted_rows(old(self).rows(), rows_below(old(self).current_board_height as int), 0),
            *final(self) == (GameState { board: final(self).board, ..*old(self) }),
    {
        let ghost rows0 = self.rows();
        let colors = colors_from_rows(&self.board);
        let allowed = rows_below_flags(self.current_board_height);
        let counts = count_blocks_from_row(&colors, &allowed, 0);
        apply_counts(&mut self.board, &counts, Ghost(allowed@), Ghost(0int));
        proof {
            lemma_rows_from_cells(self.rows(), |i: int| recount_target(rows0, allowed@, 0, i));
        }
    }

    /// The next piece becomes the current piece and a new next piece is
    /// drawn from the bag; the game is over when the new current piece is
    /// not at an allowed position.
    pub fn spawn_piece(&mut self)
        requires
            old(self).wf(),
        ensures
            final(self).wf(),
            spawned(*old(self), *final(self)),
    {
        let next = Tetromino::new_random(&mut self.bag);
        let mut upcoming = Some(next);
        std::mem::swap(&mut upcoming, &mut self.next_piece);
        self.current_piece = upcoming;
        let mut invalid = false;
        if let Some(piece) = &self.current_piece {
            proof {
                crate::core_logic::input_handler::lemma_piece_ok_fits(*piece);
            }
            invalid = !self.is_valid_position(piece);
        }
        if invalid {
            self.mode = GameMode::GameOver;
        }
    }

    /// Locks the current piece: its blocks are written on the board, the
    /// groups of two or more same-coloured blocks outside the full lines
    /// are joined and counted, the recorded chains rise to the new counts,
    /// the chain bonus grows by the rises (at most `CHAIN_BONUS_LIMIT`),
    /// every full line scores its points, and then either the full lines
    /// start to blink at `now_ms` or, with none, the next piece comes.
    pub fn lock_piece(&mut self, now_ms: u64)
        requires
            old(self).wf(),
            old(self).custom_score_system.score.value()
                + lines_points(lock_rows(*old(self)), lock_chains(*old(self)), lock_lines(*old(self))) <= u32::MAX,
            forall|k: int| 0 <= k < current_cells(*old(self)).len()
                && 0 <= (#[trigger] current_cells(*old(self))[k]).0.1 < BOARD_HEIGHT
                ==> 0 <= current_cells(*old(self))[k].0.0 < BOARD_WIDTH,
        ensures
            final(self).wf(),
            locked(*old(self), *final(self), now_ms),
    {
        let ghost s0 = *old(self);
        let mut taken: Option<Tetromino> = None;
        std::mem::swap(&mut taken, &mut self.current_piece);
        if let Some(piece) = &taken {
            proof {
                crate::core_logic::input_handler::lemma_piece_ok_fits(*piece);
            }
            place_blocks(&mut self.board, piece);
        }
        assert(self.rows() == lock_placed(s0));
        let ghost rows1 = self.rows();
        let lines = find_full_lines(&self.board, self.current_board_height);
        proof {
            lemma_full_lines_bounds(rows1, s0.current_board_height as int);
        }
        find_and_connect_adjacent_blocks(&mut self.board, lines.as_slice());
        proof {
            lemma_rows_from_cells(self.rows(), |i: int| crate::board_logic::connect_target(rows1, rows_except(lines@), i));
        }
        self.update_connected_block_counts();
        assert(self.rows() == lock_rows(s0));
        let old_max = ColorMaxChains {
            cyan: self.custom_score_system.max_chains.cyan,
            magenta: self.custom_score_system.max_chains.magenta,
            yellow: self.custom_score_system.max_chains.yellow,
        };
        self.update_max_chains();
        proof {
            lemma_chains_after_bounds(old_max, lock_rows(s0), s0.current_board_height * 10);
        }
        let increase = (self.custom_score_system.max_chains.cyan - old_max.cyan)
            + (self.custom_score_system.max_chains.magenta - old_max.magenta)
            + (self.custom_score_system.max_chains.yellow - old_max.yellow);
        self.custom_score_system.add_chain_bonus(increase);
        let ghost rows3 = self.rows();
        let ghost m1 = self.custom_score_system.max_chains;
        let ghost before_loop = *self;
        assert(before_loop.wf());
        let mut k: usize = 0;
        while k < lines.len()
            invariant
                k <= lines@.len(),
                lines@ == lock_lines(s0),
                lines@.len() <= 20,
                forall|j: int| 0 <= j < lines@.len() ==> #[trigger] lines@[j] < s0.current_board_height,
                s0.current_board_height <= 20,
                rows3 == self.rows(),
                rows_wf(rows3),
                m1 == self.custom_score_system.max_chains,
                m1.cyan <= 255 && m1.magenta <= 255 && m1.yellow <= 255,
                s0.custom_score_system.score.value() + lines_points(rows3, m1, lines@) <= u32::MAX,
                self.custom_score_system.score.value() == s0.custom_score_system.score.value()
                    + lines_points(rows3, m1, lines@.take(k as int)),
                self.custom_score_system.chain_bonus <= CHAIN_BONUS_LIMIT,
                before_loop.wf(),
                *self == (GameState {
                    custom_score_system: CustomScoreSystem { score: self.custom_score_system.score, ..before_loop.custom_score_system },
                    ..before_loop
                }),
            decreases lines@.len() - k,
        {
            let y = lines[k];
            proof {
                assert(lines@.take(k + 1).drop_last() =~= lines@.take(k as int));
                lemma_lines_points_prefix(rows3, m1, lines@, k + 1);
                lemma_lines_points_bound(rows3, m1, lines@.take(k as int));
                lemma_row_points_bound(rows3[y as int], m1, 10);
            }
            let points = calculate_line_clear_total_score(&self.board, y, &self.custom_score_system.max_chains);
            self.custom_score_system.add_score(points);
            k = k + 1;
        }
        assert(lines@.take(lines@.len() as int) =~= lines@);
        let ghost before_end = *self;
        if lines.len() > 0 {
            let ghost lv = lines@;
            self.animation.push(Animation::LineBlink { lines, count: 0, start_time: now_ms });
            assert(self.animation@.drop_last() =~= before_end.animation@);
            assert(lv == lock_lines(s0));
        } else {
            self.spawn_piece();
        }
    }

    /// One automatic fall step of the play loop: the current piece moves one
    /// row down where that is allowed and is locked where it stands
    /// otherwise (see `locked`); without a current piece the next one comes
    /// (see `spawned`).
    pub fn fall_step(&mut self, now_ms: u64)
        requires
            old(self).wf(),
            (old(self).current_piece matches Some(p) && !position_allowed(
                old(self).rows(),
                old(self).current_board_height as int,
                cells_below(p, 1),
            )) ==> {
                &&& old(self).custom_score_system.score.value()
                    + lines_points(lock_rows(*old(self)), lock_chains(*old(self)), lock_lines(*old(self))) <= u32::MAX
                &&& forall|k: int| 0 <= k < current_cells(*old(self)).len()
                    && 0 <= (#[trigger] current_cells(*old(self))[k]).0.1 < BOARD_HEIGHT
                    ==> 0 <= current_cells(*old(self))[k].0.0 < BOARD_WIDTH
            },
        ensures
            final(self).wf(),
            match old(self).current_piece {
                None => spawned(*old(self), *final(self)),
                Some(p) => if position_allowed(old(self).rows(), old(self).current_board_height as int, cells_below(p, 1)) {
                    &&& final(self).current_piece matches Some(q) && q.is_move_of(p, 0, 1)
                    &&& *final(self) == (GameState { current_piece: final(self).current_piece, ..*old(self) })
                } else {
                    locked(*old(self), *final(self), now_ms)
                },
            },
    {
        let lowered = match &self.current_piece {
            Some(piece) => {
                proof {
                    crate::core_logic::input_handler::lemma_piece_ok_fits(*piece);
                }
                Some(piece.moved(0, 1))
            },
            None => None,
        };
        match lowered {
            Some(moved_down) => {
                let ghost p0 = old(self).current_piece->0;
                proof {
                    crate::core_logic::input_handler::lemma_near_piece_fits(moved_down);
                    assert(piece_cells(moved_down) =~= cells_below(p0, 1));
                }
                if self.is_valid_position(&moved_down) {
                    proof {
                        lemma_allowed_bounds(self.rows(), self.current_board_height as int, moved_down);
                    }
                    self.current_piece = Some(moved_down);
                } else {
                    self.lock_piece(now_ms);
                }
            },
            None => self.spawn_piece(),
        }
    }

    /// Applies a command read by the play loop (see `command_result`).
    pub fn handle_command(&mut self, input: GameInput) -> (a: LoopAction)
        requires
            old(self).wf(),
        ensures
            final(self).wf(),
            command_result(*old(self), *final(self), input, a),
    {
        match self.mode {
            GameMode::Title => match input {
                GameInput::Restart => {
                    let mut fresh = GameState::new();
                    fresh.mode = GameMode::Playing;
                    let ghost m = fresh;
                    fresh.spawn_piece();
                    *self = fresh;
                    assert(fresh_game(m));
                    LoopAction::Continue
                },
                GameInput::Quit => LoopAction::Exit,
                _ => LoopAction::Continue,
            },
            GameMode::Playing => match input {
                GameInput::Quit => {
                    self.mode = GameMode::GameOver;
                    LoopAction::Continue
                },
                _ => {
                    self.handle_input(input);
                    LoopAction::Continue
                },
            },
            GameMode::GameOver => match input {
                GameInput::Quit => LoopAction::Exit,
                GameInput::Restart => {
                    *self = GameState::new();
                    LoopAction::Continue
                },
                _ => LoopAction::Continue,
            },
        }
    }

    /// Turns row `y` grey.
    fn grey_row(&mut self, y: usize)
        requires
            old(self).wf(),
            y < BOARD_HEIGHT,
        ensures
            final(self).wf(),
            final(self).rows() == old(self).rows().update(y as int, filled_row(Cell::Occupied(GameColor::Grey))),
            *final(self) == (GameState { board: final(self).board, ..*old(self) }),
    {
        let ghost row0 = old(self).rows()[y as int];
        assert(Seq::new(BOARD_WIDTH as nat, |c: int| if c < 0 { Cell::Occupied(GameColor::Grey) } else { row0[c] }) =~= row0);
        assert(old(self).rows().update(y as int, row0) =~= old(self).rows());
        let mut x: usize = 0;
        while x < BOARD_WIDTH
            invariant
                x <= BOARD_WIDTH,
                y < BOARD_HEIGHT,
                row0 == old(self).rows()[y as int],
                old(self).wf(),
                self.wf(),
                *self == (GameState { board: self.board, ..*old(self) }),
                self.rows() == old(self).rows().update(y as int,
                    Seq::new(BOARD_WIDTH as nat, |c: int| if c < x { Cell::Occupied(GameColor::Grey) } else { old(self).rows()[y as int][c] })),
            decreases BOARD_WIDTH - x,
        {
            assert(self.rows()[y as int] == self.board@[y as int]@);
            let ghost before = self.rows();
            set_cell(&mut self.board, y, x, Cell::Occupied(GameColor::Grey));
            let ghost nx = x + 1;
            assert(before[y as int].update(x as int, Cell::Occupied(GameColor::Grey))
                =~= Seq::new(BOARD_WIDTH as nat, |c: int| if c < nx { Cell::Occupied(GameColor::Grey) } else { row0[c] }));
            x = x + 1;
            assert(self.rows() =~= old(self).rows().update(y as int,
                Seq::new(BOARD_WIDTH as nat, |c: int| if c < x { Cell::Occupied(GameColor::Grey) } else { old(self).rows()[y as int][c] })));
        }
        assert(Seq::new(BOARD_WIDTH as nat, |c: int| if c < BOARD_WIDTH { Cell::Occupied(GameColor::Grey) } else { old(self).rows()[y as int][c] })
            =~= filled_row(Cell::Occupied(GameColor::Grey)));
    }

    /// Finishes the blink of `lines` (see `blink_rows`); removing bottom
    /// lines brings the next piece.
    fn finish_blink(&mut self, lines: &Vec<usize>)
        requires
            old(self).wf(),
            blink_lines_ok(lines@, old(self).current_board_height as int),
        ensures
            final(self).wf(),
            final(self).rows() == blink_rows(old(self).rows(), old(self).current_board_height as int, lines@),
            final(self).current_board_height == old(self).current_board_height,
            final(self).animation == old(self).animation,
            final(self).custom_score_system == old(self).custom_score_system,
            final(self).lines_cleared == old(self).lines_cleared,
            final(self).fall_speed_ms == old(self).fall_speed_ms,
            final(self).mode == old(self).mode || final(self).mode == GameMode::GameOver,
            handed_over(*old(self), *final(self), if lines_equal(lines@, old(self).current_board_height - 1).len() > 0 { 1nat } else { 0nat }),
            lines_equal(lines@, old(self).current_board_height - 1).len() == 0 ==> final(self).mode == old(self).mode,
    {
        let h = self.current_board_height;
        let ghost v = h - 1;
        let mut bottom: Vec<usize> = Vec::new();
        let mut others: Vec<usize> = Vec::new();
        let mut k: usize = 0;
        while k < lines.len()
            invariant
                k <= lines@.len(),
                h >= 1,
                v == h - 1,
                bottom@ == lines_equal(lines@.take(k as int), v),
                others@ == lines_other(lines@.take(k as int), v),
            decreases lines@.len() - k,
        {
            proof {
                crate::animation::lemma_split_take(lines@, v, k as int);
            }
            if lines[k] == h - 1 {
                bottom.push(lines[k]);
            } else {
                others.push(lines[k]);
            }
            k = k + 1;
        }
        assert(lines@.take(lines@.len() as int) =~= lines@);
        let ghost rows0 = self.rows();
        proof {
            lemma_lines_equal_idempotent(lines@, v);
            crate::animation::lemma_lines_split_bounds(lines@, v);
            crate::animation::lemma_lines_split_bounds(bottom@, v);
        }
        if bottom.len() > 0 {
            let _ = process_line_clear(&mut self.board, h, bottom.as_slice());
            self.update_all_connected_block_counts();
            self.spawn_piece();
        }
        let ghost r1 = self.rows();
        assert(r1 == if bottom@.len() > 0 {
            recounted_rows(rows_after_line_clear(rows0, h as int, bottom@), rows_below(h as int), 0)
        } else {
            rows0
        });
        let mut j: usize = 0;
        while j < others.len()
            invariant
                j <= others@.len(),
                others@ == lines_other(lines@, v),
                forall|m: int| 0 <= m < others@.len() ==> lines@.contains(#[trigger] others@[m]),
                forall|m: int| 0 <= m < lines@.len() ==> #[trigger] lines@[m] < BOARD_HEIGHT,
                self.wf(),
                self.current_board_height == h,
                self.rows() == isolate_and_grey(r1, others@.take(j as int)),
                self.animation == old(self).animation,
                self.custom_score_system == old(self).custom_score_system,
                self.lines_cleared == old(self).lines_cleared,
                self.fall_speed_ms == old(self).fall_speed_ms,
                self.mode == old(self).mode || self.mode == GameMode::GameOver,
                handed_over(*old(self), *self, if bottom@.len() > 0 { 1nat } else { 0nat }),
                bottom@.len() == 0 ==> self.mode == old(self).mode,
            decreases others@.len() - j,
        {
            let y = others[j];
            assert(lines@.contains(others@[j as int]));
            let ghost prev = self.rows();
            remove_isolated_blocks(&mut self.board, y);
            proof {
                lemma_rows_from_cells(self.rows(), |i: int| isolation_target(prev, y as int, i));
            }
            self.grey_row(y);
            proof {
                assert(others@.take(j + 1).drop_last() =~= others@.take(j as int));
            }
            j = j + 1;
        }
        assert(others@.take(others@.len() as int) =~= others@);
        if bottom.len() > 0 || others.len() > 0 {
            self.update_all_connected_block_counts();
        }
    }

    /// Advances the animations to `now_ms` (see `update_animations`), then:
    /// every blink that ended is finished (see `blink_rows`); the animations
    /// that go on are kept, followed by a push-down for every finished line
    /// that is not the bottom line; every grey line due to move takes its
    /// step (see `push_down_fold`); the next piece comes after a push-down
    /// that arrived with no animation left, and whenever no animation is
    /// left at the end.  Without animations nothing happens.
    pub fn handle_animation(&mut self, now_ms: u64)
        requires
            old(self).wf(),
            started_by(old(self).animation@, now_ms),
            animations_ok(old(self).animation@, old(self).current_board_height as int),
        ensures
            final(self).wf(),
            old(self).animation@.len() == 0 ==> *final(self) == *old(self),
            old(self).animation@.len() > 0 ==> ({
                let h0 = old(self).current_board_height as int;
                let u = update_spec(old(self).animation@, now_ms);
                let r1 = blinks_rows(old(self).rows(), h0, u.1);
                let a1 = u.0 + blink_push_downs(u.1, h0, now_ms);
                let f = push_down_fold(r1, h0, a1, old(self).custom_score_system.chain_bonus, u.2, now_ms);
                &&& final(self).rows() == f.0
                &&& final(self).current_board_height == f.1
                &&& final(self).animation@ == f.2
                &&& handed_over(*old(self), *final(self),
                    blink_spawns(u.1, h0)
                        + push_down_spawns(r1, h0, a1, old(self).custom_score_system.chain_bonus, u.2, now_ms)
                        + if f.2.len() == 0 { 1nat } else { 0nat })
            }),
            final(self).custom_score_system == old(self).custom_score_system,
            final(self).lines_cleared == old(self).lines_cleared,
            final(self).fall_speed_ms == old(self).fall_speed_ms,
            final(self).mode == old(self).mode || final(self).mode == GameMode::GameOver,
    {
        if self.animation.len() == 0 {
            return;
        }
        let ghost s0 = *old(self);
        let h0 = self.current_board_height;
        let result = update_animations(&mut self.animation, now_ms);
        let AnimationResult { continuing_animations, completed_line_blinks, completed_push_downs } = result;
        let ghost u = update_spec(s0.animation@, now_ms);
        proof {
            lemma_update_spec_ok(s0.animation@, now_ms, h0 as int);
        }
        let mut k: usize = 0;
        while k < completed_line_blinks.len()
            invariant
                k <= completed_line_blinks@.len(),
                completed_line_blinks@ == u.1,
                forall|j: int| 0 <= j < u.1.len() ==> blink_lines_ok(#[trigger] u.1[j]@, h0 as int),
                self.wf(),
                self.current_board_height == h0,
                handed_over(s0, *self, blink_spawns(u.1.take(k as int), h0 as int)),
                self.rows() == blinks_rows(s0.rows(), h0 as int, u.1.take(k as int)),
                self.custom_score_system == s0.custom_score_system,
                self.lines_cleared == s0.lines_cleared,
                self.fall_speed_ms == s0.fall_speed_ms,
                self.mode == s0.mode || self.mode == GameMode::GameOver,
            decreases u.1.len() - k,
        {
            let ghost before = *self;
            self.finish_blink(&completed_line_blinks[k]);
            proof {
                assert(u.1.take(k + 1).drop_last() =~= u.1.take(k as int));
                lemma_hand_over_then(s0, before, *self, blink_spawns(u.1.take(k as int), h0 as int),
                    if lines_equal(u.1[k as int]@, h0 - 1).len() > 0 { 1nat } else { 0nat });
            }
            k = k + 1;
        }
        assert(u.1.take(u.1.len() as int) =~= u.1);
        let ghost r1 = self.rows();
        assert(u.1.take(u.1.len() as int) =~= u.1);
        let ghost before_keep = *self;
        self.animation = continuing_animations;
        proof {
            lemma_hand_over_same(s0, before_keep, *self, blink_spawns(u.1, h0 as int));
        }
        let mut k: usize = 0;
        while k < completed_line_blinks.len()
            invariant
                k <= completed_line_blinks@.len(),
                completed_line_blinks@ == u.1,
                forall|j: int| 0 <= j < u.1.len() ==> blink_lines_ok(#[trigger] u.1[j]@, h0 as int),
                self.wf(),
                self.current_board_height == h0,
                self.rows() == r1,
                handed_over(s0, *self, blink_spawns(u.1, h0 as int)),
                self.animation@ == u.0 + blink_push_downs(u.1.take(k as int), h0 as int, now_ms),
                self.custom_score_system == s0.custom_score_system,
                self.lines_cleared == s0.lines_cleared,
                self.fall_speed_ms == s0.fall_speed_ms,
                self.mode == s0.mode || self.mode == GameMode::GameOver,
            decreases u.1.len() - k,
        {
            let lines = &completed_line_blinks[k];
            assert(blink_lines_ok(u.1[k as int]@, h0 as int));
            let ghost base = self.animation@;
            let mut j: usize = 0;
            while j < lines.len()
                invariant
                    j <= lines@.len(),
                    h0 >= 1,
                    self.wf(),
                    self.current_board_height == h0,
                    self.rows() == r1,
                    handed_over(s0, *self, blink_spawns(u.1, h0 as int)),
                    self.animation@ == base + push_downs_of(lines_other(lines@.take(j as int), h0 - 1), now_ms),
                    self.custom_score_system == s0.custom_score_system,
                    self.lines_cleared == s0.lines_cleared,
                    self.fall_speed_ms == s0.fall_speed_ms,
                    self.mode == s0.mode || self.mode == GameMode::GameOver,
                decreases lines@.len() - j,
            {
                proof {
                    crate::animation::lemma_split_take(lines@, h0 - 1, j as int);
                }
                let y = lines[j];
                if y != h0 - 1 {
                    let ghost before = lines_other(lines@.take(j as int), h0 - 1);
                    self.animation.push(Animation::PushDown { gray_line_y: y, start_time: now_ms });
                    assert(push_downs_of(before.push(y), now_ms) =~= push_downs_of(before, now_ms).push(
                        Animation::PushDown { gray_line_y: y, start_time: now_ms },
                    ));
                    assert(self.animation@ =~= base + push_downs_of(lines_other(lines@.take(j + 1), h0 - 1), now_ms));
                }
                j = j + 1;
            }
            assert(lines@.take(lines@.len() as int) =~= lines@);
            proof {
                assert(u.1.take(k + 1).drop_last() =~= u.1.take(k as int));
                assert(u.1.take(k + 1).last() == u.1[k as int]);
            }
            assert(self.animation@ =~= u.0 + blink_push_downs(u.1.take(k + 1), h0 as int, now_ms));
            k = k + 1;
        }
        assert(u.1.take(u.1.len() as int) =~= u.1);
        let ghost a1 = self.animation@;
        let ghost bonus = s0.custom_score_system.chain_bonus;
        let mut q: usize = 0;
        while q < completed_push_downs.len()
            invariant
                q <= completed_push_downs@.len(),
                completed_push_downs@ == u.2,
                forall|j: int| 0 <= j < u.2.len() ==> #[trigger] u.2[j] < BOARD_HEIGHT,
                self.wf(),
                bonus == self.custom_score_system.chain_bonus,
                (self.rows(), self.current_board_height as int, self.animation@)
                    == push_down_fold(r1, h0 as int, a1, bonus, u.2.take(q as int), now_ms),
                handed_over(s0, *self, blink_spawns(u.1, h0 as int) + push_down_spawns(r1, h0 as int, a1, bonus, u.2.take(q as int), now_ms)),
                self.custom_score_system == s0.custom_score_system,
                self.lines_cleared == s0.lines_cleared,
                self.fall_speed_ms == s0.fall_speed_ms,
                self.mode == s0.mode || self.mode == GameMode::GameOver,
            decreases u.2.len() - q,
        {
            let g = completed_push_downs[q];
            proof {
                assert(u.2.take(q + 1).drop_last() =~= u.2.take(q as int));
                assert(u.2.take(q + 1).last() == g);
            }
            let ghost r = self.rows();
            let ghost hh = self.current_board_height as int;
            let ghost before_step = *self;
            let ghost c = blink_spawns(u.1, h0 as int) + push_down_spawns(r1, h0 as int, a1, bonus, u.2.take(q as int), now_ms);
            let step = process_push_down_step(&mut self.board, &mut self.current_board_height, g);
            match step {
                PushDownStepResult::Completed => {
                    self.update_all_connected_block_counts();
                    let fixed = CLIBridge::convert_board_to_fixed(&self.board);
                    proof {
                        crate::cli_bridge::lemma_board_round_trip(self.rows(), fixed);
                    }
                    let solid = count_solid_lines_from_bottom(fixed);
                    let n = determine_erase_line_count(self.custom_score_system.chain_bonus, solid);
                    if n > 0 {
                        self.animation.push(Animation::EraseLine { lines_remaining: n as u32, last_update: now_ms });
                    }
                    if self.animation.len() == 0 {
                        let ghost mid = *self;
                        proof {
                            lemma_hand_over_same(s0, before_step, mid, c);
                        }
                        self.spawn_piece();
                        proof {
                            lemma_hand_over_step(s0, mid, *self, c);
                        }
                    } else {
                        proof {
                            lemma_hand_over_same(s0, before_step, *self, c);
                        }
                    }
                },
                PushDownStepResult::Moved { new_gray_line_y } => {
                    self.update_all_connected_block_counts();
                    self.animation.push(Animation::PushDown { gray_line_y: new_gray_line_y, start_time: now_ms });
                    proof {
                        lemma_hand_over_same(s0, before_step, *self, c);
                    }
                },
            }
            q = q + 1;
        }
        assert(u.2.take(u.2.len() as int) =~= u.2);
        let ghost c = blink_spawns(u.1, h0 as int) + push_down_spawns(r1, h0 as int, a1, bonus, u.2, now_ms);
        if self.animation.len() == 0 {
            let ghost mid = *self;
            self.spawn_piece();
            proof {
                lemma_hand_over_step(s0, mid, *self, c);
            }
        }
    }

    /// Clears `lines` at once: every line scores its points with the
    /// recorded chains, then the lines are finished as after a blink (see
    /// `blink_rows`), and push-downs starting at `now_ms` for the lines
    /// other than the bottom line are handed back; the next piece comes when
    /// a bottom line was removed, and when no line was given.
    pub fn clear_lines(&mut self, lines: &Vec<usize>, now_ms: u64) -> (anims: Vec<Animation>)
        requires
            old(self).wf(),
            lines@.len() > 0 ==> blink_lines_ok(lines@, old(self).current_board_height as int),
            old(self).custom_score_system.score.value()
                + lines_points(old(self).rows(), old(self).custom_score_system.max_chains, lines@) <= u32::MAX,
        ensures
            final(self).wf(),
            final(self).custom_score_system.score.value() == old(self).custom_score_system.score.value()
                + lines_points(old(self).rows(), old(self).custom_score_system.max_chains, lines@),
            final(self).custom_score_system.max_chains == old(self).custom_score_system.max_chains,
            final(self).custom_score_system.chain_bonus == old(self).custom_score_system.chain_bonus,
            final(self).rows() == if lines@.len() > 0 {
                blink_rows(old(self).rows(), old(self).current_board_height as int, lines@)
            } else {
                old(self).rows()
            },
            anims@ == if lines@.len() > 0 {
                push_downs_of(lines_other(lines@, old(self).current_board_height - 1), now_ms)
            } else {
                Seq::empty()
            },
            final(self).current_board_height == old(self).current_board_height,
            final(self).animation == old(self).animation,
            final(self).lines_cleared == old(self).lines_cleared,
            final(self).fall_speed_ms == old(self).fall_speed_ms,
            final(self).mode == old(self).mode || final(self).mode == GameMode::GameOver,
            handed_over(*old(self), *final(self),
                if lines@.len() == 0 || lines_equal(lines@, old(self).current_board_height - 1).len() > 0 { 1nat } else { 0nat }),
    {
        let ghost s0 = *old(self);
        let mut k: usize = 0;
        while k < lines.len()
            invariant
                k <= lines@.len(),
                lines@.len() > 0 ==> blink_lines_ok(lines@, s0.current_board_height as int),
                s0.custom_score_system.score.value()
                    + lines_points(s0.rows(), s0.custom_score_system.max_chains, lines@) <= u32::MAX,
                self.wf(),
                *self == (GameState {
                    custom_score_system: CustomScoreSystem { score: self.custom_score_system.score, ..s0.custom_score_system },
                    ..s0
                }),
                self.custom_score_system.score.value() == s0.custom_score_system.score.value()
                    + lines_points(s0.rows(), s0.custom_score_system.max_chains, lines@.take(k as int)),
            decreases lines@.len() - k,
        {
            let y = lines[k];
            proof {
                assert(lines@.take(k + 1).drop_last() =~= lines@.take(k as int));
                lemma_lines_points_prefix(s0.rows(), s0.custom_score_system.max_chains, lines@, k + 1);
                lemma_lines_points_bound(s0.rows(), s0.custom_score_system.max_chains, lines@.take(k as int));
                lemma_row_points_bound(s0.rows()[y as int], s0.custom_score_system.max_chains, 10);
            }
            let points = calculate_line_clear_total_score(&self.board, y, &self.custom_score_system.max_chains);
            self.custom_score_system.add_score(points);
            k = k + 1;
        }
        assert(lines@.take(lines@.len() as int) =~= lines@);
        let mut new_animations: Vec<Animation> = Vec::new();
        if lines.len() == 0 {
            self.spawn_piece();
            return new_animations;
        }
        self.finish_blink(lines);
        let h = self.current_board_height;
        let mut j: usize = 0;
        while j < lines.len()
            invariant
                j <= lines@.len(),
                h >= 1,
                new_animations@ == push_downs_of(lines_other(lines@.take(j as int), h - 1), now_ms),
            decreases lines@.len() - j,
        {
            proof {
                crate::animation::lemma_split_take(lines@, h - 1, j as int);
            }
            let y = lines[j];
            if y != h - 1 {
                let ghost before = lines_other(lines@.take(j as int), h - 1);
                new_animations.push(Animation::PushDown { gray_line_y: y, start_time: now_ms });
                assert(push_downs_of(before.push(y), now_ms) =~= push_downs_of(before, now_ms).push(
                    Animation::PushDown { gray_line_y: y, start_time: now_ms },
                ));
            }
            j = j + 1;
        }
        assert(lines@.take(lines@.len() as int) =~= lines@);
        new_animations
    }

    /// The piece `p` dropped straight down as far as every block stays
    /// allowed (see `drop_stops`).
    fn drop_piece(&self, p: &Tetromino) -> (q: Tetromino)
        requires
            self.wf(),
            piece_ok(*p),
        ensures
            exists|n: int| drop_stops(self.rows(), self.current_board_height as int, *p, n) && q.is_move_of(*p, 0, n),
            q.in_shape(),
            q.position().0 == p.position().0,
            p.position().1 <= q.position().1 <= 100,
    {
        let ghost p0 = *p;
        let ghost rows = self.rows();
        let ghost h = self.current_board_height as int;
        proof {
            crate::core_logic::input_handler::lemma_piece_ok_fits(p0);
        }
        let mut piece = p.moved(0, 0);
        let ghost mut n: int = 0;
        loop
            invariant
                self.wf(),
                rows == self.rows(),
                h == self.current_board_height as int,
                piece_ok(p0),
                0 <= n,
                p0.position().1 + n <= 100,
                piece.is_move_of(p0, 0, n),
                piece.in_shape(),
                forall|j: int| 1 <= j <= n ==> position_allowed(rows, h, #[trigger] cells_below(p0, j)),
            ensures
                drop_stops(rows, h, p0, n),
                piece.is_move_of(p0, 0, n),
                piece.in_shape(),
            decreases 101 - p0.position().1 - n,
        {
            proof {
                crate::core_logic::input_handler::lemma_near_piece_fits(piece);
            }
            let lower = piece.moved(0, 1);
            proof {
                crate::core_logic::input_handler::lemma_near_piece_fits(lower);
                assert(piece_cells(lower) =~= cells_below(p0, n + 1));
            }
            if !self.is_valid_position(&lower) {
                break;
            }
            proof {
                lemma_allowed_bounds(rows, h, lower);
                n = n + 1;
            }
            piece = lower;
        }
        piece
    }

    /// Where the current piece would land if dropped (see `drop_stops`);
    /// none without a current piece.
    pub fn ghost_piece(&self) -> (g: Option<Tetromino>)
        requires
            self.wf(),
        ensures
            match self.current_piece {
                None => g is None,
                Some(p) => g matches Some(q) && q.in_shape()
                    && exists|n: int| drop_stops(self.rows(), self.current_board_height as int, p, n) && q.is_move_of(p, 0, n),
            },
    {
        match &self.current_piece {
            Some(p) => Some(self.drop_piece(p)),
            None => None,
        }
    }

    /// Applies a command to the current piece: the piece takes the place
    /// the command puts it (see `input_candidate`) when every block there is
    /// allowed, and stays otherwise.  Other commands, and a game without a
    /// current piece, change nothing.
    pub fn handle_input(&mut self, input: GameInput)
        requires
            old(self).wf(),
        ensures
            final(self).wf(),
            input_handled(*old(self), *final(self), input),
    {
        if self.current_piece.is_none() {
            return;
        }
        let p = match &self.current_piece {
            Some(t) => t.clone(),
            None => { return; },
        };
        let ghost p0 = old(self).current_piece->0;
        assert(p.same_piece(p0));
        proof {
            crate::core_logic::input_handler::lemma_piece_ok_fits(p0);
        }
        let ghost rows = self.rows();
        let ghost h = self.current_board_height as int;
        let candidate = match input {
            GameInput::MoveLeft => p.moved(-1, 0),
            GameInput::MoveRight => p.moved(1, 0),
            GameInput::SoftDrop => p.moved(0, 1),
            GameInput::RotateClockwise => p.rotated(),
            GameInput::RotateCounterClockwise => p.rotated_counter_clockwise(),
            GameInput::HardDrop => {
                let piece = match &self.current_piece {
                    Some(t) => self.drop_piece(t),
                    None => { return; },
                };
                proof {
                    assert(input_candidate(rows, h, p0, input, piece));
                }
                piece
            },
            _ => {
                return;
            },
        };
        proof {
            crate::core_logic::input_handler::lemma_near_piece_fits(candidate);
            assert forall|q: Tetromino| input_candidate(rows, h, p0, input, q)
                implies #[trigger] piece_cells(q) == piece_cells(candidate) by {
                if input is HardDrop {
                    let n1 = choose|n: int| drop_stops(rows, h, p0, n) && q.is_move_of(p0, 0, n);
                    let n2 = choose|n: int| drop_stops(rows, h, p0, n) && candidate.is_move_of(p0, 0, n);
                    if n1 < n2 {
                        assert(position_allowed(rows, h, cells_below(p0, n1 + 1)));
                    } else if n2 < n1 {
                        assert(position_allowed(rows, h, cells_below(p0, n2 + 1)));
                    }
                }
                assert(piece_cells(q) =~= piece_cells(candidate));
            }
        }
        if self.is_valid_position(&candidate) {
            proof {
                lemma_allowed_bounds(rows, h, candidate);
            }
            self.current_piece = Some(candidate);
        }
    }

    /// Raises the chain recorded for each piece colour to the largest count
    /// of a `Connected` block of that colour in the play area, row by row.
    pub fn update_max_chains(&mut self)
        requires
            old(self).wf(),
        ensures
            *final(self) == (GameState {
                custom_score_system: CustomScoreSystem {
                    max_chains: chains_after_cells(old(self).custom_score_system.max_chains, old(self).rows(),
                        old(self).current_board_height * BOARD_WIDTH as int),
                    ..old(self).custom_score_system
                },
                ..*old(self)
            }),
    {
        let ghost rows = self.rows();
        let h = self.current_board_height;
        let mut y: usize = 0;
        while y < h
            invariant
                y <= h <= 20,
                h == old(self).current_board_height,
                rows == old(self).rows(),
                rows_wf(rows),
                *self == (GameState {
                    custom_score_system: CustomScoreSystem { max_chains: self.custom_score_system.max_chains, ..old(self).custom_score_system },
                    ..*old(self)
                }),
                self.custom_score_system.max_chains == chains_after_cells(old(self).custom_score_system.max_chains, rows, y * 10),
            decreases h - y,
        {
            let mut x: usize = 0;
            while x < 10
                invariant
                    x <= 10,
                    y < h <= 20,
                    h == old(self).current_board_height,
                    rows == old(self).rows(),
                    rows_wf(rows),
                    *self == (GameState {
                        custom_score_system: CustomScoreSystem { max_chains: self.custom_score_system.max_chains, ..old(self).custom_score_system },
                        ..*old(self)
                    }),
                    self.custom_score_system.max_chains == chains_after_cells(old(self).custom_score_system.max_chains, rows, y * 10 + x),
                decreases 10 - x,
            {
                proof {
                    crate::connectivity::lemma_index_parts(x as int, y as int);
                    assert(cell_at(rows, y * 10 + x) == rows[y as int][x as int]);
                    assert(rows[y as int] == self.board@[y as int]@);
                }
                if let Cell::Connected { color, count } = self.board[y][x] {
                    self.custom_score_system.max_chains.update_max(color, count as u32);
                }
                x += 1;
            }
            y += 1;
        }
    }
}

} // verus!
