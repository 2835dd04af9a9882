//! The browser front end's game state: the same board, animations and score
//! system as the terminal game, with the browser's pieces (`SimpleTetromino`)
//! and their wall kicks, driven by numeric input codes.  The clock is handed
//! in as milliseconds.
use vstd::prelude::*;
use crate::animation::{
    filled_row, lines_equal, lines_other, process_line_clear, process_push_down_step, push_down_done, rows_after_line_clear,
    started_by, update_animations, update_spec, Animation, AnimationResult, PushDownStepResult,
};
use crate::board_logic::{
    count_blocks_from_row, count_connected_blocks, find_and_connect_adjacent_blocks, isolation_target, remove_isolated_blocks,
};
use crate::cell::{board_rows, cell_at, empty_board, empty_rows, rows_wf, set_cell, Board, Cell};
use crate::config::{BOARD_HEIGHT, BOARD_WIDTH, FALL_SPEED_START_MS};
use crate::connectivity::{all_rows, colors_from_rows, rows_except};
use crate::core_logic::game_state::placed_rows;
use crate::game_color::{GameColor, is_piece_color};
use crate::game_engine::{
    animations_ok, apply_counts, blink_lines_ok, blink_spawns, chains_after_cells, lemma_update_spec_ok, rows_below,
    rows_below_flags, rows_of_cells, connected_rows, find_full_lines, full_lines_desc, lemma_chains_after_bounds,
    lemma_full_lines_bounds, lemma_lines_points_bound, lemma_lines_points_prefix, lemma_row_points_bound,
    lemma_rows_from_cells, lines_points, recount_target, recounted_rows, MAX_LOCK_POINTS,
};
use crate::scoring::{calculate_line_clear_total_score, ColorMaxChains, CustomScoreSystem};
use crate::tetromino::{get_srs_wall_kick_offsets_by_shape, kick_offsets};
use crate::web::{shape_code, web_blocks, web_shapes_seq, SimpleTetromino, TetrominoShape, WebTetrominoBag};

verus! {

/// Column of a piece as the browser game reads it: its `usize` column
/// taken as an `i8`.
pub open spec fn px(p: SimpleTetromino) -> int {
    (p.x as i8) as int
}

/// Row of a piece as the browser game reads it.
pub open spec fn py(p: SimpleTetromino) -> int {
    (p.y as i8) as int
}

/// A piece the game can hold: a known shape, a rotation state, four
/// colours, and a place where it was spawned or moved to (at most three
/// columns left of the board, not right of it, not below it).
pub open spec fn web_piece_ok(p: SimpleTetromino) -> bool {
    &&& p.shape < 7
    &&& p.rotation < 4
    &&& p.colors@.len() == 4
    &&& -3 <= px(p) <= 9
    &&& py(p) <= 19
}

/// A freshly made piece: spawn position (column 3, row 0), rotation state
/// 0, a known shape and four colours of the palette.
pub open spec fn web_fresh(p: SimpleTetromino) -> bool {
    &&& p.x == 3 && p.y == 0 && p.rotation == 0
    &&& p.shape < 7
    &&& p.colors@.len() == 4
    &&& forall|i: int| 0 <= i < 4 ==> is_piece_color(#[trigger] p.colors@[i])
}

/// A block at column `bx`, row `by` is allowed: inside the columns, above
/// the bottom of the play area `h`, and on an empty cell where it lies on
/// the board.
pub open spec fn web_block_ok(rows: Seq<Seq<Cell>>, h: int, bx: int, by: int) -> bool {
    &&& 0 <= bx < BOARD_WIDTH
    &&& by < h
    &&& by >= 0 ==> rows[by][bx] == Cell::Empty
}

/// Every block of shape `shape` in rotation state `rot` at column `x`, row
/// `y` is allowed.
pub open spec fn web_valid(rows: Seq<Seq<Cell>>, h: int, shape: u8, x: int, y: int, rot: u8) -> bool {
    forall|i: int| 0 <= i < web_blocks(shape, rot).len()
        ==> web_block_ok(rows, h, x + (#[trigger] web_blocks(shape, rot)[i]).0, y + web_blocks(shape, rot)[i].1)
}

/// Board cells and colours of the blocks of a piece where it stands, block
/// `i` painted with colour `i`.
pub open spec fn web_cells(p: SimpleTetromino) -> Seq<((i8, i8), GameColor)> {
    Seq::new(web_blocks(p.shape, p.rotation).len(), |i: int| (
        ((px(p) + web_blocks(p.shape, p.rotation)[i].0) as i8, (py(p) + web_blocks(p.shape, p.rotation)[i].1) as i8),
        p.colors@[i % p.colors@.len() as int],
    ))
}

/// `p` put at column `x`, row `y` in rotation state `rot`.
pub open spec fn web_placed(p: SimpleTetromino, x: int, y: int, rot: u8) -> SimpleTetromino {
    SimpleTetromino { x: (x as i8) as usize, y: (y as i8) as usize, rotation: rot, ..p }
}

/// `b` is `a` after dealing `shape` (see `WebTetrominoBag::next`).
pub open spec fn bag_dealt(a: WebTetrominoBag, b: WebTetrominoBag, shape: TetrominoShape) -> bool {
    &&& a.contents().len() > 0 ==> b.contents() == a.contents().drop_last() && shape == a.contents().last()
    &&& a.contents().len() == 0 ==> b.contents().len() == 6
        && b.contents().push(shape).to_multiset() == web_shapes_seq().to_multiset()
}

/// Every block offset lies within three cells right of and below the
/// piece's position, and a known shape has four blocks.
proof fn lemma_web_blocks_small(shape: u8, rot: u8)
    ensures
        1 <= web_blocks(shape, rot).len() <= 4,
        shape < 7 ==> web_blocks(shape, rot).len() == 4,
        forall|j: int| 0 <= j < web_blocks(shape, rot).len()
            ==> 0 <= (#[trigger] web_blocks(shape, rot)[j]).0 <= 3 && 0 <= web_blocks(shape, rot)[j].1 <= 3,
{
}

/// An allowed position of a known shape is at most three columns left of
/// the board, not right of it and above the bottom of the board.
proof fn lemma_web_valid_bounds(rows: Seq<Seq<Cell>>, h: int, shape: u8, x: int, y: int, rot: u8)
    requires
        h <= BOARD_HEIGHT,
        web_valid(rows, h, shape, x, y, rot),
    ensures
        -3 <= x <= 9,
        y <= 19,
{
    lemma_web_blocks_small(shape, rot);
    assert(web_block_ok(rows, h, x + web_blocks(shape, rot)[0].0, y + web_blocks(shape, rot)[0].1));
}

/// On an empty board of full height every shape fits at the spawn position.
proof fn lemma_web_spawn_fits(shape: u8)
    ensures
        web_valid(empty_rows(), BOARD_HEIGHT as int, shape, 3, 0, 0),
{
    lemma_web_blocks_small(shape, 0);
}

/// An `i8` stored as a `usize` and read back is the same number.
proof fn lemma_i8_round_trip(v: i8)
    ensures
        ((v as usize) as i8) == v,
{
    assert(((v as usize) as i8) == v) by (bit_vector);
}

/// `t` is `s` after `move_current_piece(dx, dy)` returned `r`: the move
/// happens, and `r` is true, exactly when there is a current piece and it
/// is allowed `dx` columns right and `dy` rows down.
pub open spec fn web_move_result(s: WebGameState, t: WebGameState, dx: int, dy: int, r: bool) -> bool {
    &&& r == (s.current_piece matches Some(p)
        && web_valid(s.rows(), s.current_board_height as int, p.shape, px(p) + dx, py(p) + dy, p.rotation))
    &&& t == if r {
        let p = s.current_piece.unwrap();
        WebGameState { current_piece: Some(web_placed(p, px(p) + dx, py(p) + dy, p.rotation)), ..s }
    } else {
        s
    }
}

/// Rotation state after a quarter turn of `rot`, clockwise or not.
pub open spec fn turned(rot: u8, clockwise: bool) -> u8 {
    if clockwise { ((rot + 1) % 4) as u8 } else { ((rot + 3) % 4) as u8 }
}

/// The first of the kicks `k..5` of `offs` that puts `p`, turned to `rot`,
/// at an allowed position.
pub open spec fn first_kick(rows: Seq<Seq<Cell>>, h: int, p: SimpleTetromino, rot: u8, offs: [[i8; 2]; 5], k: int) -> Option<int>
    decreases 5 - k,
{
    if k < 0 || k >= 5 {
        None
    } else if web_valid(rows, h, p.shape, px(p) + offs[k][0], py(p) + offs[k][1], rot) {
        Some(k)
    } else {
        first_kick(rows, h, p, rot, offs, k + 1)
    }
}

/// The kicks tried for a quarter turn of `p`.
pub open spec fn turn_kicks(p: SimpleTetromino, clockwise: bool) -> [[i8; 2]; 5] {
    kick_offsets(p.shape, p.rotation, turned(p.rotation, clockwise))
}

/// Every kick tried for a quarter turn of `p` keeps its position inside the
/// range of `i8`.
pub open spec fn kicks_fit(p: SimpleTetromino, clockwise: bool) -> bool {
    forall|k: int| 0 <= k < 5 ==> -128 <= px(p) + #[trigger] turn_kicks(p, clockwise)[k][0] <= 127
        && -128 <= py(p) + turn_kicks(p, clockwise)[k][1] <= 127
}

/// `t` is `s` after `rotate_current_piece(clockwise)` returned `r`: the
/// current piece takes the first of its kicks that is allowed after the
/// turn; with none, or no current piece, nothing changes and `r` is false.
pub open spec fn web_turn_result(s: WebGameState, t: WebGameState, clockwise: bool, r: bool) -> bool {
    match s.current_piece {
        None => !r && t == s,
        Some(p) => {
            let rot = turned(p.rotation, clockwise);
            let offs = turn_kicks(p, clockwise);
            match first_kick(s.rows(), s.current_board_height as int, p, rot, offs, 0) {
                Some(k) => r && t == (WebGameState {
                    current_piece: Some(web_placed(p, px(p) + offs[k][0], py(p) + offs[k][1], rot)),
                    ..s
                }),
                None => !r && t == s,
            }
        },
    }
}

/// Board cells of the current piece's blocks; none without a piece.
pub open spec fn web_current_cells(s: WebGameState) -> Seq<((i8, i8), GameColor)> {
    match s.current_piece {
        Some(p) => web_cells(p),
        None => Seq::empty(),
    }
}

/// The board once the current piece is written on it.
pub open spec fn web_lock_placed(s: WebGameState) -> Seq<Seq<Cell>> {
    placed_rows(s.rows(), web_current_cells(s))
}

/// The full lines of the play area once the piece is written, lowest
/// first.
pub open spec fn web_lock_lines(s: WebGameState) -> Seq<usize> {
    full_lines_desc(web_lock_placed(s), s.current_board_height as int)
}

/// The board after a lock: the piece written, the groups joined outside
/// the full lines, and the chains counted.
pub open spec fn web_lock_rows(s: WebGameState) -> Seq<Seq<Cell>> {
    recounted_rows(connected_rows(web_lock_placed(s), rows_except(web_lock_lines(s))), all_rows(), 1)
}

/// The recorded chains after a lock.
pub open spec fn web_lock_chains(s: WebGameState) -> ColorMaxChains {
    chains_after_cells(s.custom_score_system.max_chains, web_lock_rows(s), s.current_board_height * BOARD_WIDTH as int)
}

/// The points a lock adds: those of its full lines.
pub open spec fn web_lock_points(s: WebGameState) -> int {
    lines_points(web_lock_rows(s), web_lock_chains(s), web_lock_lines(s))
}

/// `t` is `s` after `lock_piece(now)`.  Without a current piece nothing
/// changes.  Otherwise the piece is written on the board, the groups outside
/// the full lines are joined and counted (`web_lock_rows`), the recorded
/// chains rise (`web_lock_chains`), the score grows by the points of the
/// full lines, and then either the full lines start to blink at `now` or,
/// with none, the next piece comes (see `spawn_fields`).
pub open spec fn web_locked(s: WebGameState, t: WebGameState, now: u64) -> bool {
    if s.current_piece is None {
        t == s
    } else {
        &&& t.rows() == web_lock_rows(s)
        &&& t.custom_score_system.max_chains == web_lock_chains(s)
        &&& t.custom_score_system.chain_bonus == s.custom_score_system.chain_bonus
        &&& t.custom_score_system.score.value() == s.custom_score_system.score.value() + web_lock_points(s)
        &&& t.fall_speed_ms == s.fall_speed_ms
        &&& t.last_fall_time_ms == s.last_fall_time_ms
        &&& t.current_board_height == s.current_board_height
        &&& if web_lock_lines(s).len() > 0 {
            &&& t.animation@ == s.animation@.push(t.animation@.last())
            &&& t.animation@.last() matches Animation::LineBlink { lines, count, start_time }
                && lines@ == web_lock_lines(s) && count == 0 && start_time == now
            &&& t.current_piece is None
            &&& t.next_piece == s.next_piece
            &&& t.game_mode == s.game_mode
            &&& t.tetromino_bag == s.tetromino_bag
        } else {
            &&& t.animation == s.animation
            &&& spawn_fields(web_lock_rows(s), s.current_board_height as int, s.next_piece, s.tetromino_bag, s.game_mode, t)
        }
    }
}

/// `p` is allowed `j` rows below where it stands.
pub open spec fn web_valid_below(rows: Seq<Seq<Cell>>, h: int, p: SimpleTetromino, j: int) -> bool {
    web_valid(rows, h, p.shape, px(p), py(p) + j, p.rotation)
}

/// Dropped straight down, `p` stops `n` rows lower: every one of the first
/// `n` rows below is allowed and the next is not.
pub open spec fn web_drop_stops(rows: Seq<Seq<Cell>>, h: int, p: SimpleTetromino, n: int) -> bool {
    &&& n >= 0
    &&& forall|j: int| 1 <= j <= n ==> #[trigger] web_valid_below(rows, h, p, j)
    &&& !web_valid_below(rows, h, p, n + 1)
}

/// `s` with its current piece `n` rows lower.
pub open spec fn web_dropped(s: WebGameState, n: int) -> WebGameState {
    let p = s.current_piece.unwrap();
    WebGameState { current_piece: Some(web_placed(p, px(p), py(p) + n, p.rotation)), ..s }
}

/// A hard drop of the current piece cannot overflow: the piece is at most
/// 108 rows above the board, and locking it where it stops keeps the score
/// within `u32`.
pub open spec fn hard_drop_fits(s: WebGameState) -> bool {
    s.current_piece matches Some(p) ==> {
        &&& py(p) >= -108
        &&& forall|n: int| #[trigger] web_drop_stops(s.rows(), s.current_board_height as int, p, n)
            ==> s.custom_score_system.score.value() + web_lock_points(web_dropped(s, n)) <= u32::MAX
    }
}

/// `t` is `s` after `hard_drop(now)` returned `r`: when the current piece
/// can move down at all, it drops to where it stops and is locked there
/// (`r` true); otherwise nothing changes.
pub open spec fn web_hard_drop_result(s: WebGameState, t: WebGameState, now: u64, r: bool) -> bool {
    &&& r == (s.current_piece matches Some(p) && web_valid_below(s.rows(), s.current_board_height as int, p, 1))
    &&& !r ==> t == s
    &&& r ==> exists|n: int| n >= 1 && #[trigger] web_drop_stops(s.rows(), s.current_board_height as int, s.current_piece.unwrap(), n)
        && web_locked(web_dropped(s, n), t, now)
}

/// What an input code does to the state `s`, giving `t` and the result
/// `r`: 0 to 5 move left, move right, soft drop, turn clockwise, turn
/// counter-clockwise and hard drop during play (mode 1) and do nothing
/// otherwise; 6 starts a new game and 7 returns to the title, both in every
/// mode; other codes do nothing.
pub open spec fn web_input_result(s: WebGameState, t: WebGameState, code: u8, now: u64, r: bool) -> bool {
    if code == 6 {
        r && web_started(s, t, now)
    } else if code == 7 {
        r && t == (WebGameState { game_mode: 0, ..s })
    } else if code > 7 || s.game_mode != 1 {
        !r && t == s
    } else if code == 0 {
        web_move_result(s, t, -1, 0, r)
    } else if code == 1 {
        web_move_result(s, t, 1, 0, r)
    } else if code == 2 {
        web_move_result(s, t, 0, 1, r)
    } else if code == 3 {
        web_turn_result(s, t, true, r)
    } else if code == 4 {
        web_turn_result(s, t, false, r)
    } else {
        web_hard_drop_result(s, t, now, r)
    }
}

/// The input code can be handled without overflow: a turn during play keeps
/// the kicks inside `i8`, and a hard drop during play fits (see
/// `kicks_fit` and `hard_drop_fits`).
pub open spec fn input_fits(s: WebGameState, code: u8) -> bool {
    &&& (s.game_mode == 1 && code == 3 && s.current_piece is Some) ==> kicks_fit(s.current_piece.unwrap(), true)
    &&& (s.game_mode == 1 && code == 4 && s.current_piece is Some) ==> kicks_fit(s.current_piece.unwrap(), false)
    &&& (s.game_mode == 1 && code == 5) ==> hard_drop_fits(s)
}

/// The rows after each line of `lines` in turn loses the isolated blocks
/// below it (see `isolation_target`).
pub open spec fn isolate_each(rows: Seq<Seq<Cell>>, lines: Seq<usize>) -> Seq<Seq<Cell>>
    decreases lines.len(),
{
    if lines.len() == 0 {
        rows
    } else {
        let prev = isolate_each(rows, lines.drop_last());
        rows_of_cells(|i: int| isolation_target(prev, lines.last() as int, i))
    }
}

/// The browser game's rows after the blink of `lines` is over, with the
/// play area `h`: the lines on the bottom line are removed and the others
/// turn grey (see `rows_after_line_clear`); with a bottom line removed the
/// play area is recounted; then each other line loses the isolated blocks
/// below it.
pub open spec fn web_blink_rows(rows: Seq<Seq<Cell>>, h: int, lines: Seq<usize>) -> Seq<Seq<Cell>> {
    let r1 = rows_after_line_clear(rows, h, lines);
    let r2 = if lines_equal(lines, h - 1).len() > 0 { recounted_rows(r1, rows_below(h), 0) } else { r1 };
    isolate_each(r2, lines_other(lines, h - 1))
}

/// The rows after the blinks `blinks`, in order (see `web_blink_rows`).
pub open spec fn web_blinks_rows(rows: Seq<Seq<Cell>>, h: int, blinks: Seq<Vec<usize>>) -> Seq<Seq<Cell>>
    decreases blinks.len(),
{
    if blinks.len() == 0 {
        rows
    } else {
        web_blink_rows(web_blinks_rows(rows, h, blinks.drop_last()), h, blinks.last()@)
    }
}

/// Rows and play area height after one push-down step of each grey line of
/// `ys` in turn (see `process_push_down_step`).
pub open spec fn web_push_fold(rows: Seq<Seq<Cell>>, h: int, ys: Seq<usize>) -> (Seq<Seq<Cell>>, int)
    decreases ys.len(),
{
    if ys.len() == 0 {
        (rows, h)
    } else {
        let (r, hh) = web_push_fold(rows, h, ys.drop_last());
        let y = ys.last() as int;
        if push_down_done(r, hh, y) {
            (r.update(y, filled_row(Cell::Solid)), if hh > 0 { hh - 1 } else { 0 })
        } else if y + 1 < BOARD_HEIGHT {
            (seq![filled_row(Cell::Empty)] + r.remove(y + 1), hh)
        } else {
            (r, hh)
        }
    }
}

/// `after` is `before` after `k` spawns (see `WebGameState::spawn_piece`):
/// with none the pieces, the bag and the mode are as they were; after one
/// the next piece became the current one; after more the current piece is
/// a fresh one; after any the next piece is fresh and the mode is as it was
/// or game over.
pub open spec fn web_handed(before: WebGameState, after: WebGameState, k: nat) -> bool {
    if k == 0 {
        &&& after.current_piece == before.current_piece
        &&& after.next_piece == before.next_piece
        &&& after.tetromino_bag == before.tetromino_bag
        &&& after.game_mode == before.game_mode
    } else {
        &&& k == 1 ==> after.current_piece == before.next_piece
        &&& k > 1 ==> (after.current_piece matches Some(p) && web_fresh(p))
        &&& after.next_piece matches Some(q) && web_fresh(q)
        &&& after.game_mode == before.game_mode || after.game_mode == 2
    }
}

/// Spawning after `k` spawns makes `k + 1`.
proof fn lemma_web_hand_over_step(s0: WebGameState, s1: WebGameState, s2: WebGameState, k: nat)
    requires
        web_handed(s0, s1, k),
        web_spawned(s1, s2),
    ensures
        web_handed(s0, s2, k + 1),
{
}

/// A step that keeps the pieces, the bag and the mode keeps the count.
proof fn lemma_web_hand_over_same(s0: WebGameState, s1: WebGameState, s2: WebGameState, k: nat)
    requires
        web_handed(s0, s1, k),
        s2.current_piece == s1.current_piece,
        s2.next_piece == s1.next_piece,
        s2.tetromino_bag == s1.tetromino_bag,
        s2.game_mode == s1.game_mode,
    ensures
        web_handed(s0, s2, k),
{
}

/// Spawning `d` more pieces after `k` makes `k + d` (for `d` at most one).
proof fn lemma_web_hand_over_then(s0: WebGameState, s1: WebGameState, s2: WebGameState, k: nat, d: nat)
    requires
        web_handed(s0, s1, k),
        web_handed(s1, s2, d),
        d <= 1,
    ensures
        web_handed(s0, s2, k + d),
{
}

/// `t` is `s` after `update_animation(now)`: without animations nothing
/// changes; otherwise the finished blinks are cleared, the due push-down
/// steps done, the other animations go on, and the pieces are handed over
/// once for each blink that removed a bottom line and once more when no
/// animation is left.  The score, the fall speed and the last fall stay.
pub open spec fn web_animated(s: WebGameState, t: WebGameState, now: u64) -> bool {
    &&& s.animation@.len() == 0 ==> t == s
    &&& s.animation@.len() > 0 ==> ({
        let h0 = s.current_board_height as int;
        let u = update_spec(s.animation@, now);
        let r1 = web_blinks_rows(s.rows(), h0, u.1);
        let f = web_push_fold(r1, h0, u.2);
        &&& t.rows() == f.0
        &&& t.current_board_height == f.1
        &&& t.animation@ == u.0
        &&& web_handed(s, t, blink_spawns(u.1, h0) + if u.0.len() == 0 { 1nat } else { 0nat })
    })
    &&& t.custom_score_system == s.custom_score_system
    &&& t.fall_speed_ms == s.fall_speed_ms
    &&& t.last_fall_time_ms == s.last_fall_time_ms
}

/// `t` is `m` after the fall step of `auto_fall` at `now`, once the
/// animations are done: the current piece moves one row down where that is
/// allowed and is locked otherwise (see `web_locked`), or without a piece
/// one spawns; the last fall is then `now`.
pub open spec fn web_fell(m: WebGameState, t: WebGameState, now: u64) -> bool {
    match m.current_piece {
        Some(p) => if web_valid_below(m.rows(), m.current_board_height as int, p, 1) {
            t == (WebGameState {
                current_piece: Some(web_placed(p, px(p), py(p) + 1, p.rotation)),
                last_fall_time_ms: now,
                ..m
            })
        } else {
            exists|l: WebGameState| #[trigger] web_locked(m, l, now) && t == (WebGameState { last_fall_time_ms: now, ..l })
        },
        None => exists|l: WebGameState| #[trigger] web_spawned(m, l) && t == (WebGameState { last_fall_time_ms: now, ..l }),
    }
}

/// `t` is `s` after `auto_fall(now)` returned `r`: outside play nothing
/// happens; otherwise the animations advance (`web_animated`, giving `m`);
/// while some go on that is all (`r` true); otherwise, once the fall speed
/// has passed since the last fall, the fall step is made (`web_fell`, `r`
/// true), and before that nothing more happens (`r` false).
pub open spec fn web_auto_fall_result(s: WebGameState, t: WebGameState, now: u64, r: bool) -> bool {
    if s.game_mode != 1 {
        !r && t == s
    } else {
        exists|m: WebGameState| #[trigger] web_animated(s, m, now) && {
            if m.animation@.len() > 0 {
                r && t == m
            } else if now - m.last_fall_time_ms >= m.fall_speed_ms {
                r && web_fell(m, t, now)
            } else {
                !r && t == m
            }
        }
    }
}

/// A lock of the browser game scores at most `MAX_LOCK_POINTS`: a program
/// that keeps the score at most `u32::MAX - MAX_LOCK_POINTS` meets the
/// bound `lock_piece` asks.
pub proof fn lemma_web_lock_points_bounded(s: WebGameState)
    requires
        s.wf(),
    ensures
        0 <= web_lock_points(s) <= MAX_LOCK_POINTS,
{
    lemma_chains_after_bounds(s.custom_score_system.max_chains, web_lock_rows(s), s.current_board_height * BOARD_WIDTH as int);
    lemma_full_lines_bounds(web_lock_placed(s), s.current_board_height as int);
    lemma_lines_points_bound(web_lock_rows(s), web_lock_chains(s), web_lock_lines(s));
}

/// Code of a cell for the browser: 0 empty; 1, 2, 3 a cyan, magenta or
/// yellow block and 4 one of another colour; 10, 11, 12 a joined cyan,
/// magenta or yellow block and 13 one of another colour; 21 solid.
pub open spec fn web_cell_code(c: Cell) -> u8 {
    match c {
        Cell::Empty => 0,
        Cell::Occupied(color) => match color {
            GameColor::Cyan => 1,
            GameColor::Magenta => 2,
            GameColor::Yellow => 3,
            _ => 4,
        },
        Cell::Connected { color, .. } => match color {
            GameColor::Cyan => 10,
            GameColor::Magenta => 11,
            GameColor::Yellow => 12,
            _ => 13,
        },
        Cell::Solid => 21,
    }
}

/// The joined blocks among the first `n` cells of `rows` (row by row), each
/// as its column, row and count.
pub open spec fn connected_info(rows: Seq<Seq<Cell>>, n: int) -> Seq<i32>
    decreases n,
{
    if n <= 0 {
        Seq::empty()
    } else {
        let prev = connected_info(rows, n - 1);
        match cell_at(rows, n - 1) {
            Cell::Connected { count, .. } => prev + seq![((n - 1) % 10) as i32, ((n - 1) / 10) as i32, count as i32],
            _ => prev,
        }
    }
}

/// An allowed position of a browser piece puts every block inside the
/// columns and above the bottom of the play area, and every block that lies
/// on the board on an empty cell: a piece never overlaps a block, plain or
/// joined, or a solid line.
pub proof fn lemma_web_valid_is_free(rows: Seq<Seq<Cell>>, h: int, shape: u8, x: int, y: int, rot: u8, i: int)
    requires
        web_valid(rows, h, shape, x, y, rot),
        0 <= i < web_blocks(shape, rot).len(),
    ensures
        0 <= x + web_blocks(shape, rot)[i].0 < BOARD_WIDTH,
        y + web_blocks(shape, rot)[i].1 < h,
        y + web_blocks(shape, rot)[i].1 >= 0 ==> rows[y + web_blocks(shape, rot)[i].1][x + web_blocks(shape, rot)[i].0] == Cell::Empty,
{
    assert(web_block_ok(rows, h, x + web_blocks(shape, rot)[i].0, y + web_blocks(shape, rot)[i].1));
}

/// The browser's move codes move the piece their own way: during play a
/// successful code 0 puts the current piece one column to the left, code 1
/// one column to the right and code 2 one row down, in the same rotation
/// state.
pub proof fn lemma_web_codes_move_their_way(s: WebGameState, t: WebGameState, code: u8, now: u64, r: bool)
    requires
        s.wf(),
        s.game_mode == 1,
        code <= 2,
        web_input_result(s, t, code, now, r),
        r,
    ensures
        s.current_piece is Some,
        t.current_piece is Some,
        px(t.current_piece.unwrap()) == px(s.current_piece.unwrap()) + if code == 0 { -1int } else if code == 1 { 1int } else { 0int },
        py(t.current_piece.unwrap()) == py(s.current_piece.unwrap()) + if code == 2 { 1int } else { 0int },
        t.current_piece.unwrap().rotation == s.current_piece.unwrap().rotation,
{
    let p = s.current_piece.unwrap();
    let dx: int = if code == 0 { -1 } else if code == 1 { 1 } else { 0 };
    let dy: int = if code == 2 { 1 } else { 0 };
    assert(web_move_result(s, t, dx, dy, r));
    lemma_web_valid_bounds(s.rows(), s.current_board_height as int, p.shape, px(p) + dx, py(p) + dy, p.rotation);
    lemma_i8_round_trip((px(p) + dx) as i8);
    lemma_i8_round_trip((py(p) + dy) as i8);
}

/// The browser game's state.  `game_mode` is 0 for the title, 1 for play
/// and 2 for game over.
#[derive(Debug)]
pub struct WebGameState {
    pub board: Board,
    pub custom_score_system: CustomScoreSystem,
    pub current_piece: Option<SimpleTetromino>,
    pub next_piece: Option<SimpleTetromino>,
    pub game_mode: u8,
    pub fall_speed_ms: u64,
    pub last_fall_time_ms: u64,
    pub tetromino_bag: WebTetrominoBag,
    pub current_board_height: usize,
    pub animation: Vec<Animation>,
}

/// `t` holds what a spawn makes of a state with rows `rows`, play area
/// height `h`, next piece `next`, bag `bag` and mode `mode`: the next piece
/// became the current one, a fresh piece of the shape dealt from the bag is
/// next, and the game is over (mode 2) when the new current piece is not at
/// an allowed position.
pub open spec fn spawn_fields(
    rows: Seq<Seq<Cell>>,
    h: int,
    next: Option<SimpleTetromino>,
    bag: WebTetrominoBag,
    mode: u8,
    t: WebGameState,
) -> bool {
    &&& t.current_piece == next
    &&& t.next_piece matches Some(q) && web_fresh(q)
        && exists|sh: TetrominoShape| #[trigger] bag_dealt(bag, t.tetromino_bag, sh) && shape_code(sh) == q.shape
    &&& t.game_mode == if next matches Some(p) && !web_valid(rows, h, p.shape, px(p), py(p), p.rotation) {
        2
    } else {
        mode
    }
}

/// `t` is `s` after `WebGameState::spawn_piece` (see `spawn_fields`).
pub open spec fn web_spawned(s: WebGameState, t: WebGameState) -> bool {
    &&& spawn_fields(s.rows(), s.current_board_height as int, s.next_piece, s.tetromino_bag, s.game_mode, t)
    &&& t == (WebGameState {
        current_piece: t.current_piece,
        next_piece: t.next_piece,
        game_mode: t.game_mode,
        tetromino_bag: t.tetromino_bag,
        ..s
    })
}

impl WebGameState {
    /// The board has its full size, the play area is at most the board, the
    /// pieces are ones the game can hold and the recorded chains are at most
    /// 255.
    pub open spec fn wf(&self) -> bool {
        &&& rows_wf(board_rows(self.board@))
        &&& self.current_board_height <= BOARD_HEIGHT
        &&& (self.current_piece matches Some(p) ==> web_piece_ok(p))
        &&& (self.next_piece matches Some(p) ==> web_piece_ok(p))
        &&& self.custom_score_system.max_chains.cyan <= 255
        &&& self.custom_score_system.max_chains.magenta <= 255
        &&& self.custom_score_system.max_chains.yellow <= 255
    }

    /// The board as rows of cells.
    pub open spec fn rows(&self) -> Seq<Seq<Cell>> {
        board_rows(self.board@)
    }

    /// A new state at the title: empty board of full height, no pieces, no
    /// animation, the starting fall speed, the last fall at `now_ms`, a full
    /// bag and a fresh score system.
    pub fn new(now_ms: u64) -> (s: Self)
        ensures
            s.wf(),
            s.game_mode == 0,
            s.rows() == empty_rows(),
            s.current_piece is None,
            s.next_piece is None,
            s.animation@.len() == 0,
            s.fall_speed_ms == FALL_SPEED_START_MS,
            s.last_fall_time_ms == now_ms,
            s.current_board_height == BOARD_HEIGHT,
            s.tetromino_bag.contents().len() == 7,
            s.tetromino_bag.contents().to_multiset() == web_shapes_seq().to_multiset(),
            s.custom_score_system.score.value() == 0,
            s.custom_score_system.max_chains == (ColorMaxChains { cyan: 0, magenta: 0, yellow: 0 }),
            s.custom_score_system.chain_bonus == 0,
    {
        WebGameState {
            board: empty_board(),
            custom_score_system: CustomScoreSystem::new(),
            current_piece: None,
            next_piece: None,
            game_mode: 0,
            fall_speed_ms: FALL_SPEED_START_MS,
            last_fall_time_ms: now_ms,
            tetromino_bag: WebTetrominoBag::new(),
            current_board_height: BOARD_HEIGHT,
            animation: Vec::new(),
        }
    }

    /// Whether every block of `piece` in rotation state `rotation` at column
    /// `x`, row `y` is allowed (see `web_valid`).  A position more than 124
    /// columns right or rows down is never allowed.
    pub fn is_valid_position(&self, piece: &SimpleTetromino, x: i8, y: i8, rotation: u8) -> (r: bool)
        requires
            self.wf(),
        ensures
            r == web_valid(self.rows(), self.current_board_height as int, piece.shape, x as int, y as int, rotation),
    {
        if x > 124 || y > 124 {
            proof {
                if web_valid(self.rows(), self.current_board_height as int, piece.shape, x as int, y as int, rotation) {
                    lemma_web_valid_bounds(self.rows(), self.current_board_height as int, piece.shape, x as int, y as int, rotation);
                }
            }
            return false;
        }
        let blocks = piece.get_blocks_at_rotation(rotation);
        let h = self.current_board_height;
        let ghost b = web_blocks(piece.shape, rotation);
        proof {
            lemma_web_blocks_small(piece.shape, rotation);
        }
        let mut k: usize = 0;
        while k < blocks.len()
            invariant
                k <= blocks@.len(),
                blocks@ == b,
                b == web_blocks(piece.shape, rotation),
                h == self.current_board_height,
                self.wf(),
                x <= 124,
                y <= 124,
                forall|j: int| 0 <= j < b.len() ==> 0 <= (#[trigger] b[j]).0 <= 3 && 0 <= b[j].1 <= 3,
                forall|j: int| 0 <= j < k ==> web_block_ok(self.rows(), h as int, x + (#[trigger] b[j]).0, y + b[j].1),
            decreases blocks@.len() - k,
        {
            let (dx, dy) = blocks[k];
            let board_x = x + dx;
            let board_y = y + dy;
            if board_x < 0 || board_x >= BOARD_WIDTH as i8 {
                assert(!web_block_ok(self.rows(), h as int, x + b[k as int].0, y + b[k as int].1));
                return false;
            }
            if board_y >= h as i8 {
                assert(!web_block_ok(self.rows(), h as int, x + b[k as int].0, y + b[k as int].1));
                return false;
            }
            if board_y >= 0 {
                assert(self.rows()[board_y as int] == self.board@[board_y as int]@);
                if self.board[board_y as usize][board_x as usize] != Cell::Empty {
                    assert(!web_block_ok(self.rows(), h as int, x + b[k as int].0, y + b[k as int].1));
                    return false;
                }
            }
            k = k + 1;
        }
        true
    }

    /// The next piece becomes the current piece and a fresh piece of the
    /// shape dealt from the bag becomes the next one; the game is over when
    /// the new current piece is not at an allowed position.
    pub fn spawn_piece(&mut self)
        requires
            old(self).wf(),
        ensures
            final(self).wf(),
            web_spawned(*old(self), *final(self)),
    {
        let shape = self.tetromino_bag.next();
        let fresh = SimpleTetromino::from_shape(shape);
        let mut upcoming = Some(fresh);
        std::mem::swap(&mut upcoming, &mut self.next_piece);
        self.current_piece = upcoming;
        let mut invalid = false;
        if let Some(piece) = &self.current_piece {
            invalid = !self.is_valid_position(piece, piece.x as i8, piece.y as i8, piece.rotation);
        }
        if invalid {
            self.game_mode = 2;
        }
        assert(bag_dealt(old(self).tetromino_bag, self.tetromino_bag, shape));
    }

    /// Starts a game at `now_ms`: play mode, a fresh score system, an empty
    /// board of full height, the starting fall speed, no animation, and two
    /// pieces of shapes dealt from the bag, the first current, the second
    /// next.
    pub fn start_game(&mut self, now_ms: u64)
        requires
            old(self).wf(),
        ensures
            final(self).wf(),
            web_started(*old(self), *final(self), now_ms),
    {
        self.game_mode = 1;
        self.custom_score_system = CustomScoreSystem::new();
        self.board = empty_board();
        self.fall_speed_ms = FALL_SPEED_START_MS;
        self.last_fall_time_ms = now_ms;
        self.current_board_height = BOARD_HEIGHT;
        self.animation = Vec::new();
        self.current_piece = None;
        let ghost bag0 = self.tetromino_bag;
        let shape = self.tetromino_bag.next();
        self.next_piece = Some(SimpleTetromino::from_shape(shape));
        let ghost mid = *self;
        proof {
            lemma_web_spawn_fits(shape_code(shape));
        }
        self.spawn_piece();
        assert(bag_dealt(bag0, mid.tetromino_bag, shape));
    }

    /// Puts the current piece at column `x`, row `y` in rotation state
    /// `rot`.
    fn place_current(&mut self, x: i8, y: i8, rot: u8)
        requires
            old(self).current_piece is Some,
        ensures
            *final(self) == (WebGameState {
                current_piece: Some(web_placed(old(self).current_piece.unwrap(), x as int, y as int, rot)),
                ..*old(self)
            }),
    {
        let mut taken: Option<SimpleTetromino> = None;
        std::mem::swap(&mut taken, &mut self.current_piece);
        let mut p = taken.unwrap();
        p.x = x as usize;
        p.y = y as usize;
        p.rotation = rot;
        self.current_piece = Some(p);
    }

    /// Moves the current piece `dx` columns right and `dy` rows down where
    /// that position is allowed; returns whether it moved.
    pub fn move_current_piece(&mut self, dx: i8, dy: i8) -> (r: bool)
        requires
            old(self).wf(),
            old(self).current_piece matches Some(p) ==> -128 <= px(p) + dx <= 127 && -128 <= py(p) + dy <= 127,
        ensures
            final(self).wf(),
            web_move_result(*old(self), *final(self), dx as int, dy as int, r),
    {
        let mut target: Option<(i8, i8, u8)> = None;
        if let Some(piece) = &self.current_piece {
            let new_x = piece.x as i8 + dx;
            let new_y = piece.y as i8 + dy;
            if self.is_valid_position(piece, new_x, new_y, piece.rotation) {
                target = Some((new_x, new_y, piece.rotation));
            }
        }
        match target {
            Some((x, y, rot)) => {
                proof {
                    let p = old(self).current_piece.unwrap();
                    lemma_web_valid_bounds(self.rows(), self.current_board_height as int, p.shape, x as int, y as int, rot);
                    lemma_i8_round_trip(x);
                    lemma_i8_round_trip(y);
                }
                self.place_current(x, y, rot);
                true
            },
            None => false,
        }
    }

    /// Turns the current piece a quarter turn, clockwise or not, trying its
    /// wall kicks in order; returns whether it turned.
    pub fn rotate_current_piece(&mut self, clockwise: bool) -> (r: bool)
        requires
            old(self).wf(),
            old(self).current_piece matches Some(p) ==> kicks_fit(p, clockwise),
        ensures
            final(self).wf(),
            web_turn_result(*old(self), *final(self), clockwise, r),
    {
        let mut target: Option<(i8, i8, u8)> = None;
        if let Some(piece) = &self.current_piece {
            let rot = piece.rotation;
            let new_rot = if clockwise { (rot + 1) % 4 } else { (rot + 3) % 4 };
            let offsets = get_srs_wall_kick_offsets_by_shape(piece.shape, rot, new_rot);
            let x0 = piece.x as i8;
            let y0 = piece.y as i8;
            let ghost rows = self.rows();
            let ghost h = self.current_board_height as int;
            assert(offsets == turn_kicks(*piece, clockwise));
            let mut k: usize = 0;
            while k < 5 && target.is_none()
                invariant
                    k <= 5,
                    self.wf(),
                    rows == self.rows(),
                    h == self.current_board_height,
                    self.current_piece == Some(*piece),
                    x0 == px(*piece),
                    y0 == py(*piece),
                    new_rot == turned(rot, clockwise),
                    rot == piece.rotation,
                    offsets == turn_kicks(*piece, clockwise),
                    kicks_fit(*piece, clockwise),
                    target is None ==> first_kick(rows, h, *piece, new_rot, offsets, 0) == first_kick(rows, h, *piece, new_rot, offsets, k as int),
                    target matches Some(t) ==> k >= 1
                        && first_kick(rows, h, *piece, new_rot, offsets, 0) == Some(k - 1)
                        && t.0 == x0 + offsets[k - 1][0] && t.1 == y0 + offsets[k - 1][1] && t.2 == new_rot
                        && web_valid(rows, h, piece.shape, t.0 as int, t.1 as int, t.2),
                decreases 5 - k,
            {
                let tx = x0 + offsets[k][0];
                let ty = y0 + offsets[k][1];
                if self.is_valid_position(piece, tx, ty, new_rot) {
                    target = Some((tx, ty, new_rot));
                }
                k = k + 1;
            }
        }
        match target {
            Some((x, y, rot)) => {
                proof {
                    let p = old(self).current_piece.unwrap();
                    lemma_web_valid_bounds(self.rows(), self.current_board_height as int, p.shape, x as int, y as int, rot);
                    lemma_i8_round_trip(x);
                    lemma_i8_round_trip(y);
                }
                self.place_current(x, y, rot);
                true
            },
            None => false,
        }
    }

    /// Writes the blocks of the current piece that lie on the board.
    fn place_current_blocks(&mut self)
        requires
            old(self).wf(),
            old(self).current_piece is Some,
        ensures
            final(self).wf(),
            final(self).rows() == web_lock_placed(*old(self)),
            *final(self) == (WebGameState { board: final(self).board, ..*old(self) }),
    {
        let ghost rows0 = self.rows();
        let ghost s0 = *self;
        let mut board = Vec::new();
        std::mem::swap(&mut board, &mut self.board);
        if let Some(piece) = &self.current_piece {
            let blocks = piece.get_blocks_at_rotation(piece.rotation);
            let ghost cells = web_cells(*piece);
            let x0 = piece.x as i8;
            let y0 = piece.y as i8;
            proof {
                lemma_web_blocks_small(piece.shape, piece.rotation);
            }
            let mut i: usize = 0;
            while i < blocks.len()
                invariant
                    i <= blocks@.len(),
                    blocks@ == web_blocks(piece.shape, piece.rotation),
                    cells == web_cells(*piece),
                    web_piece_ok(*piece),
                    x0 == px(*piece),
                    y0 == py(*piece),
                    forall|j: int| 0 <= j < blocks@.len() ==> 0 <= (#[trigger] blocks@[j]).0 <= 3 && 0 <= blocks@[j].1 <= 3,
                    rows_wf(board_rows(board@)),
                    board_rows(board@) == placed_rows(rows0, cells.take(i as int)),
                decreases blocks@.len() - i,
            {
                let (dx, dy) = blocks[i];
                let bx = x0 + dx;
                let by = y0 + dy;
                let color = piece.colors[i % piece.colors.len()];
                assert(cells[i as int] == ((bx, by), color));
                assert(cells.take(i + 1).drop_last() =~= cells.take(i as int));
                if bx >= 0 && bx < BOARD_WIDTH as i8 && by >= 0 && by < BOARD_HEIGHT as i8 {
                    assert(board_rows(board@)[by as int] == board@[by as int]@);
                    set_cell(&mut board, by as usize, bx as usize, Cell::Occupied(color));
                }
                i = i + 1;
            }
            assert(cells.take(cells.len() as int) =~= cells);
        }
        self.board = board;
    }

    /// Gives every `Connected` block of a group that reaches below row 0
    /// the size of its group.
    fn update_connected_block_counts(&mut self)
        requires
            old(self).wf(),
        ensures
            final(self).wf(),
            final(self).rows() == recounted_rows(old(self).rows(), all_rows(), 1),
            *final(self) == (WebGameState { board: final(self).board, ..*old(self) }),
    {
        let ghost rows0 = self.rows();
        let counts = count_connected_blocks(&self.board, 0);
        apply_counts(&mut self.board, &counts, Ghost(all_rows()), Ghost(1int));
        proof {
            lemma_rows_from_cells(self.rows(), |i: int| recount_target(rows0, all_rows(), 1, i));
        }
    }

    /// Raises the chain recorded for each piece colour to the largest count
    /// of a `Connected` block of that colour in the play area.
    fn update_max_chains(&mut self)
        requires
            old(self).wf(),
        ensures
            final(self).wf(),
            *final(self) == (WebGameState {
                custom_score_system: CustomScoreSystem {
                    max_chains: chains_after_cells(old(self).custom_score_system.max_chains, old(self).rows(),
                        old(self).current_board_height * BOARD_WIDTH as int),
                    ..old(self).custom_score_system
                },
                ..*old(self)
            }),
    {
        let ghost rows = self.rows();
        let h = self.current_board_height;
        let mut y: usize = 0;
        while y < h
            invariant
                y <= h <= 20,
                h == old(self).current_board_height,
                rows == old(self).rows(),
                rows_wf(rows),
                *self == (WebGameState {
                    custom_score_system: CustomScoreSystem { max_chains: self.custom_score_system.max_chains, ..old(self).custom_score_system },
                    ..*old(self)
                }),
                self.custom_score_system.max_chains == chains_after_cells(old(self).custom_score_system.max_chains, rows, y * 10),
            decreases h - y,
        {
            let mut x: usize = 0;
            while x < 10
                invariant
                    x <= 10,
                    y < h <= 20,
                    h == old(self).current_board_height,
                    rows == old(self).rows(),
                    rows_wf(rows),
                    *self == (WebGameState {
                        custom_score_system: CustomScoreSystem { max_chains: self.custom_score_system.max_chains, ..old(self).custom_score_system },
                        ..*old(self)
                    }),
                    self.custom_score_system.max_chains == chains_after_cells(old(self).custom_score_system.max_chains, rows, y * 10 + x),
                decreases 10 - x,
            {
                proof {
                    crate::connectivity::lemma_index_parts(x as int, y as int);
                    assert(cell_at(rows, y * 10 + x) == rows[y as int][x as int]);
                    assert(rows[y as int] == self.board@[y as int]@);
                }
                if let Cell::Connected { color, count } = self.board[y][x] {
                    self.custom_score_system.max_chains.update_max(color, count as u32);
                }
                x += 1;
            }
            y += 1;
        }
        proof {
            lemma_chains_after_bounds(old(self).custom_score_system.max_chains, rows, h * 10);
        }
    }

    /// Locks the current piece, if there is one (see `web_locked`).
    pub fn lock_piece(&mut self, now_ms: u64)
        requires
            old(self).wf(),
            old(self).current_piece is Some
                ==> old(self).custom_score_system.score.value() + web_lock_points(*old(self)) <= u32::MAX,
        ensures
            final(self).wf(),
            web_locked(*old(self), *final(self), now_ms),
    {
        if self.current_piece.is_none() {
            return;
        }
        let ghost s0 = *self;
        self.place_current_blocks();
        self.current_piece = None;
        let ghost rows1 = self.rows();
        let lines = find_full_lines(&self.board, self.current_board_height);
        proof {
            lemma_full_lines_bounds(rows1, s0.current_board_height as int);
        }
        find_and_connect_adjacent_blocks(&mut self.board, lines.as_slice());
        proof {
            lemma_rows_from_cells(self.rows(), |i: int| crate::board_logic::connect_target(rows1, rows_except(lines@), i));
        }
        self.update_connected_block_counts();
        assert(self.rows() == web_lock_rows(s0));
        self.update_max_chains();
        let ghost rows3 = self.rows();
        let ghost m1 = self.custom_score_system.max_chains;
        let ghost before_loop = *self;
        let mut k: usize = 0;
        while k < lines.len()
            invariant
                k <= lines@.len(),
                lines@ == web_lock_lines(s0),
                lines@.len() <= 20,
                forall|j: int| 0 <= j < lines@.len() ==> #[trigger] lines@[j] < s0.current_board_height,
                s0.current_board_height <= 20,
                rows3 == self.rows(),
                rows3 == web_lock_rows(s0),
                rows_wf(rows3),
                m1 == self.custom_score_system.max_chains,
                m1 == web_lock_chains(s0),
                m1.cyan <= 255 && m1.magenta <= 255 && m1.yellow <= 255,
                s0.custom_score_system.score.value() + lines_points(rows3, m1, lines@) <= u32::MAX,
                self.custom_score_system.score.value() == s0.custom_score_system.score.value()
                    + lines_points(rows3, m1, lines@.take(k as int)),
                before_loop.wf(),
                *self == (WebGameState {
                    custom_score_system: CustomScoreSystem { score: self.custom_score_system.score, ..before_loop.custom_score_system },
                    ..before_loop
                }),
            decreases lines@.len() - k,
        {
            let y = lines[k];
            proof {
                assert(lines@.take(k + 1).drop_last() =~= lines@.take(k as int));
                lemma_lines_points_prefix(rows3, m1, lines@, k + 1);
                lemma_lines_points_bound(rows3, m1, lines@.take(k as int));
                lemma_row_points_bound(rows3[y as int], m1, 10);
            }
            let points = calculate_line_clear_total_score(&self.board, y, &self.custom_score_system.max_chains);
            self.custom_score_system.add_score(points);
            k = k + 1;
        }
        assert(lines@.take(lines@.len() as int) =~= lines@);
        if lines.len() > 0 {
            self.animation.push(Animation::LineBlink { lines, count: 0, start_time: now_ms });
        } else {
            self.spawn_piece();
        }
    }

    /// Handles input code `input_code` at `now_ms` (see
    /// `web_input_result`); returns whether the state changed as asked.
    pub fn handle_input(&mut self, input_code: u8, now_ms: u64) -> (changed: bool)
        requires
            old(self).wf(),
            input_fits(*old(self), input_code),
        ensures
            final(self).wf(),
            web_input_result(*old(self), *final(self), input_code, now_ms, changed),
    {
        if input_code == 6 {
            self.start_game(now_ms);
            return true;
        }
        if input_code == 7 {
            self.game_mode = 0;
            return true;
        }
        if input_code > 7 || self.game_mode != 1 {
            return false;
        }
        match input_code {
            0 => self.move_current_piece(-1, 0),
            1 => self.move_current_piece(1, 0),
            2 => self.move_current_piece(0, 1),
            3 => self.rotate_current_piece(true),
            4 => self.rotate_current_piece(false),
            _ => self.hard_drop(now_ms),
        }
    }

    /// Gives every `Connected` block in the play area the size of its group
    /// of same-coloured blocks, counted inside the play area.
    fn update_all_connected_block_counts(&mut self)
        requires
            old(self).wf(),
        ensures
            final(self).wf(),
            final(self).rows() == recounted_rows(old(self).rows(), rows_below(old(self).current_board_height as int), 0),
            *final(self) == (WebGameState { board: final(self).board, ..*old(self) }),
    {
        let ghost rows0 = self.rows();
        let colors = colors_from_rows(&self.board);
        let allowed = rows_below_flags(self.current_board_height);
        let counts = count_blocks_from_row(&colors, &allowed, 0);
        apply_counts(&mut self.board, &counts, Ghost(allowed@), Ghost(0int));
        proof {
            lemma_rows_from_cells(self.rows(), |i: int| recount_target(rows0, allowed@, 0, i));
        }
    }

    /// Finishes the blink of `lines` (see `web_blink_rows`); a piece spawns
    /// when a bottom line was removed.
    fn finish_blink(&mut self, lines: &Vec<usize>)
        requires
            old(self).wf(),
            blink_lines_ok(lines@, old(self).current_board_height as int),
        ensures
            final(self).wf(),
            final(self).rows() == web_blink_rows(old(self).rows(), old(self).current_board_height as int, lines@),
            final(self).current_board_height == old(self).current_board_height,
            final(self).animation == old(self).animation,
            final(self).custom_score_system == old(self).custom_score_system,
            final(self).fall_speed_ms == old(self).fall_speed_ms,
            final(self).last_fall_time_ms == old(self).last_fall_time_ms,
            web_handed(*old(self), *final(self),
                if lines_equal(lines@, old(self).current_board_height - 1).len() > 0 { 1nat } else { 0nat }),
    {
        let h = self.current_board_height;
        let ghost rows0 = self.rows();
        let (bottom, others) = process_line_clear(&mut self.board, h, lines.as_slice());
        let ghost r1 = self.rows();
        if bottom.len() > 0 {
            self.update_all_connected_block_counts();
            let ghost before = *self;
            self.spawn_piece();
            proof {
                lemma_web_hand_over_step(*old(self), before, *self, 0);
            }
        }
        let ghost r2 = self.rows();
        let ghost mid = *self;
        proof {
            crate::animation::lemma_lines_split_bounds(lines@, h - 1);
        }
        let mut j: usize = 0;
        while j < others.len()
            invariant
                j <= others@.len(),
                others@ == lines_other(lines@, h - 1),
                forall|m: int| 0 <= m < others@.len() ==> lines@.contains(#[trigger] others@[m]),
                forall|m: int| 0 <= m < lines@.len() ==> #[trigger] lines@[m] < BOARD_HEIGHT,
                self.wf(),
                self.current_board_height == h,
                self.rows() == isolate_each(r2, others@.take(j as int)),
                *self == (WebGameState { board: self.board, ..mid }),
            decreases others@.len() - j,
        {
            let ghost prev = self.rows();
            let y = others[j];
            remove_isolated_blocks(&mut self.board, y);
            proof {
                assert(others@.take(j + 1).drop_last() =~= others@.take(j as int));
                lemma_rows_from_cells(self.rows(), |i: int| isolation_target(prev, y as int, i));
            }
            j = j + 1;
        }
        assert(others@.take(others@.len() as int) =~= others@);
    }

    /// Advances the animations to `now_ms`: finished blinks are cleared (see
    /// `web_blink_rows`), grey lines whose step time has passed move down
    /// one row or settle as solid lines (see `web_push_fold`; a grey line
    /// that moved does not go on moving), the other animations go on, and a
    /// piece spawns when no animation is left.
    pub fn update_animation(&mut self, now_ms: u64)
        requires
            old(self).wf(),
            started_by(old(self).animation@, now_ms),
            animations_ok(old(self).animation@, old(self).current_board_height as int),
        ensures
            final(self).wf(),
            web_animated(*old(self), *final(self), now_ms),
    {
        if self.animation.len() == 0 {
            return;
        }
        let ghost s0 = *old(self);
        let h0 = self.current_board_height;
        let result = update_animations(&mut self.animation, now_ms);
        let AnimationResult { continuing_animations, completed_line_blinks, completed_push_downs } = result;
        let ghost u = update_spec(s0.animation@, now_ms);
        proof {
            lemma_update_spec_ok(s0.animation@, now_ms, h0 as int);
        }
        let mut k: usize = 0;
        while k < completed_line_blinks.len()
            invariant
                k <= completed_line_blinks@.len(),
                completed_line_blinks@ == u.1,
                forall|j: int| 0 <= j < u.1.len() ==> blink_lines_ok(#[trigger] u.1[j]@, h0 as int),
                self.wf(),
                self.current_board_height == h0,
                self.rows() == web_blinks_rows(s0.rows(), h0 as int, u.1.take(k as int)),
                web_handed(s0, *self, blink_spawns(u.1.take(k as int), h0 as int)),
                self.custom_score_system == s0.custom_score_system,
                self.fall_speed_ms == s0.fall_speed_ms,
                self.last_fall_time_ms == s0.last_fall_time_ms,
            decreases u.1.len() - k,
        {
            let ghost before = *self;
            self.finish_blink(&completed_line_blinks[k]);
            proof {
                assert(u.1.take(k + 1).drop_last() =~= u.1.take(k as int));
                lemma_web_hand_over_then(s0, before, *self, blink_spawns(u.1.take(k as int), h0 as int),
                    if lines_equal(u.1[k as int]@, h0 - 1).len() > 0 { 1nat } else { 0nat });
            }
            k = k + 1;
        }
        assert(u.1.take(u.1.len() as int) =~= u.1);
        let ghost r1 = self.rows();
        let ghost mid = *self;
        let mut k: usize = 0;
        while k < completed_push_downs.len()
            invariant
                k <= completed_push_downs@.len(),
                completed_push_downs@ == u.2,
                forall|j: int| 0 <= j < u.2.len() ==> #[trigger] u.2[j] < BOARD_HEIGHT,
                self.wf(),
                (self.rows(), self.current_board_height as int) == web_push_fold(r1, h0 as int, u.2.take(k as int)),
                *self == (WebGameState {
                    board: self.board,
                    current_board_height: self.current_board_height,
                    animation: self.animation,
                    ..mid
                }),
            decreases u.2.len() - k,
        {
            let y = completed_push_downs[k];
            proof {
                assert(u.2.take(k + 1).drop_last() =~= u.2.take(k as int));
            }
            match process_push_down_step(&mut self.board, &mut self.current_board_height, y) {
                PushDownStepResult::Completed => {},
                PushDownStepResult::Moved { new_gray_line_y } => {
                    self.animation.push(Animation::PushDown { gray_line_y: new_gray_line_y, start_time: now_ms });
                },
            }
            k = k + 1;
        }
        assert(u.2.take(u.2.len() as int) =~= u.2);
        let ghost before_keep = *self;
        self.animation = continuing_animations;
        proof {
            lemma_web_hand_over_same(s0, mid, *self, blink_spawns(u.1, h0 as int));
        }
        if self.animation.len() == 0 {
            let ghost before = *self;
            self.spawn_piece();
            proof {
                lemma_web_hand_over_step(s0, before, *self, blink_spawns(u.1, h0 as int));
            }
        }
    }

    /// The automatic step the browser calls regularly (see
    /// `web_auto_fall_result`).  The score must leave room for the most a
    /// lock can score (`MAX_LOCK_POINTS`, see `lemma_web_lock_points_bounded`)
    /// because the piece that locks may be one drawn at random during the
    /// animation step.
    pub fn auto_fall(&mut self, now_ms: u64) -> (r: bool)
        requires
            old(self).wf(),
            old(self).game_mode == 1 ==> {
                &&& started_by(old(self).animation@, now_ms)
                &&& animations_ok(old(self).animation@, old(self).current_board_height as int)
                &&& old(self).last_fall_time_ms <= now_ms
                &&& old(self).custom_score_system.score.value() + MAX_LOCK_POINTS <= u32::MAX
            },
        ensures
            final(self).wf(),
            web_auto_fall_result(*old(self), *final(self), now_ms, r),
    {
        if self.game_mode != 1 {
            return false;
        }
        self.update_animation(now_ms);
        let ghost m = *self;
        assert(web_animated(*old(self), m, now_ms));
        if self.animation.len() > 0 {
            return true;
        }
        if now_ms - self.last_fall_time_ms >= self.fall_speed_ms {
            let mut target: Option<(i8, i8, u8)> = None;
            let mut has_piece = false;
            if let Some(piece) = &self.current_piece {
                has_piece = true;
                let x0 = piece.x as i8;
                let new_y = piece.y as i8 + 1;
                if self.is_valid_position(piece, x0, new_y, piece.rotation) {
                    target = Some((x0, new_y, piece.rotation));
                }
            }
            if has_piece {
                match target {
                    Some((x, y, rot)) => {
                        proof {
                            lemma_i8_round_trip(x);
                            lemma_i8_round_trip(y);
                            let p = m.current_piece.unwrap();
                            lemma_web_valid_bounds(m.rows(), m.current_board_height as int, p.shape, x as int, y as int, rot);
                        }
                        self.place_current(x, y, rot);
                    },
                    None => {
                        proof {
                            lemma_web_lock_points_bounded(m);
                        }
                        self.lock_piece(now_ms);
                    },
                }
            } else {
                self.spawn_piece();
            }
            let ghost l = *self;
            self.last_fall_time_ms = now_ms;
            assert(*self == (WebGameState { last_fall_time_ms: now_ms, ..l }));
            return true;
        }
        false
    }

    /// The total score.
    pub fn get_score(&self) -> (score: u32)
        ensures
            score == self.custom_score_system.score.value(),
    {
        self.custom_score_system.score.total()
    }

    /// The mode: 0 title, 1 play, 2 game over.
    pub fn get_game_mode(&self) -> (mode: u8)
        ensures
            mode == self.game_mode,
    {
        self.game_mode
    }

    /// The cells of the board row by row, as codes (see `web_cell_code`).
    pub fn get_board_state(&self) -> (codes: Vec<u8>)
        requires
            self.wf(),
        ensures
            codes@.len() == BOARD_HEIGHT * BOARD_WIDTH,
            forall|i: int| 0 <= i < BOARD_HEIGHT * BOARD_WIDTH ==> #[trigger] codes@[i] == web_cell_code(cell_at(self.rows(), i)),
    {
        let mut result: Vec<u8> = Vec::new();
        let mut y: usize = 0;
        while y < BOARD_HEIGHT
            invariant
                y <= BOARD_HEIGHT,
                self.wf(),
                result@.len() == y * BOARD_WIDTH,
                forall|i: int| 0 <= i < y * BOARD_WIDTH ==> #[trigger] result@[i] == web_cell_code(cell_at(self.rows(), i)),
            decreases BOARD_HEIGHT - y,
        {
            let mut x: usize = 0;
            while x < BOARD_WIDTH
                invariant
                    x <= BOARD_WIDTH,
                    y < BOARD_HEIGHT,
                    self.wf(),
                    result@.len() == y * BOARD_WIDTH + x,
                    forall|i: int| 0 <= i < y * BOARD_WIDTH + x ==> #[trigger] result@[i] == web_cell_code(cell_at(self.rows(), i)),
                decreases BOARD_WIDTH - x,
            {
                proof {
                    crate::connectivity::lemma_index_parts(x as int, y as int);
                    assert(self.rows()[y as int] == self.board@[y as int]@);
                }
                let code: u8 = match self.board[y][x] {
                    Cell::Empty => 0,
                    Cell::Occupied(color) => match color {
                        GameColor::Cyan => 1,
                        GameColor::Magenta => 2,
                        GameColor::Yellow => 3,
                        _ => 4,
                    },
                    Cell::Connected { color, .. } => match color {
                        GameColor::Cyan => 10,
                        GameColor::Magenta => 11,
                        GameColor::Yellow => 12,
                        _ => 13,
                    },
                    Cell::Solid => 21,
                };
                result.push(code);
                x += 1;
            }
            y += 1;
        }
        result
    }

    /// Time between two automatic falls, in milliseconds.
    pub fn get_fall_speed_ms(&self) -> (ms: u64)
        ensures
            ms == self.fall_speed_ms,
    {
        self.fall_speed_ms
    }

    /// Sets the time between two automatic falls.
    pub fn set_fall_speed_ms(&mut self, ms: u64)
        ensures
            *final(self) == (WebGameState { fall_speed_ms: ms, ..*old(self) }),
    {
        self.fall_speed_ms = ms;
    }

    /// Height of the play area.
    pub fn get_current_board_height(&self) -> (h: usize)
        ensures
            h == self.current_board_height,
    {
        self.current_board_height
    }

    /// Sets the height of the play area, at most the board's height.
    pub fn set_current_board_height(&mut self, height: usize)
        requires
            old(self).wf(),
        ensures
            final(self).wf(),
            *final(self) == (WebGameState {
                current_board_height: if height <= BOARD_HEIGHT { height } else { BOARD_HEIGHT },
                ..*old(self)
            }),
    {
        self.current_board_height = if height <= BOARD_HEIGHT { height } else { BOARD_HEIGHT };
    }

    /// Where `piece` would land dropped straight down: none when it cannot
    /// move down at all, otherwise its column and the row where it stops.
    pub fn calculate_ghost_position(&self, piece: &SimpleTetromino) -> (g: Option<(i8, i8)>)
        requires
            self.wf(),
            web_piece_ok(*piece),
        ensures
            g is None <==> !web_valid_below(self.rows(), self.current_board_height as int, *piece, 1),
            g matches Some(t) ==> t.0 == px(*piece)
                && web_drop_stops(self.rows(), self.current_board_height as int, *piece, t.1 - py(*piece)),
    {
        let x0 = piece.x as i8;
        let y0 = piece.y as i8;
        let ghost rows = self.rows();
        let ghost h = self.current_board_height as int;
        let mut ghost_y: i8 = y0;
        let mut going = true;
        while going
            invariant
                self.wf(),
                rows == self.rows(),
                h == self.current_board_height,
                web_piece_ok(*piece),
                x0 == px(*piece),
                y0 == py(*piece),
                y0 <= ghost_y <= 19,
                forall|j: int| 1 <= j <= ghost_y - y0 ==> #[trigger] web_valid_below(rows, h, *piece, j),
                !going ==> !web_valid_below(rows, h, *piece, ghost_y - y0 + 1),
            decreases 20 - ghost_y + (if going { 1int } else { 0int }),
        {
            if self.is_valid_position(piece, x0, ghost_y + 1, piece.rotation) {
                proof {
                    lemma_web_valid_bounds(rows, h, piece.shape, x0 as int, ghost_y + 1, piece.rotation);
                    assert(web_valid_below(rows, h, *piece, ghost_y + 1 - y0));
                }
                ghost_y = ghost_y + 1;
            } else {
                going = false;
            }
        }
        if ghost_y == y0 {
            None
        } else {
            assert(web_valid_below(rows, h, *piece, 1));
            Some((x0, ghost_y))
        }
    }

    /// The joined blocks of the play area, row by row, each as its column,
    /// row and count.
    pub fn get_connected_cells_info(&self) -> (info: Vec<i32>)
        requires
            self.wf(),
        ensures
            info@ == connected_info(self.rows(), self.current_board_height * BOARD_WIDTH as int),
    {
        let mut result: Vec<i32> = Vec::new();
        let h = self.current_board_height;
        let mut y: usize = 0;
        while y < h
            invariant
                y <= h <= BOARD_HEIGHT,
                h == self.current_board_height,
                self.wf(),
                result@ == connected_info(self.rows(), y * 10),
            decreases h - y,
        {
            let mut x: usize = 0;
            while x < BOARD_WIDTH
                invariant
                    x <= BOARD_WIDTH,
                    y < h <= BOARD_HEIGHT,
                    self.wf(),
                    result@ == connected_info(self.rows(), y * 10 + x),
                decreases BOARD_WIDTH - x,
            {
                proof {
                    crate::connectivity::lemma_index_parts(x as int, y as int);
                    assert(self.rows()[y as int] == self.board@[y as int]@);
                    assert((y * 10 + x) % 10 == x && (y * 10 + x) / 10 == y);
                }
                if let Cell::Connected { count, .. } = self.board[y][x] {
                    result.push(x as i32);
                    result.push(y as i32);
                    result.push(count as i32);
                    assert(result@ =~= connected_info(self.rows(), y * 10 + x + 1));
                }
                x += 1;
            }
            y += 1;
        }
        result
    }

    /// The current piece as column, row, rotation state and shape; empty
    /// without one.
    pub fn get_current_piece_info(&self) -> (info: Vec<i32>)
        ensures
            info@ == match self.current_piece {
                Some(p) => seq![p.x as i32, p.y as i32, p.rotation as i32, p.shape as i32],
                None => Seq::<i32>::empty(),
            },
    {
        match &self.current_piece {
            Some(piece) => {
                let v = vec![piece.x as i32, piece.y as i32, piece.rotation as i32, piece.shape as i32];
                assert(v@ =~= seq![piece.x as i32, piece.y as i32, piece.rotation as i32, piece.shape as i32]);
                v
            },
            None => Vec::new(),
        }
    }

    /// The longest chains recorded for cyan, magenta and yellow.
    pub fn get_max_chains(&self) -> (chains: Vec<u32>)
        ensures
            chains@ == seq![
                self.custom_score_system.max_chains.cyan,
                self.custom_score_system.max_chains.magenta,
                self.custom_score_system.max_chains.yellow,
            ],
    {
        let m = &self.custom_score_system.max_chains;
        let v = vec![m.cyan, m.magenta, m.yellow];
        assert(v@ =~= seq![m.cyan, m.magenta, m.yellow]);
        v
    }

    /// Drops the current piece as far as it goes and locks it there, when
    /// it can move down at all; returns whether it did.
    pub fn hard_drop(&mut self, now_ms: u64) -> (r: bool)
        requires
            old(self).wf(),
            hard_drop_fits(*old(self)),
        ensures
            final(self).wf(),
            web_hard_drop_result(*old(self), *final(self), now_ms, r),
    {
        let mut target: Option<(i8, i8, u8)> = None;
        let ghost mut dist: int = 0;
        if let Some(piece) = &self.current_piece {
            let x0 = piece.x as i8;
            let y0 = piece.y as i8;
            let ghost rows = self.rows();
            let ghost h = self.current_board_height as int;
            let mut d: i8 = 0;
            let mut going = true;
            while going
                invariant
                    self.wf(),
                    rows == self.rows(),
                    h == self.current_board_height,
                    self.current_piece == Some(*piece),
                    web_piece_ok(*piece),
                    x0 == px(*piece),
                    y0 == py(*piece),
                    y0 >= -108,
                    0 <= d,
                    y0 + d <= 19,
                    forall|j: int| 1 <= j <= d ==> #[trigger] web_valid_below(rows, h, *piece, j),
                    !going ==> !web_valid_below(rows, h, *piece, d + 1),
                decreases 20 - (y0 + d) + (if going { 1int } else { 0int }),
            {
                if self.is_valid_position(piece, x0, y0 + d + 1, piece.rotation) {
                    proof {
                        lemma_web_valid_bounds(rows, h, piece.shape, x0 as int, y0 + d + 1, piece.rotation);
                    }
                    d = d + 1;
                } else {
                    going = false;
                }
            }
            assert(web_drop_stops(rows, h, *piece, d as int));
            if d > 0 {
                target = Some((x0, y0 + d, piece.rotation));
                proof {
                    dist = d as int;
                }
            }
        }
        match target {
            Some((x, y, rot)) => {
                proof {
                    lemma_i8_round_trip(x);
                    lemma_i8_round_trip(y);
                }
                self.place_current(x, y, rot);
                assert(*self == web_dropped(*old(self), dist));
                self.lock_piece(now_ms);
                true
            },
            None => false,
        }
    }
}

/// `t` is `s` after `WebGameState::start_game` at `now`.
pub open spec fn web_started(s: WebGameState, t: WebGameState, now: u64) -> bool {
    &&& t.game_mode == 1
    &&& t.rows() == empty_rows()
    &&& t.current_board_height == BOARD_HEIGHT
    &&& t.fall_speed_ms == FALL_SPEED_START_MS
    &&& t.last_fall_time_ms == now
    &&& t.animation@.len() == 0
    &&& t.custom_score_system.score.value() == 0
    &&& t.custom_score_system.max_chains == (ColorMaxChains { cyan: 0, magenta: 0, yellow: 0 })
    &&& t.custom_score_system.chain_bonus == 0
    &&& t.current_piece matches Some(p) && web_fresh(p)
    &&& t.next_piece matches Some(q) && web_fresh(q)
    &&& exists|b: WebTetrominoBag, s1: TetrominoShape, s2: TetrominoShape|
        #[trigger] bag_dealt(s.tetromino_bag, b, s1) && #[trigger] bag_dealt(b, t.tetromino_bag, s2)
            && shape_code(s1) == t.current_piece.unwrap().shape
            && shape_code(s2) == t.next_piece.unwrap().shape
}

} // verus!
