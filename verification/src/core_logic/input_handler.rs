//! Player commands applied to a game state: one pure step per command, in
//! the title screen, during play and after the game is over.
use vstd::prelude::*;
use crate::cell::fixed_rows;
use crate::config::{BOARD_HEIGHT, BOARD_WIDTH};
use crate::core_logic::animation_logic::{AnimationState, AnimationType, AnimationMetadata};
use crate::core_logic::board_logic::{Point, complete_upto, find_complete_lines, used_height};
use crate::core_logic::game_state::{
    CoreGameState, CoreGameEvent, CoreGameMode, MAX_ANIMATIONS, placeable, piece_cells, placed_rows,
    lemma_used_height_bounded,
};
use crate::game_input::GameInput;
use crate::tetromino::{Tetromino, SPAWN_X, lemma_shape_offsets_small, properly_colored, piece_colors_only};

verus! {

/// A state after a command, what happened, whether the command was used and
/// whether the screen needs a redraw.
#[derive(Debug)]
pub struct InputProcessResult {
    pub new_state: CoreGameState,
    pub events: Vec<CoreGameEvent>,
    pub input_consumed: bool,
    pub render_required: bool,
}

/// A piece that can be moved and turned: blocks where its shape puts them,
/// and a position well inside the range of `i8`.
pub open spec fn piece_ok(p: Tetromino) -> bool {
    &&& p.in_shape()
    &&& -100 <= p.position().0 <= 100
    &&& -100 <= p.position().1 <= 100
}

/// The state is well formed and its current piece, if any, can be moved.
pub open spec fn state_ok(s: CoreGameState) -> bool {
    &&& s.wf()
    &&& (s.current_piece matches Some(p) ==> piece_ok(p))
}

/// A freshly spawned piece: in rotation state 0 at the spawn position,
/// coloured with piece colours, no two touching blocks alike.
pub open spec fn fresh_piece(t: Tetromino) -> bool {
    &&& t.in_shape()
    &&& t.rotation() == 0
    &&& t.position() == (SPAWN_X, 0i8)
    &&& piece_colors_only(t.blocks_seq())
    &&& properly_colored(t.blocks_seq())
}

/// `after` is `before` with a newly drawn piece as current piece.
pub open spec fn spawned(after: CoreGameState, before: CoreGameState) -> bool {
    &&& after.current_piece matches Some(t) && fresh_piece(t) && after.bag.is_draw_from(t.piece_shape(), before.bag)
    &&& after == (CoreGameState { current_piece: after.current_piece, bag: after.bag, ..before })
}

/// The state after `piece` has been written to the board of `s`.
pub open spec fn after_placing(s: CoreGameState, piece: Tetromino, board: crate::core_logic::board_logic::FixedBoard) -> CoreGameState {
    CoreGameState {
        board,
        current_piece: None,
        pieces_placed: (s.pieces_placed + 1) as u32,
        current_board_height: used_height(fixed_rows(board), BOARD_HEIGHT as int) as usize,
        ..s
    }
}

/// Locking `piece` in `before` at time `now` gave `after` and the events
/// `ev`: the piece is written to the board (`mid`); a `PieceLocked` event
/// names its first block and shape; when lines are complete a blink of them
/// starts (with a `LinesCleared` and an `AnimationStarted` event), otherwise
/// a new piece comes, and when it has no room the game is over (with a
/// `GameOver` and a `GameModeChanged` event).
pub open spec fn lock_outcome(before: CoreGameState, piece: Tetromino, now: u64, after: CoreGameState, ev: Seq<CoreGameEvent>) -> bool {
    exists|mid: CoreGameState| {
        &&& fixed_rows(mid.board) == placed_rows(fixed_rows(before.board), piece_cells(piece))
        &&& mid == after_placing(before, piece, mid.board)
        &&& ev.len() >= 1
        &&& ev[0] == CoreGameEvent::PieceLocked {
            position: Point(piece.block_at(0).0.0 as usize, piece.block_at(0).0.1 as usize),
            shape: piece.piece_shape(),
        }
        &&& {
            let lines = complete_upto(fixed_rows(mid.board), mid.current_board_height as int);
            if lines.len() > 0 {
                &&& ev.len() == 3
                &&& ev[1] matches CoreGameEvent::LinesCleared { lines: l, is_bottom }
                    && l@ == lines && is_bottom == lines.contains((BOARD_HEIGHT - 1) as usize)
                &&& ev[2] == CoreGameEvent::AnimationStarted { animation_type: AnimationType::LineBlink }
                &&& after.animations@ == if mid.animations_count < MAX_ANIMATIONS {
                    mid.animations@.push(AnimationState {
                        animation_type: AnimationType::LineBlink,
                        start_time_ms: now,
                        lines: after.animations@.last().lines,
                        current_step: 0,
                        is_completed: false,
                        metadata: AnimationMetadata { gray_line_y: None, chain_bonus_consumed: 0 },
                    })
                } else {
                    mid.animations@
                }
                &&& (mid.animations_count < MAX_ANIMATIONS ==> after.animations@.last().lines@ == lines)
                &&& after == (CoreGameState { animations: after.animations, animations_count: after.animations_count, ..mid })
            } else {
                exists|sp: CoreGameState| {
                    &&& spawned(sp, mid)
                    &&& sp.current_piece matches Some(t) && if placeable(fixed_rows(sp.board), piece_cells(t)) {
                        &&& after == sp
                        &&& ev.len() == 1
                    } else {
                        &&& after == (CoreGameState { game_mode: CoreGameMode::GameOver, current_piece: None, ..sp })
                        &&& ev.len() == 3
                        &&& ev[1] == CoreGameEvent::GameOver
                        &&& ev[2] == CoreGameEvent::GameModeChanged { new_mode: CoreGameMode::GameOver }
                    }
                }
            }
        }
    }
}

/// Writes the current piece of `state` to the board and goes on as
/// `lock_outcome` describes; the events are appended to `events`.
fn lock_current_piece(state: CoreGameState, current_time_ms: u64, events: &mut Vec<CoreGameEvent>) -> (s: CoreGameState)
    requires
        state_ok(state),
        state.pieces_placed < u32::MAX,
        state.current_piece is Some,
    ensures
        state_ok(s),
        exists|ev: Seq<CoreGameEvent>| {
            &&& final(events)@ == old(events)@ + ev
            &&& lock_outcome(state, state.current_piece->0, current_time_ms, s, ev)
        },
{
    let ghost before = state;
    let ghost start = events@;
    let mut state = state;
    let piece = match state.current_piece.take() {
        Some(p) => p,
        None => { return state; },
    };
    proof {
        lemma_piece_ok_fits(piece);
    }
    state = state.place_piece(&piece);
    let ghost mid = state;
    let blocks = piece.iter_blocks();
    let first_block = blocks[0];
    events.push(CoreGameEvent::PieceLocked {
        position: Point(first_block.0.0 as usize, first_block.0.1 as usize),
        shape: piece.shape,
    });
    let complete_lines = find_complete_lines(state.board, state.current_board_height);
    if complete_lines.len() > 0 {
        let lines_for_event = complete_lines.clone();
        let is_bottom = vec_has(&complete_lines, BOARD_HEIGHT - 1);
        proof {
            assert(lines_for_event@ =~= complete_lines@);
        }
        state = state.start_line_blink(complete_lines, current_time_ms);
        events.push(CoreGameEvent::LinesCleared { lines: lines_for_event, is_bottom });
        events.push(CoreGameEvent::AnimationStarted { animation_type: AnimationType::LineBlink });
        proof {
            let ev = events@.subrange(start.len() as int, events@.len() as int);
            assert(events@ =~= start + ev);
            assert(fixed_rows(mid.board) == placed_rows(fixed_rows(before.board), piece_cells(piece)));
            assert(mid == after_placing(before, piece, mid.board));
            assert(ev[0] == CoreGameEvent::PieceLocked {
                position: Point(piece.block_at(0).0.0 as usize, piece.block_at(0).0.1 as usize),
                shape: piece.piece_shape(),
            });
            let lines = complete_upto(fixed_rows(mid.board), mid.current_board_height as int);
            assert(lines.len() > 0);
            assert(ev.len() == 3);
            assert(ev[1] matches CoreGameEvent::LinesCleared { lines: l, is_bottom }
                    && l@ == lines && is_bottom == lines.contains((BOARD_HEIGHT - 1) as usize));
            assert(lock_outcome(before, piece, current_time_ms, state, ev));
        }
        state
    } else {
        state = state.spawn_piece();
        let ghost sp = state;
        let mut game_over = false;
        match &state.current_piece {
            Some(new_piece) => {
                proof {
                    lemma_piece_ok_fits(*new_piece);
                }
                if !state.can_place_piece(new_piece) {
                    game_over = true;
                }
            },
            None => {},
        }
        if game_over {
            state.game_mode = CoreGameMode::GameOver;
            state.current_piece = None;
            events.push(CoreGameEvent::GameOver);
            events.push(CoreGameEvent::GameModeChanged { new_mode: CoreGameMode::GameOver });
        }
        proof {
            let ev = events@.subrange(start.len() as int, events@.len() as int);
            assert(events@ =~= start + ev);
            assert(spawned(sp, mid));
            let t = sp.current_piece->0;
            assert(game_over == !placeable(fixed_rows(sp.board), piece_cells(t)));
            if game_over {
                assert(state == (CoreGameState { game_mode: CoreGameMode::GameOver, current_piece: None, ..sp }));
                assert(ev.len() == 3);
            } else {
                assert(state == sp);
                assert(ev.len() == 1);
            }
            assert(fixed_rows(mid.board) == placed_rows(fixed_rows(before.board), piece_cells(piece)));
            assert(mid == after_placing(before, piece, mid.board));
            assert(lock_outcome(before, piece, current_time_ms, state, ev));
        }
        state
    }
}

/// Whether `v` holds `x`.
fn vec_has(v: &Vec<usize>, x: usize) -> (r: bool)
    ensures
        r == v@.contains(x),
{
    let mut i: usize = 0;
    while i < v.len()
        invariant
            i <= v@.len(),
            forall|j: int| 0 <= j < i ==> v@[j] != x,
        decreases v@.len() - i,
    {
        if v[i] == x {
            return true;
        }
        i += 1;
    }
    false
}

/// A piece whose blocks are where its shape puts them, and whose position is
/// well inside `i8`, has board coordinates that fit in `i8`.
pub proof fn lemma_piece_ok_fits(p: Tetromino)
    requires
        piece_ok(p),
    ensures
        p.fits(),
        p.blocks_seq().len() == 4,
{
    assert forall|i: int| 0 <= i < p.blocks_seq().len() implies {
        &&& p.position().0 + (#[trigger] p.blocks_seq()[i]).0.0 <= i8::MAX
        &&& p.position().1 + p.blocks_seq()[i].0.1 <= i8::MAX
        &&& p.position().0 + p.blocks_seq()[i].0.0 >= i8::MIN
        &&& p.position().1 + p.blocks_seq()[i].0.1 >= i8::MIN
    } by {
        lemma_shape_offsets_small(p.piece_shape(), p.rotation() as int, i);
    }
}

/// Nothing changed: the same state, no event, no redraw; `consumed` tells
/// whether the command still counts as used.
pub open spec fn nothing_happens(s: CoreGameState, r: InputProcessResult, consumed: bool) -> bool {
    &&& r.new_state == s
    &&& r.events@.len() == 0
    &&& r.input_consumed == consumed
    &&& !r.render_required
}

/// A state as `CoreGameState::new` makes it.
pub open spec fn is_new_game(s: CoreGameState) -> bool {
    &&& s.wf()
    &&& s.board == crate::core_logic::game_state::empty_board()
    &&& s.current_board_height == 0
    &&& s.animations@.len() == 0
    &&& s.current_piece is None
    &&& s.game_mode == CoreGameMode::Title
    &&& s.score == 0
    &&& s.lines_cleared == 0
    &&& s.chain_bonus == 0
    &&& s.max_chains == (crate::core_logic::game_state::CoreColorMaxChains {
        red: 1, green: 1, blue: 1, cyan: 1, magenta: 1, yellow: 1, grey: 1,
    })
    &&& s.pieces_placed == 0
    &&& s.elapsed_time_ms == 0
    &&& !s.enable_erase_line
}

/// A command in the title screen: Enter starts a game with a new piece, the
/// erase-line switch flips, Quit is taken without effect, anything else is
/// ignored.
pub open spec fn title_outcome(s: CoreGameState, input: GameInput, r: InputProcessResult) -> bool {
    match input {
        GameInput::Restart => {
            &&& spawned(r.new_state, CoreGameState { game_mode: CoreGameMode::Playing, ..s })
            &&& r.events@ == seq![CoreGameEvent::GameModeChanged { new_mode: CoreGameMode::Playing }]
            &&& r.input_consumed && r.render_required
        },
        GameInput::ToggleEraseLine => {
            &&& r.new_state == (CoreGameState { enable_erase_line: !s.enable_erase_line, ..s })
            &&& r.events@.len() == 0
            &&& r.input_consumed && r.render_required
        },
        GameInput::Quit => nothing_happens(s, r, true),
        _ => nothing_happens(s, r, false),
    }
}

/// The moved or turned piece `c` replaces the current piece when it has
/// room; otherwise nothing happens.
pub open spec fn try_outcome(s: CoreGameState, c: Tetromino, r: InputProcessResult) -> bool {
    if placeable(fixed_rows(s.board), piece_cells(c)) {
        &&& r.new_state == (CoreGameState { current_piece: Some(c), ..s })
        &&& r.events@.len() == 0
        &&& r.input_consumed && r.render_required
    } else {
        nothing_happens(s, r, false)
    }
}

/// Board coordinates and colours of the blocks of `p` moved down `j` rows.
pub open spec fn cells_below(p: Tetromino, j: int) -> Seq<((i8, i8), crate::game_color::GameColor)> {
    Seq::new(p.blocks_seq().len(), |i: int| (
        ((p.position().0 + p.blocks_seq()[i].0.0) as i8, (p.position().1 + j + p.blocks_seq()[i].0.1) as i8),
        p.blocks_seq()[i].1,
    ))
}

/// Dropped straight down, `p` comes to rest `n` rows lower: it has room at
/// each of the first `n` rows below and none at the next.
pub open spec fn drop_lands(rows: Seq<Seq<crate::cell::Cell>>, p: Tetromino, n: int) -> bool {
    &&& n >= 0
    &&& forall|j: int| 1 <= j <= n ==> placeable(rows, #[trigger] cells_below(p, j))
    &&& !placeable(rows, cells_below(p, n + 1))
}

/// A command during play.  While an animation runs, or without a current
/// piece, nothing happens.  Left and right move the piece and the two turns
/// turn it when it has room; a soft drop moves it down, or locks it where it
/// is when it has no room; a hard drop moves it down as far as it goes and
/// locks it; pause goes back to the title screen; Quit is taken without
/// effect; anything else is ignored.
pub open spec fn playing_outcome(s: CoreGameState, input: GameInput, now: u64, r: InputProcessResult) -> bool {
    if s.animations_count > 0 || s.current_piece is None {
        nothing_happens(s, r, false)
    } else {
        let p = s.current_piece->0;
        match input {
            GameInput::MoveLeft => exists|c: Tetromino| c.is_move_of(p, -1, 0) && try_outcome(s, c, r),
            GameInput::MoveRight => exists|c: Tetromino| c.is_move_of(p, 1, 0) && try_outcome(s, c, r),
            GameInput::RotateClockwise => exists|c: Tetromino| c.is_cw_turn_of(p) && try_outcome(s, c, r),
            GameInput::RotateCounterClockwise => exists|c: Tetromino| c.is_ccw_turn_of(p) && try_outcome(s, c, r),
            GameInput::SoftDrop => exists|c: Tetromino| {
                &&& c.is_move_of(p, 0, 1)
                &&& if placeable(fixed_rows(s.board), piece_cells(c)) {
                    try_outcome(s, c, r)
                } else {
                    &&& lock_outcome(s, p, now, r.new_state, r.events@)
                    &&& r.input_consumed && r.render_required
                }
            },
            GameInput::HardDrop => exists|d: Tetromino, n: int| {
                &&& d.is_move_of(p, 0, n)
                &&& drop_lands(fixed_rows(s.board), p, n)
                &&& lock_outcome(CoreGameState { current_piece: Some(d), ..s }, d, now, r.new_state, r.events@)
                &&& r.input_consumed && r.render_required
            },
            GameInput::Pause => {
                &&& r.new_state == (CoreGameState { game_mode: CoreGameMode::Title, ..s })
                &&& r.events@ == seq![CoreGameEvent::GameModeChanged { new_mode: CoreGameMode::Title }]
                &&& r.input_consumed && r.render_required
            },
            GameInput::Quit => nothing_happens(s, r, true),
            _ => nothing_happens(s, r, false),
        }
    }
}

/// A command after the game is over: Enter goes back to the title screen
/// with a new game, Quit is taken without effect, anything else is ignored.
pub open spec fn game_over_outcome(s: CoreGameState, input: GameInput, r: InputProcessResult) -> bool {
    match input {
        GameInput::Restart => {
            &&& is_new_game(r.new_state)
            &&& r.events@ == seq![CoreGameEvent::GameModeChanged { new_mode: CoreGameMode::Title }]
            &&& r.input_consumed && r.render_required
        },
        GameInput::Quit => nothing_happens(s, r, true),
        _ => nothing_happens(s, r, false),
    }
}

/// The command `input` at time `now` took `state` to `r` by the rules of the
/// state's mode.
pub open spec fn input_outcome(state: CoreGameState, input: GameInput, now: u64, r: InputProcessResult) -> bool {
    match state.game_mode {
        CoreGameMode::Title => title_outcome(state, input, r),
        CoreGameMode::Playing => playing_outcome(state, input, now, r),
        CoreGameMode::GameOver => game_over_outcome(state, input, r),
    }
}

/// Applies the command `input` at time `current_time_ms` to `state`, by the
/// rules of its mode (see `title_outcome`, `playing_outcome` and
/// `game_over_outcome`).
pub fn process_input(state: CoreGameState, input: GameInput, current_time_ms: u64) -> (r: InputProcessResult)
    requires
        state_ok(state),
        state.pieces_placed < u32::MAX,
    ensures
        state_ok(r.new_state),
        input_outcome(state, input, current_time_ms, r),
{
    match state.game_mode {
        CoreGameMode::Title => process_title_input(state, input, current_time_ms),
        CoreGameMode::Playing => process_playing_input(state, input, current_time_ms),
        CoreGameMode::GameOver => process_game_over_input(state, input, current_time_ms),
    }
}

/// A command in the title screen (see `title_outcome`).
fn process_title_input(state: CoreGameState, input: GameInput, current_time_ms: u64) -> (r: InputProcessResult)
    requires
        state_ok(state),
    ensures
        state_ok(r.new_state),
        title_outcome(state, input, r),
{
    let mut state = state;
    let mut events: Vec<CoreGameEvent> = Vec::new();
    let mut input_consumed = false;
    let mut render_required = false;
    match input {
        GameInput::Restart => {
            state.game_mode = CoreGameMode::Playing;
            state = state.spawn_piece();
            events.push(CoreGameEvent::GameModeChanged { new_mode: CoreGameMode::Playing });
            input_consumed = true;
            render_required = true;
            proof {
                assert(events@ =~= seq![CoreGameEvent::GameModeChanged { new_mode: CoreGameMode::Playing }]);
                let t = state.current_piece->0;
                lemma_fresh_piece_ok(t);
            }
        },
        GameInput::ToggleEraseLine => {
            state.enable_erase_line = !state.enable_erase_line;
            input_consumed = true;
            render_required = true;
        },
        GameInput::Quit => {
            input_consumed = true;
        },
        _ => {},
    }
    InputProcessResult { new_state: state, events, input_consumed, render_required }
}

/// A freshly spawned piece can be moved.
proof fn lemma_fresh_piece_ok(t: Tetromino)
    requires
        fresh_piece(t),
    ensures
        piece_ok(t),
{
}

/// A command after the game is over (see `game_over_outcome`).
fn process_game_over_input(state: CoreGameState, input: GameInput, current_time_ms: u64) -> (r: InputProcessResult)
    requires
        state_ok(state),
    ensures
        state_ok(r.new_state),
        game_over_outcome(state, input, r),
{
    let mut state = state;
    let mut events: Vec<CoreGameEvent> = Vec::new();
    let mut input_consumed = false;
    let mut render_required = false;
    match input {
        GameInput::Restart => {
            state = CoreGameState::new();
            state.game_mode = CoreGameMode::Title;
            events.push(CoreGameEvent::GameModeChanged { new_mode: CoreGameMode::Title });
            input_consumed = true;
            render_required = true;
            proof {
                assert(events@ =~= seq![CoreGameEvent::GameModeChanged { new_mode: CoreGameMode::Title }]);
            }
        },
        GameInput::Quit => {
            input_consumed = true;
        },
        _ => {},
    }
    InputProcessResult { new_state: state, events, input_consumed, render_required }
}

/// The current piece replaced by `candidate` when it has room (see
/// `try_outcome`).
fn try_replace(state: CoreGameState, candidate: Tetromino) -> (r: InputProcessResult)
    requires
        state_ok(state),
        candidate.in_shape(),
        -101 <= candidate.position().0 <= 101,
        -101 <= candidate.position().1 <= 101,
    ensures
        state_ok(r.new_state),
        try_outcome(state, candidate, r),
{
    let mut state = state;
    proof {
        lemma_near_piece_fits(candidate);
    }
    if state.can_place_piece(&candidate) {
        proof {
            lemma_placeable_on_board(fixed_rows(state.board), candidate);
        }
        state.current_piece = Some(candidate);
        InputProcessResult { new_state: state, events: Vec::new(), input_consumed: true, render_required: true }
    } else {
        InputProcessResult { new_state: state, events: Vec::new(), input_consumed: false, render_required: false }
    }
}

/// A piece close to `i8`'s range in position still has board coordinates
/// that fit.
pub(crate) proof fn lemma_near_piece_fits(p: Tetromino)
    requires
        p.in_shape(),
        -101 <= p.position().0 <= 101,
        -101 <= p.position().1 <= 101,
    ensures
        p.fits(),
{
    assert forall|i: int| 0 <= i < p.blocks_seq().len() implies {
        &&& p.position().0 + (#[trigger] p.blocks_seq()[i]).0.0 <= i8::MAX
        &&& p.position().1 + p.blocks_seq()[i].0.1 <= i8::MAX
        &&& p.position().0 + p.blocks_seq()[i].0.0 >= i8::MIN
        &&& p.position().1 + p.blocks_seq()[i].0.1 >= i8::MIN
    } by {
        lemma_shape_offsets_small(p.piece_shape(), p.rotation() as int, i);
    }
}

/// A piece that has room on the board lies within it, so its position is
/// small.
proof fn lemma_placeable_on_board(rows: Seq<Seq<crate::cell::Cell>>, p: Tetromino)
    requires
        p.in_shape(),
        p.fits(),
        placeable(rows, piece_cells(p)),
    ensures
        -3 <= p.position().0 < BOARD_WIDTH,
        -3 <= p.position().1 < BOARD_HEIGHT,
        piece_ok(p),
{
    lemma_shape_offsets_small(p.piece_shape(), p.rotation() as int, 0);
    assert(piece_cells(p)[0] == p.block_at(0));
    assert(crate::core_logic::game_state::cell_free(rows, piece_cells(p)[0].0));
}

/// A piece moved straight down by `j` rows has, as its board cells, the
/// cells of the original piece `j` rows lower.
proof fn lemma_moved_cells(p: Tetromino, t: Tetromino, j: int)
    requires
        t.is_move_of(p, 0, j),
        i8::MIN <= p.position().1 + j <= i8::MAX,
    ensures
        piece_cells(t) == cells_below(p, j),
{
    assert(piece_cells(t) =~= cells_below(p, j));
}

/// A command during play (see `playing_outcome`).
fn process_playing_input(state: CoreGameState, input: GameInput, current_time_ms: u64) -> (r: InputProcessResult)
    requires
        state_ok(state),
        state.pieces_placed < u32::MAX,
    ensures
        state_ok(r.new_state),
        playing_outcome(state, input, current_time_ms, r),
{
    if state.has_animations() {
        return InputProcessResult { new_state: state, events: Vec::new(), input_consumed: false, render_required: false };
    }
    let piece = match &state.current_piece {
        Some(p) => p.clone(),
        None => {
            return InputProcessResult { new_state: state, events: Vec::new(), input_consumed: false, render_required: false };
        },
    };
    let ghost p = state.current_piece->0;
    assert(piece.same_piece(p));
    let mut state = state;
    match input {
        GameInput::MoveLeft => {
            let moved_piece = piece.moved(-1, 0);
            assert(moved_piece.is_move_of(p, -1, 0));
            try_replace(state, moved_piece)
        },
        GameInput::MoveRight => {
            let moved_piece = piece.moved(1, 0);
            assert(moved_piece.is_move_of(p, 1, 0));
            try_replace(state, moved_piece)
        },
        GameInput::RotateClockwise => {
            let rotated_piece = piece.rotated();
            assert(rotated_piece.is_cw_turn_of(p));
            try_replace(state, rotated_piece)
        },
        GameInput::RotateCounterClockwise => {
            let rotated_piece = piece.rotated_counter_clockwise();
            assert(rotated_piece.is_ccw_turn_of(p));
            try_replace(state, rotated_piece)
        },
        GameInput::SoftDrop => {
            let moved_piece = piece.moved(0, 1);
            proof {
                lemma_near_piece_fits(moved_piece);
            }
            if state.can_place_piece(&moved_piece) {
                try_replace(state, moved_piece)
            } else {
                let mut events: Vec<CoreGameEvent> = Vec::new();
                let new_state = lock_current_piece(state, current_time_ms, &mut events);
                proof {
                    assert(moved_piece.is_move_of(p, 0, 1));
                }
                InputProcessResult { new_state, events, input_consumed: true, render_required: true }
            }
        },
        GameInput::HardDrop => {
            let ghost s0 = state;
            let ghost rows = fixed_rows(state.board);
            let mut drop_piece = piece;
            let ghost mut k: int = 0;
            let mut landed = false;
            while !landed
                invariant
                    state == s0,
                    rows == fixed_rows(state.board),
                    piece_ok(p),
                    0 <= k < 125,
                    drop_piece.is_move_of(p, 0, k),
                    drop_piece.position().0 == p.position().0,
                    drop_piece.position().1 == p.position().1 + k,
                    piece_ok(drop_piece),
                    k > 0 ==> drop_piece.position().1 < BOARD_HEIGHT,
                    forall|j: int| 1 <= j <= k ==> placeable(rows, #[trigger] cells_below(p, j)),
                    landed ==> !placeable(rows, cells_below(p, k + 1)),
                decreases (if landed { 0int } else { 1int }) + 2 * (125 - k),
            {
                let next = drop_piece.moved(0, 1);
                proof {
                    lemma_near_piece_fits(next);
                    lemma_moved_cells(p, next, k + 1);
                }
                if state.can_place_piece(&next) {
                    proof {
                        lemma_placeable_on_board(rows, next);
                    }
                    drop_piece = next;
                    proof {
                        k = k + 1;
                    }
                } else {
                    landed = true;
                }
            }
            proof {
                assert(drop_lands(rows, p, k));
            }
            state.current_piece = Some(drop_piece);
            let mut events: Vec<CoreGameEvent> = Vec::new();
            let new_state = lock_current_piece(state, current_time_ms, &mut events);
            InputProcessResult { new_state, events, input_consumed: true, render_required: true }
        },
        GameInput::Pause => {
            state.game_mode = CoreGameMode::Title;
            let mut events: Vec<CoreGameEvent> = Vec::new();
            events.push(CoreGameEvent::GameModeChanged { new_mode: CoreGameMode::Title });
            proof {
                assert(events@ =~= seq![CoreGameEvent::GameModeChanged { new_mode: CoreGameMode::Title }]);
            }
            InputProcessResult { new_state: state, events, input_consumed: true, render_required: true }
        },
        GameInput::Quit => {
            InputProcessResult { new_state: state, events: Vec::new(), input_consumed: true, render_required: false }
        },
        _ => {
            InputProcessResult { new_state: state, events: Vec::new(), input_consumed: false, render_required: false }
        },
    }
}

} // verus!
