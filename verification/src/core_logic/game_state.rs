//! The whole state of a game as one value, and the functions that take a
//! state to the next: time passing, animations starting, lines clearing,
//! pieces landing and scores changing.
use vstd::prelude::*;
use crate::cell::{Cell, fixed_rows, cell_color};
use crate::config::{BOARD_HEIGHT, BOARD_WIDTH};
use crate::core_logic::animation_logic::{
    AnimationState, AnimationType, update_all_animation_states, update_all_spec,
    create_line_blink_animation, create_push_down_animation, create_erase_line_animation,
};
use crate::core_logic::board_logic::{
    FixedBoard, Point, ConnectedComponent, used_height, calculate_board_height, analyze_lines, among_points,
    applied_cell, point_index, point_valid,
};
use crate::connectivity::num_cells;
use crate::cell::cell_at;
use crate::animation::{filled_row, lines_equal, lines_other};
use crate::game_color::GameColor;
use crate::tetromino::{Tetromino, TetrominoBag, TetrominoShape};

verus! {

/// Most animations that run at the same time.
pub const MAX_ANIMATIONS: usize = 20;

/// Mode of a game.
#[derive(Debug, Clone, Copy, PartialEq, Eq, Structural)]
pub enum CoreGameMode {
    Title,
    Playing,
    GameOver,
}

/// Number of a mode: title 0, playing 1, game over 2.
pub open spec fn mode_number(m: CoreGameMode) -> u8 {
    match m {
        CoreGameMode::Title => 0,
        CoreGameMode::Playing => 1,
        CoreGameMode::GameOver => 2,
    }
}

/// Longest chain reached so far for each tracked colour.
#[derive(Debug, Clone, Copy, PartialEq, Eq, Structural)]
pub struct CoreColorMaxChains {
    pub red: u32,
    pub green: u32,
    pub blue: u32,
    pub cyan: u32,
    pub magenta: u32,
    pub yellow: u32,
    pub grey: u32,
}

/// The longest chain recorded for `color`; 1 for a colour that is not tracked.
pub open spec fn core_chain_of(m: CoreColorMaxChains, color: GameColor) -> u32 {
    match color {
        GameColor::Red => m.red,
        GameColor::Green => m.green,
        GameColor::Blue => m.blue,
        GameColor::Cyan => m.cyan,
        GameColor::Magenta => m.magenta,
        GameColor::Yellow => m.yellow,
        GameColor::Grey => m.grey,
        _ => 1,
    }
}

/// `m` with the chain of `color` set to `value`; unchanged for a colour that
/// is not tracked.
pub open spec fn core_chain_set(m: CoreColorMaxChains, color: GameColor, value: u32) -> CoreColorMaxChains {
    match color {
        GameColor::Red => CoreColorMaxChains { red: value, ..m },
        GameColor::Green => CoreColorMaxChains { green: value, ..m },
        GameColor::Blue => CoreColorMaxChains { blue: value, ..m },
        GameColor::Cyan => CoreColorMaxChains { cyan: value, ..m },
        GameColor::Magenta => CoreColorMaxChains { magenta: value, ..m },
        GameColor::Yellow => CoreColorMaxChains { yellow: value, ..m },
        GameColor::Grey => CoreColorMaxChains { grey: value, ..m },
        _ => m,
    }
}

/// How far `new` went beyond `old`, zero when it did not.
pub open spec fn increase(old: u32, new: u32) -> int {
    if new > old { new - old } else { 0 }
}

/// Sum of the increases of the seven tracked colours.
pub open spec fn total_increase(old: CoreColorMaxChains, new: CoreColorMaxChains) -> int {
    increase(old.cyan, new.cyan) + increase(old.magenta, new.magenta) + increase(old.yellow, new.yellow)
        + increase(old.red, new.red) + increase(old.green, new.green) + increase(old.blue, new.blue)
        + increase(old.grey, new.grey)
}

impl Default for CoreColorMaxChains {
    fn default() -> (m: Self)
        ensures
            m == (CoreColorMaxChains { red: 1, green: 1, blue: 1, cyan: 1, magenta: 1, yellow: 1, grey: 1 }),
    {
        Self { red: 1, green: 1, blue: 1, cyan: 1, magenta: 1, yellow: 1, grey: 1 }
    }
}

impl CoreColorMaxChains {
    /// The longest chain recorded for `color` (1 for an untracked colour).
    pub fn get(&self, color: GameColor) -> (n: u32)
        ensures
            n == core_chain_of(*self, color),
    {
        match color {
            GameColor::Red => self.red,
            GameColor::Green => self.green,
            GameColor::Blue => self.blue,
            GameColor::Cyan => self.cyan,
            GameColor::Magenta => self.magenta,
            GameColor::Yellow => self.yellow,
            GameColor::Grey => self.grey,
            _ => 1,
        }
    }

    /// Records `value` as the chain of `color`; untracked colours are ignored.
    pub fn set(&mut self, color: GameColor, value: u32)
        ensures
            *final(self) == core_chain_set(*old(self), color, value),
    {
        match color {
            GameColor::Red => self.red = value,
            GameColor::Green => self.green = value,
            GameColor::Blue => self.blue = value,
            GameColor::Cyan => self.cyan = value,
            GameColor::Magenta => self.magenta = value,
            GameColor::Yellow => self.yellow = value,
            GameColor::Grey => self.grey = value,
            _ => {},
        }
    }

    /// Total by which the chains of `new_chains` exceed those of
    /// `old_chains`, colour by colour (decreases count as zero), capped at
    /// `u32::MAX`.
    pub fn calculate_chain_increases(old_chains: &CoreColorMaxChains, new_chains: &CoreColorMaxChains) -> (total: u32)
        ensures
            total == if total_increase(*old_chains, *new_chains) > u32::MAX { u32::MAX as int } else {
                total_increase(*old_chains, *new_chains)
            },
    {
        let mut total_increases = 0u32;
        let ghost mut acc: int = 0;
        if new_chains.cyan > old_chains.cyan {
            total_increases = total_increases.saturating_add(new_chains.cyan - old_chains.cyan);
        }
        proof { acc = increase(old_chains.cyan, new_chains.cyan); }
        assert(total_increases == if acc > u32::MAX { u32::MAX as int } else { acc });
        if new_chains.magenta > old_chains.magenta {
            total_increases = total_increases.saturating_add(new_chains.magenta - old_chains.magenta);
        }
        proof { acc = acc + increase(old_chains.magenta, new_chains.magenta); }
        assert(total_increases == if acc > u32::MAX { u32::MAX as int } else { acc });
        if new_chains.yellow > old_chains.yellow {
            total_increases = total_increases.saturating_add(new_chains.yellow - old_chains.yellow);
        }
        proof { acc = acc + increase(old_chains.yellow, new_chains.yellow); }
        assert(total_increases == if acc > u32::MAX { u32::MAX as int } else { acc });
        if new_chains.red > old_chains.red {
            total_increases = total_increases.saturating_add(new_chains.red - old_chains.red);
        }
        proof { acc = acc + increase(old_chains.red, new_chains.red); }
        assert(total_increases == if acc > u32::MAX { u32::MAX as int } else { acc });
        if new_chains.green > old_chains.green {
            total_increases = total_increases.saturating_add(new_chains.green - old_chains.green);
        }
        proof { acc = acc + increase(old_chains.green, new_chains.green); }
        assert(total_increases == if acc > u32::MAX { u32::MAX as int } else { acc });
        if new_chains.blue > old_chains.blue {
            total_increases = total_increases.saturating_add(new_chains.blue - old_chains.blue);
        }
        proof { acc = acc + increase(old_chains.blue, new_chains.blue); }
        assert(total_increases == if acc > u32::MAX { u32::MAX as int } else { acc });
        if new_chains.grey > old_chains.grey {
            total_increases = total_increases.saturating_add(new_chains.grey - old_chains.grey);
        }
        proof { acc = acc + increase(old_chains.grey, new_chains.grey); }
        total_increases
    }
}

/// Something that happened in a state change.
#[derive(Debug, Clone, PartialEq)]
pub enum CoreGameEvent {
    PieceLocked { position: Point, shape: TetrominoShape },
    LinesCleared { lines: Vec<usize>, is_bottom: bool },
    AnimationStarted { animation_type: AnimationType },
    AnimationCompleted { animation_type: AnimationType },
    ScoreUpdated { new_score: u64, added_points: u32 },
    GameModeChanged { new_mode: CoreGameMode },
    GameOver,
}

/// The state of a game.
#[derive(Debug)]
pub struct CoreGameState {
    pub board: FixedBoard,
    pub current_board_height: usize,
    pub animations: Vec<AnimationState>,
    pub animations_count: usize,
    pub current_piece: Option<Tetromino>,
    pub game_mode: CoreGameMode,
    pub score: u64,
    pub lines_cleared: u32,
    pub chain_bonus: u32,
    pub max_chains: CoreColorMaxChains,
    pub pieces_placed: u32,
    pub elapsed_time_ms: u64,
    pub enable_erase_line: bool,
    pub bag: TetrominoBag,
}

/// A state and what happened on the way to it.
#[derive(Debug)]
pub struct CoreGameStateUpdateResult {
    pub new_state: CoreGameState,
    pub events: Vec<CoreGameEvent>,
    pub render_required: bool,
}

/// An empty board.
pub open spec fn empty_board() -> FixedBoard {
    [[Cell::Empty; BOARD_WIDTH]; BOARD_HEIGHT]
}

impl CoreGameState {
    /// The animation list and its count agree and hold at most
    /// `MAX_ANIMATIONS` animations, the play area is at most the board's
    /// height, and the bag can draw.
    pub open spec fn wf(&self) -> bool {
        &&& self.animations@.len() == self.animations_count
        &&& self.animations_count <= MAX_ANIMATIONS
        &&& self.current_board_height <= BOARD_HEIGHT
        &&& self.bag.can_draw()
    }

    /// A new game: title mode, empty board, no piece, no animation, zero
    /// scores, every chain at 1 and erase-lines off.
    pub fn new() -> (s: Self)
        ensures
            s.wf(),
            s.board == empty_board(),
            s.current_board_height == 0,
            s.animations@.len() == 0,
            s.current_piece is None,
            s.game_mode == CoreGameMode::Title,
            s.score == 0,
            s.lines_cleared == 0,
            s.chain_bonus == 0,
            s.max_chains == (CoreColorMaxChains { red: 1, green: 1, blue: 1, cyan: 1, magenta: 1, yellow: 1, grey: 1 }),
            s.pieces_placed == 0,
            s.elapsed_time_ms == 0,
            !s.enable_erase_line,
            s.bag.contents().len() == 7,
    {
        Self {
            board: [[Cell::Empty; BOARD_WIDTH]; BOARD_HEIGHT],
            current_board_height: 0,
            animations: Vec::new(),
            animations_count: 0,
            current_piece: None,
            game_mode: CoreGameMode::Title,
            score: 0,
            lines_cleared: 0,
            chain_bonus: 0,
            max_chains: CoreColorMaxChains::default(),
            pieces_placed: 0,
            elapsed_time_ms: 0,
            enable_erase_line: false,
            bag: TetrominoBag::new(),
        }
    }

    /// Adds `animation` unless `MAX_ANIMATIONS` are running already.
    fn add_animation(&mut self, animation: AnimationState)
        requires
            old(self).wf(),
        ensures
            final(self).wf(),
            final(self).animations@ == if old(self).animations_count < MAX_ANIMATIONS {
                old(self).animations@.push(animation)
            } else {
                old(self).animations@
            },
            *final(self) == (CoreGameState { animations: final(self).animations, animations_count: final(self).animations_count, ..*old(self) }),
    {
        if self.animations_count < 20 {
            self.animations.push(animation);
            self.animations_count += 1;
        }
    }

    /// Whether an animation is running.
    pub fn has_animations(&self) -> (r: bool)
        ensures
            r == (self.animations_count > 0),
    {
        self.animations_count > 0
    }

    /// Number of running animations.
    pub fn animation_count(&self) -> (r: usize)
        ensures
            r == self.animations_count,
    {
        self.animations_count
    }

    /// Whether an animation of kind `animation_type` is running.
    pub fn has_animation_type(&self, animation_type: AnimationType) -> (r: bool)
        requires
            self.wf(),
        ensures
            r == exists|k: int| 0 <= k < self.animations_count && #[trigger] self.animations@[k].animation_type == animation_type,
    {
        let mut k: usize = 0;
        while k < self.animations_count
            invariant
                self.wf(),
                k <= self.animations_count,
                forall|j: int| 0 <= j < k ==> #[trigger] self.animations@[j].animation_type != animation_type,
            decreases self.animations_count - k,
        {
            if self.animations[k].animation_type == animation_type {
                return true;
            }
            k += 1;
        }
        false
    }

    /// Starts a line blink over `lines` at `start_time_ms` (ignored when
    /// `MAX_ANIMATIONS` are running).
    pub fn start_line_blink(self, lines: Vec<usize>, start_time_ms: u64) -> (s: Self)
        requires
            self.wf(),
        ensures
            s.wf(),
            s.animations@ == if self.animations_count < MAX_ANIMATIONS {
                self.animations@.push(AnimationState {
                    animation_type: AnimationType::LineBlink,
                    start_time_ms,
                    lines,
                    current_step: 0,
                    is_completed: false,
                    metadata: crate::core_logic::animation_logic::AnimationMetadata { gray_line_y: None, chain_bonus_consumed: 0 },
                })
            } else {
                self.animations@
            },
            s == (CoreGameState { animations: s.animations, animations_count: s.animations_count, ..self }),
    {
        let mut s = self;
        let animation = create_line_blink_animation(lines, start_time_ms);
        s.add_animation(animation);
        s
    }

    /// Starts the push-down of grey line `gray_line_y` at `start_time_ms`
    /// (ignored when `MAX_ANIMATIONS` are running).
    pub fn start_push_down(self, gray_line_y: usize, start_time_ms: u64) -> (s: Self)
        requires
            self.wf(),
        ensures
            s.wf(),
            self.animations_count < MAX_ANIMATIONS ==> {
                &&& s.animations@.len() == self.animations@.len() + 1
                &&& s.animations@.take(self.animations@.len() as int) == self.animations@
                &&& s.animations@.last().animation_type == AnimationType::PushDown
                &&& s.animations@.last().start_time_ms == start_time_ms
                &&& s.animations@.last().lines@ == seq![gray_line_y]
                &&& s.animations@.last().current_step == 0
                &&& !s.animations@.last().is_completed
                &&& s.animations@.last().metadata.gray_line_y == Some(gray_line_y)
                &&& s.animations@.last().metadata.chain_bonus_consumed == 0
            },
            self.animations_count >= MAX_ANIMATIONS ==> s.animations@ == self.animations@,
            s == (CoreGameState { animations: s.animations, animations_count: s.animations_count, ..self }),
    {
        let mut s = self;
        let animation = create_push_down_animation(gray_line_y, start_time_ms);
        s.add_animation(animation);
        s
    }

    /// Starts an erase-line animation over `target_lines` at `start_time_ms`
    /// (ignored when `MAX_ANIMATIONS` are running).
    pub fn start_erase_line(self, target_lines: Vec<usize>, start_time_ms: u64) -> (s: Self)
        requires
            self.wf(),
        ensures
            s.wf(),
            s.animations@ == if self.animations_count < MAX_ANIMATIONS {
                self.animations@.push(AnimationState {
                    animation_type: AnimationType::EraseLine,
                    start_time_ms,
                    lines: target_lines,
                    current_step: 0,
                    is_completed: false,
                    metadata: crate::core_logic::animation_logic::AnimationMetadata { gray_line_y: None, chain_bonus_consumed: 0 },
                })
            } else {
                self.animations@
            },
            s == (CoreGameState { animations: s.animations, animations_count: s.animations_count, ..self }),
    {
        let mut s = self;
        let animation = create_erase_line_animation(target_lines, start_time_ms);
        s.add_animation(animation);
        s
    }

    /// Adds `points` to the score.
    pub fn add_score(self, points: u32) -> (s: Self)
        requires
            self.score + points <= u64::MAX,
        ensures
            s == (CoreGameState { score: (self.score + points) as u64, ..self }),
    {
        let mut s = self;
        s.score = s.score + points as u64;
        s
    }

    /// Adds `bonus` to the chain bonus, saturating at `u32::MAX`.
    pub fn add_chain_bonus(self, bonus: u32) -> (s: Self)
        ensures
            s == (CoreGameState {
                chain_bonus: if self.chain_bonus + bonus > u32::MAX { u32::MAX } else { (self.chain_bonus + bonus) as u32 },
                ..self
            }),
    {
        let mut s = self;
        s.chain_bonus = s.chain_bonus.saturating_add(bonus);
        s
    }

    /// Takes up to `amount` from the chain bonus; returns the state and the
    /// amount taken.
    pub fn consume_chain_bonus(self, amount: u32) -> (r: (Self, u32))
        ensures
            r.1 == if self.chain_bonus <= amount { self.chain_bonus } else { amount },
            r.0 == (CoreGameState { chain_bonus: (self.chain_bonus - r.1) as u32, ..self }),
    {
        let mut s = self;
        let consumed = if s.chain_bonus <= amount { s.chain_bonus } else { amount };
        s.chain_bonus = s.chain_bonus.saturating_sub(consumed);
        (s, consumed)
    }

    /// Records `chain_count` for `color` when it beats the recorded chain.
    pub fn update_chain_multiplier(self, color: GameColor, chain_count: u32) -> (s: Self)
        ensures
            s == (CoreGameState {
                max_chains: if chain_count > core_chain_of(self.max_chains, color) {
                    core_chain_set(self.max_chains, color, chain_count)
                } else {
                    self.max_chains
                },
                ..self
            }),
    {
        let mut s = self;
        let current_max = s.max_chains.get(color);
        if chain_count > current_max {
            s.max_chains.set(color, chain_count);
        }
        s
    }

    /// Height of the play area: one past the lowest row that holds a block.
    pub fn calculate_current_height(&self) -> (h: usize)
        ensures
            h as int == used_height(fixed_rows(self.board), BOARD_HEIGHT as int),
    {
        calculate_board_height(self.board)
    }
}

/// Completion events of `nb` blinks, then `np` push-downs, then `ne`
/// erase-lines.
pub open spec fn completion_events(nb: nat, np: nat, ne: nat) -> Seq<CoreGameEvent> {
    Seq::new(nb, |i: int| CoreGameEvent::AnimationCompleted { animation_type: AnimationType::LineBlink })
        + Seq::new(np, |i: int| CoreGameEvent::AnimationCompleted { animation_type: AnimationType::PushDown })
        + Seq::new(ne, |i: int| CoreGameEvent::AnimationCompleted { animation_type: AnimationType::EraseLine })
}

/// Total number of lines erased by the finished erase-line animations `e`.
pub open spec fn erased_total(e: Seq<(Vec<usize>, u32)>) -> int
    decreases e.len(),
{
    if e.len() == 0 { 0 } else { erased_total(e.drop_last()) + e.last().1 }
}

/// `a - b`, or zero when `b` exceeds `a`.
pub open spec fn minus_floor(a: int, b: int) -> int {
    if a >= b { a - b } else { 0 }
}

/// The smaller of `n` and `MAX_ANIMATIONS`.
pub open spec fn kept_count(n: int) -> int {
    if n <= MAX_ANIMATIONS { n } else { MAX_ANIMATIONS as int }
}

/// The rows after row `y` is taken out and an empty row enters at the top.
pub open spec fn drop_row(rows: Seq<Seq<Cell>>, y: int) -> Seq<Seq<Cell>> {
    seq![filled_row(Cell::Empty)] + rows.take(y) + rows.skip(y + 1)
}

/// The rows after each of `lines` is dropped in turn.
pub open spec fn drop_rows(rows: Seq<Seq<Cell>>, lines: Seq<usize>) -> Seq<Seq<Cell>>
    decreases lines.len(),
{
    if lines.len() == 0 { rows } else { drop_row(drop_rows(rows, lines.drop_last()), lines.last() as int) }
}

/// The rows with every row listed in `lines` turned grey.
pub open spec fn grey_rows(rows: Seq<Seq<Cell>>, lines: Seq<usize>) -> Seq<Seq<Cell>> {
    Seq::new(BOARD_HEIGHT as nat, |y: int|
        if lines.contains(y as usize) { filled_row(Cell::Occupied(GameColor::Grey)) } else { rows[y] })
}

/// The row taken as the bottom line of a play area of height `h`.
pub open spec fn bottom_line_of(h: int) -> int {
    if h > 0 { h - 1 } else { 0 }
}

/// Takes row `line_y` out of the board and lets an empty row in at the top.
fn drop_row_in_place(board: &mut FixedBoard, line_y: usize)
    requires
        line_y < BOARD_HEIGHT,
    ensures
        fixed_rows(*final(board)) == drop_row(fixed_rows(*old(board)), line_y as int),
{
    let ghost rows = fixed_rows(*board);
    let mut y: usize = line_y;
    while y >= 1
        invariant
            y <= line_y < 20,
            rows.len() == 20,
            fixed_rows(*board).len() == 20,
            forall|k: int| 0 <= k <= y ==> #[trigger] fixed_rows(*board)[k] == rows[k],
            forall|k: int| y < k <= line_y ==> #[trigger] fixed_rows(*board)[k] == rows[k - 1],
            forall|k: int| line_y < k < 20 ==> #[trigger] fixed_rows(*board)[k] == rows[k],
        decreases y,
    {
        let ghost before = fixed_rows(*board);
        board[y] = board[y - 1];
        proof {
            assert(fixed_rows(*board) =~= before.update(y as int, before[y - 1]));
        }
        y -= 1;
    }
    let ghost before = fixed_rows(*board);
    board[0] = [Cell::Empty; 10];
    proof {
        assert(fixed_rows(*board) =~= before.update(0, fixed_rows(*board)[0]));
        assert(fixed_rows(*board)[0] =~= filled_row(Cell::Empty));
        assert(fixed_rows(*board) =~= drop_row(rows, line_y as int));
    }
}

/// Turns every cell of row `line_y` into a grey block.
fn grey_row_in_place(board: &mut FixedBoard, line_y: usize)
    requires
        line_y < BOARD_HEIGHT,
    ensures
        fixed_rows(*final(board)) == fixed_rows(*old(board)).update(line_y as int, filled_row(Cell::Occupied(GameColor::Grey))),
{
    let ghost rows = fixed_rows(*board);
    let mut x: usize = 0;
    proof {
        assert(Seq::new(10, |c: int| if c < 0 { Cell::Occupied(GameColor::Grey) } else { rows[line_y as int][c] })
            =~= rows[line_y as int]);
        assert(rows.update(line_y as int, rows[line_y as int]) =~= rows);
    }
    while x < 10
        invariant
            x <= 10,
            line_y < 20,
            rows.len() == 20,
            fixed_rows(*board) == rows.update(line_y as int, Seq::new(10, |c: int|
                if c < x { Cell::Occupied(GameColor::Grey) } else { rows[line_y as int][c] })),
        decreases 10 - x,
    {
        let ghost before = fixed_rows(*board);
        crate::cell::set_fixed_cell(board, line_y, x, Cell::Occupied(GameColor::Grey));
        proof {
            assert(before[line_y as int].update(x as int, Cell::Occupied(GameColor::Grey)) =~= Seq::new(10, |c: int|
                if c < x + 1 { Cell::Occupied(GameColor::Grey) } else { rows[line_y as int][c] }));
            assert(fixed_rows(*board) =~= rows.update(line_y as int, Seq::new(10, |c: int|
                if c < x + 1 { Cell::Occupied(GameColor::Grey) } else { rows[line_y as int][c] })));
        }
        x += 1;
    }
    proof {
        assert(Seq::new(10, |c: int| if c < 10 { Cell::Occupied(GameColor::Grey) } else { rows[line_y as int][c] })
            =~= filled_row(Cell::Occupied(GameColor::Grey)));
    }
}

/// Time reaching `now` took `s` to `new_state` with the events `events`: the
/// animations advanced (the first `MAX_ANIMATIONS` kept), a completion event
/// for each finished one (blinks, then push-downs, then erase-lines), the
/// erased lines paid from the chain bonus, a redraw asked for when anything
/// finished.
pub open spec fn time_update_outcome(s: CoreGameState, now: u64, new_state: CoreGameState, events: Seq<CoreGameEvent>, render: bool) -> bool {
    let (u, b, p, e) = update_all_spec(s.animations@, now);
    &&& new_state.wf()
    &&& new_state.animations@ == u.take(kept_count(u.len() as int))
    &&& new_state == (CoreGameState {
        animations: new_state.animations,
        animations_count: kept_count(u.len() as int) as usize,
        elapsed_time_ms: now,
        chain_bonus: minus_floor(s.chain_bonus as int, erased_total(e)) as u32,
        ..s
    })
    &&& events == completion_events(b.len(), p.len(), e.len())
    &&& render == (b.len() + p.len() + e.len() > 0)
}

/// Time passing never raises the chain bonus, never touches the board, the
/// piece or the scores, and never adds animations.
pub proof fn lemma_time_never_raises_chain_bonus(s: CoreGameState, now: u64, t: CoreGameState, events: Seq<CoreGameEvent>, render: bool)
    requires
        s.wf(),
        time_update_outcome(s, now, t, events, render),
    ensures
        t.chain_bonus <= s.chain_bonus,
        t.board == s.board,
        t.current_piece == s.current_piece,
        t.score == s.score,
        t.lines_cleared == s.lines_cleared,
        t.animations_count <= s.animations_count,
{
    let (u, b, p, e) = update_all_spec(s.animations@, now);
    lemma_erased_total_nonneg(e);
    crate::core_logic::animation_logic::lemma_update_all_len(s.animations@, now);
}

/// The erased-line total of finished erase-lines is never negative.
pub proof fn lemma_erased_total_nonneg(e: Seq<(Vec<usize>, u32)>)
    ensures
        erased_total(e) >= 0,
    decreases e.len(),
{
    if e.len() > 0 {
        lemma_erased_total_nonneg(e.drop_last());
    }
}

impl CoreGameState {
    /// The animations kept from `animations`: the first `MAX_ANIMATIONS`.
    fn update_animations_from_vec(&mut self, animations: Vec<AnimationState>)
        ensures
            final(self).animations@ == animations@.take(kept_count(animations@.len() as int)),
            final(self).animations_count == kept_count(animations@.len() as int),
            *final(self) == (CoreGameState { animations: final(self).animations, animations_count: final(self).animations_count, ..*old(self) }),
    {
        let mut animations = animations;
        let count = if animations.len() <= 20 { animations.len() } else { 20 };
        animations.truncate(count);
        self.animations = animations;
        self.animations_count = count;
    }

    /// Time has reached `current_time_ms`: every animation is advanced (at
    /// most `MAX_ANIMATIONS` go on), each finished one gives a completion
    /// event (blinks first, then push-downs, then erase-lines), the lines the
    /// finished erase-lines removed are paid from the chain bonus (never
    /// below zero), and a redraw is asked for when anything finished.
    pub fn update_with_time(self, current_time_ms: u64) -> (r: CoreGameStateUpdateResult)
        requires
            self.wf(),
        ensures
            time_update_outcome(self, current_time_ms, r.new_state, r.events@, r.render_required),
    {
        let ghost spec_result = update_all_spec(self.animations@, current_time_ms);
        let mut s = self;
        let mut events: Vec<CoreGameEvent> = Vec::new();
        let mut render_required = false;
        s.elapsed_time_ms = current_time_ms;
        let mut active: Vec<AnimationState> = Vec::new();
        std::mem::swap(&mut active, &mut s.animations);
        let animation_result = update_all_animation_states(active, current_time_ms);
        let blinks = animation_result.completed_line_blinks;
        let push_downs = animation_result.completed_push_downs;
        let erases = animation_result.completed_erase_lines;
        s.update_animations_from_vec(animation_result.updated_animations);
        let ghost nb = blinks@.len();
        let ghost np = push_downs@.len();
        let mut k: usize = 0;
        while k < blinks.len()
            invariant
                k <= blinks@.len(),
                events@ == completion_events(k as nat, 0, 0),
                render_required == (k > 0),
            decreases blinks@.len() - k,
        {
            events.push(CoreGameEvent::AnimationCompleted { animation_type: AnimationType::LineBlink });
            render_required = true;
            proof {
                assert(events@ =~= completion_events(k as nat + 1, 0, 0));
            }
            k += 1;
        }
        let mut k: usize = 0;
        while k < push_downs.len()
            invariant
                k <= push_downs@.len(),
                nb == blinks@.len(),
                events@ == completion_events(nb, k as nat, 0),
                render_required == (nb + k > 0),
            decreases push_downs@.len() - k,
        {
            events.push(CoreGameEvent::AnimationCompleted { animation_type: AnimationType::PushDown });
            render_required = true;
            proof {
                assert(events@ =~= completion_events(nb, k as nat + 1, 0));
            }
            k += 1;
        }
        let ghost c0 = s.chain_bonus as int;
        let ghost s1 = s;
        let mut k: usize = 0;
        while k < erases.len()
            invariant
                k <= erases@.len(),
                s == (CoreGameState { chain_bonus: s.chain_bonus, ..s1 }),
                events@ == completion_events(nb, np, k as nat),
                render_required == (nb + np + k > 0),
                s.chain_bonus as int == minus_floor(c0, erased_total(erases@.take(k as int))),
            decreases erases@.len() - k,
        {
            let erased_count = erases[k].1;
            events.push(CoreGameEvent::AnimationCompleted { animation_type: AnimationType::EraseLine });
            s.chain_bonus = s.chain_bonus.saturating_sub(erased_count);
            render_required = true;
            proof {
                assert(events@ =~= completion_events(nb, np, k as nat + 1));
                assert(erases@.take(k + 1).drop_last() =~= erases@.take(k as int));
            }
            k += 1;
        }
        proof {
            assert(erases@.take(erases@.len() as int) =~= erases@);
        }
        proof {
            assert(blinks@ == spec_result.1);
            assert(push_downs@ == spec_result.2);
            assert(erases@ == spec_result.3);
            assert(s.wf());
            assert(events@ == completion_events(spec_result.1.len(), spec_result.2.len(), spec_result.3.len()));
            assert(s.chain_bonus == minus_floor(self.chain_bonus as int, erased_total(spec_result.3)) as u32);
        }
        CoreGameStateUpdateResult { new_state: s, events, render_required }
    }

    /// Clears the completed `lines`: those on the bottom line of the play
    /// area (row `current_board_height - 1`, row 0 for an empty area) are
    /// taken out with empty rows entering at the top and counted as cleared;
    /// the others turn grey.  The height is then measured again.
    pub fn clear_lines(self, lines: &[usize]) -> (s: Self)
        requires
            self.wf(),
            forall|m: int| 0 <= m < lines@.len() ==> #[trigger] lines@[m] < BOARD_HEIGHT,
            self.lines_cleared + lines@.len() <= u32::MAX,
        ensures
            ({
                let bl = bottom_line_of(self.current_board_height as int);
                let bottom = lines_equal(lines@, bl);
                let others = lines_other(lines@, bl);
                &&& fixed_rows(s.board) == grey_rows(drop_rows(fixed_rows(self.board), bottom), others)
                &&& s.lines_cleared == self.lines_cleared + bottom.len()
                &&& s.current_board_height == used_height(fixed_rows(s.board), BOARD_HEIGHT as int)
                &&& s == (CoreGameState {
                    board: s.board,
                    lines_cleared: s.lines_cleared,
                    current_board_height: s.current_board_height,
                    ..self
                })
                &&& s.wf()
            }),
    {
        let ghost rows0 = fixed_rows(self.board);
        let ghost bl = bottom_line_of(self.current_board_height as int);
        let mut s = self;
        let analysis = analyze_lines(lines, s.current_board_height);
        proof {
            crate::animation::lemma_lines_split_bounds(lines@, bl);
        }
        let bottom = analysis.bottom_lines;
        let others = analysis.non_bottom_lines;
        let mut k: usize = 0;
        while k < bottom.len()
            invariant
                k <= bottom@.len(),
                bottom@ == lines_equal(lines@, bl),
                bottom@.len() <= lines@.len(),
                forall|m: int| 0 <= m < bottom@.len() ==> #[trigger] bottom@[m] < BOARD_HEIGHT,
                self.lines_cleared + lines@.len() <= u32::MAX,
                s.lines_cleared == self.lines_cleared + k,
                fixed_rows(s.board) == drop_rows(rows0, bottom@.take(k as int)),
                s == (CoreGameState { board: s.board, lines_cleared: s.lines_cleared, ..self }),
            decreases bottom@.len() - k,
        {
            let line_y = bottom[k];
            drop_row_in_place(&mut s.board, line_y);
            s.lines_cleared = s.lines_cleared + 1;
            proof {
                assert(bottom@.take(k + 1).drop_last() =~= bottom@.take(k as int));
            }
            k += 1;
        }
        proof {
            assert(bottom@.take(bottom@.len() as int) =~= bottom@);
        }
        let ghost shifted = fixed_rows(s.board);
        let mut m: usize = 0;
        while m < others.len()
            invariant
                m <= others@.len(),
                others@ == lines_other(lines@, bl),
                forall|q: int| 0 <= q < others@.len() ==> #[trigger] others@[q] < BOARD_HEIGHT,
                shifted.len() == 20,
                fixed_rows(s.board) == grey_rows(shifted, others@.take(m as int)),
                s == (CoreGameState { board: s.board, lines_cleared: s.lines_cleared, ..self }),
                s.lines_cleared == self.lines_cleared + lines_equal(lines@, bl).len(),
            decreases others@.len() - m,
        {
            let y = others[m];
            let ghost before = fixed_rows(s.board);
            grey_row_in_place(&mut s.board, y);
            proof {
                let t = others@.take(m as int);
                let t1 = others@.take(m as int + 1);
                assert(t1 =~= t.push(y));
                assert forall|z: usize| t1.contains(z) <==> (t.contains(z) || z == y) by {
                    if t.contains(z) {
                        let q = choose|q: int| 0 <= q < t.len() && t[q] == z;
                        assert(t1[q] == z);
                    }
                    if z == y {
                        assert(t1[t.len() as int] == y);
                    }
                    if t1.contains(z) {
                        let q = choose|q: int| 0 <= q < t1.len() && t1[q] == z;
                        if q < t.len() {
                            assert(t[q] == z);
                        }
                    }
                }
                assert(fixed_rows(s.board) =~= grey_rows(shifted, t1));
            }
            m += 1;
        }
        proof {
            assert(others@.take(others@.len() as int) =~= others@);
        }
        s.current_board_height = s.calculate_current_height();
        proof {
            lemma_used_height_bounded(fixed_rows(s.board), BOARD_HEIGHT as int);
            assert(s.wf());
            assert(fixed_rows(s.board) == grey_rows(drop_rows(fixed_rows(self.board), lines_equal(lines@, bl)), lines_other(lines@, bl)));
        }
        s
    }
}

/// The play area is never taller than the rows it is measured over.
pub proof fn lemma_used_height_bounded(rows: Seq<Seq<Cell>>, n: int)
    ensures
        n >= 0 ==> 0 <= used_height(rows, n) <= n,
    decreases n,
{
    if n > 0 {
        lemma_used_height_bounded(rows, n - 1);
    }
}

/// `m` after meeting `cell`: a `Connected` block whose count beats the chain
/// recorded for its colour records that count.
pub open spec fn chains_after_cell(m: CoreColorMaxChains, cell: Cell) -> CoreColorMaxChains {
    match cell {
        Cell::Connected { color, count } => if count as u32 > core_chain_of(m, color) {
            core_chain_set(m, color, count as u32)
        } else {
            m
        },
        _ => m,
    }
}

/// `m` after meeting the first `n` cells of `rows`, row by row.
pub open spec fn chains_after_cells(m: CoreColorMaxChains, rows: Seq<Seq<Cell>>, n: int) -> CoreColorMaxChains
    decreases n,
{
    if n <= 0 { m } else { chains_after_cell(chains_after_cells(m, rows, n - 1), cell_at(rows, n - 1)) }
}

/// Cell `i` after the recount of `comps`: each component in turn gives every
/// `Connected` block it names the component's size (truncated to `u8`).
pub open spec fn recounted_cell(cell: Cell, comps: Seq<ConnectedComponent>, i: int) -> Cell
    decreases comps.len(),
{
    if comps.len() == 0 {
        cell
    } else {
        let prev = recounted_cell(cell, comps.drop_last(), i);
        let cc = comps.last();
        match prev {
            Cell::Connected { color, .. } => if among_points(cc.positions@, cc.positions@.len() as int, i) {
                Cell::Connected { color, count: cc.positions@.len() as u8 }
            } else {
                prev
            },
            _ => prev,
        }
    }
}

/// Board coordinates and colour of every block of `piece`.
pub open spec fn piece_cells(piece: Tetromino) -> Seq<((i8, i8), GameColor)> {
    Seq::new(piece.blocks_seq().len(), |i: int| piece.block_at(i))
}

/// Position `p` lies on the board on an empty cell.
pub open spec fn cell_free(rows: Seq<Seq<Cell>>, p: (i8, i8)) -> bool {
    &&& 0 <= p.0 < BOARD_WIDTH
    &&& 0 <= p.1 < BOARD_HEIGHT
    &&& rows[p.1 as int][p.0 as int] == Cell::Empty
}

/// Every block of the piece lies on the board on an empty cell.
pub open spec fn placeable(rows: Seq<Seq<Cell>>, cells: Seq<((i8, i8), GameColor)>) -> bool {
    forall|i: int| 0 <= i < cells.len() ==> cell_free(rows, #[trigger] cells[i].0)
}

/// A placeable piece lies on the board, every block on an empty cell: it
/// never overlaps a block, plain or joined, or a solid line.
pub proof fn lemma_placeable_is_free(rows: Seq<Seq<Cell>>, cells: Seq<((i8, i8), GameColor)>, i: int)
    requires
        placeable(rows, cells),
        0 <= i < cells.len(),
    ensures
        0 <= cells[i].0.0 < BOARD_WIDTH,
        0 <= cells[i].0.1 < BOARD_HEIGHT,
        rows[cells[i].0.1 as int][cells[i].0.0 as int] == Cell::Empty,
{
    assert(cell_free(rows, cells[i].0));
}

/// The rows with each block of `cells` that lies on the board written as an
/// `Occupied` block of its colour, in order.
pub open spec fn placed_rows(rows: Seq<Seq<Cell>>, cells: Seq<((i8, i8), GameColor)>) -> Seq<Seq<Cell>>
    decreases cells.len(),
{
    if cells.len() == 0 {
        rows
    } else {
        let prev = placed_rows(rows, cells.drop_last());
        let ((x, y), color) = cells.last();
        if 0 <= x < BOARD_WIDTH && 0 <= y < BOARD_HEIGHT {
            prev.update(y as int, prev[y as int].update(x as int, Cell::Occupied(color)))
        } else {
            prev
        }
    }
}

/// What a front end needs to draw a state.
#[derive(Debug, Clone)]
pub struct CoreRenderInfo {
    pub board: FixedBoard,
    pub current_piece_blocks: Vec<(Point, GameColor)>,
    pub ghost_piece_blocks: Vec<Point>,
    pub score: u64,
    pub lines_cleared: u32,
    pub chain_bonus: u32,
    pub game_mode: u8,
    pub has_animations: bool,
}

impl CoreGameState {
    /// Raises the recorded chain of each colour to the largest count of a
    /// `Connected` block of that colour in the play area, scanning it row
    /// by row.
    pub fn update_max_chains_from_board(self) -> (s: Self)
        requires
            self.current_board_height <= BOARD_HEIGHT,
        ensures
            s == (CoreGameState {
                max_chains: chains_after_cells(self.max_chains, fixed_rows(self.board),
                    self.current_board_height * BOARD_WIDTH as int),
                ..self
            }),
    {
        let ghost rows = fixed_rows(self.board);
        let mut s = self;
        let h = s.current_board_height;
        let mut y: usize = 0;
        while y < h
            invariant
                y <= h <= 20,
                rows == fixed_rows(s.board),
                s == (CoreGameState { max_chains: s.max_chains, ..self }),
                s.max_chains == chains_after_cells(self.max_chains, rows, y * 10),
            decreases h - y,
        {
            let mut x: usize = 0;
            while x < 10
                invariant
                    x <= 10,
                    y < h <= 20,
                    rows == fixed_rows(s.board),
                    s == (CoreGameState { max_chains: s.max_chains, ..self }),
                    s.max_chains == chains_after_cells(self.max_chains, rows, y * 10 + x),
                decreases 10 - x,
            {
                proof {
                    crate::connectivity::lemma_index_parts(x as int, y as int);
                    assert(cell_at(rows, y * 10 + x) == rows[y as int][x as int]);
                }
                if let Cell::Connected { color, count } = s.board[y][x] {
                    let current_max = s.max_chains.get(color);
                    if count as u32 > current_max {
                        s.max_chains.set(color, count as u32);
                    }
                }
                x += 1;
            }
            y += 1;
        }
        s
    }

    /// Applies the connected components to the board: every `Occupied` block
    /// a component names becomes a `Connected` block of the component's
    /// colour, and then every `Connected` block a component names takes the
    /// component's size as its count.
    pub fn apply_connected_components(self, components: Vec<ConnectedComponent>) -> (s: Self)
        requires
            forall|k: int, m: int| 0 <= k < components@.len() && 0 <= m < components@[k].positions@.len()
                ==> point_valid(#[trigger] components@[k].positions@[m]),
        ensures
            forall|i: int| 0 <= i < num_cells() ==> #[trigger] cell_at(fixed_rows(s.board), i)
                == recounted_cell(applied_cell(cell_at(fixed_rows(self.board), i), components@, i), components@, i),
            s == (CoreGameState { board: s.board, ..self }),
    {
        let ghost rows0 = fixed_rows(self.board);
        let mut s = self;
        s.board = crate::core_logic::board_logic::apply_connected_components(s.board, components.as_slice());
        let ghost mid = fixed_rows(s.board);
        let mut k: usize = 0;
        while k < components.len()
            invariant
                k <= components@.len(),
                mid.len() == 20,
                forall|kk: int, m: int| 0 <= kk < components@.len() && 0 <= m < components@[kk].positions@.len()
                    ==> point_valid(#[trigger] components@[kk].positions@[m]),
                forall|i: int| 0 <= i < num_cells() ==> #[trigger] cell_at(fixed_rows(s.board), i)
                    == recounted_cell(cell_at(mid, i), components@.take(k as int), i),
                s == (CoreGameState { board: s.board, ..self }),
            decreases components@.len() - k,
        {
            let component = &components[k];
            let count = component.positions.len() as u8;
            let ghost before_k = fixed_rows(s.board);
            proof {
                assert(components@.take(k as int + 1).drop_last() =~= components@.take(k as int));
            }
            let mut m: usize = 0;
            while m < component.positions.len()
                invariant
                    m <= component.positions@.len(),
                    *component == components@[k as int],
                    count == component.positions@.len() as u8,
                    forall|q: int| 0 <= q < component.positions@.len() ==> point_valid(#[trigger] component.positions@[q]),
                    forall|i: int| 0 <= i < num_cells() ==> #[trigger] cell_at(fixed_rows(s.board), i) ==
                        match cell_at(before_k, i) {
                            Cell::Connected { color, .. } => if among_points(component.positions@, m as int, i) {
                                Cell::Connected { color, count }
                            } else {
                                cell_at(before_k, i)
                            },
                            _ => cell_at(before_k, i),
                        },
                    s == (CoreGameState { board: s.board, ..self }),
                decreases component.positions@.len() - m,
            {
                let Point(x, y) = component.positions[m];
                let ghost before = fixed_rows(s.board);
                proof {
                    crate::connectivity::lemma_index_parts(x as int, y as int);
                }
                if let Cell::Connected { color, count: _ } = s.board[y][x] {
                    crate::cell::set_fixed_cell(&mut s.board, y, x, Cell::Connected { color, count });
                }
                proof {
                    let p = point_index(component.positions@[m as int]);
                    assert forall|i: int| 0 <= i < num_cells() implies #[trigger] cell_at(fixed_rows(s.board), i) ==
                        match cell_at(before_k, i) {
                            Cell::Connected { color, .. } => if among_points(component.positions@, m as int + 1, i) {
                                Cell::Connected { color, count }
                            } else {
                                cell_at(before_k, i)
                            },
                            _ => cell_at(before_k, i),
                        } by {
                        if i == p {
                            assert(point_index(component.positions@[m as int]) == i);
                        } else {
                            crate::connectivity::lemma_index_parts(i % 10, i / 10);
                            assert(cell_at(fixed_rows(s.board), i) == cell_at(before, i));
                            if among_points(component.positions@, m as int + 1, i) {
                                let q = choose|q: int| 0 <= q < m + 1 && point_index(#[trigger] component.positions@[q]) == i;
                                assert(q < m);
                            }
                        }
                    }
                }
                m += 1;
            }
            k += 1;
        }
        proof {
            assert(components@.take(components@.len() as int) =~= components@);
        }
        s
    }

    /// Whether every block of `piece` lies on the board on an empty cell.
    pub fn can_place_piece(&self, piece: &Tetromino) -> (r: bool)
        requires
            piece.fits(),
        ensures
            r == placeable(fixed_rows(self.board), piece_cells(*piece)),
    {
        let blocks = piece.iter_blocks();
        let ghost cells = piece_cells(*piece);
        proof {
            assert(blocks@ =~= cells);
        }
        let mut i: usize = 0;
        while i < blocks.len()
            invariant
                i <= blocks@.len(),
                blocks@ == cells,
                cells == piece_cells(*piece),
                forall|j: int| 0 <= j < i ==> cell_free(fixed_rows(self.board), #[trigger] cells[j].0),
            decreases blocks@.len() - i,
        {
            let ((bx, by), _) = blocks[i];
            if bx < 0 || by < 0 {
                assert(!cell_free(fixed_rows(self.board), cells[i as int].0));
                return false;
            }
            let bx = bx as usize;
            let by = by as usize;
            if bx >= BOARD_WIDTH || by >= BOARD_HEIGHT {
                assert(!cell_free(fixed_rows(self.board), cells[i as int].0));
                return false;
            }
            if self.board[by][bx] != Cell::Empty {
                assert(!cell_free(fixed_rows(self.board), cells[i as int].0));
                return false;
            }
            i += 1;
        }
        true
    }

    /// Writes the blocks of `piece` that lie on the board as `Occupied`
    /// blocks, drops the current piece, counts the piece and measures the
    /// height again.
    pub fn place_piece(self, piece: &Tetromino) -> (s: Self)
        requires
            piece.fits(),
            self.pieces_placed < u32::MAX,
        ensures
            fixed_rows(s.board) == placed_rows(fixed_rows(self.board), piece_cells(*piece)),
            s.current_board_height == used_height(fixed_rows(s.board), BOARD_HEIGHT as int),
            s == (CoreGameState {
                board: s.board,
                current_piece: None,
                pieces_placed: (self.pieces_placed + 1) as u32,
                current_board_height: s.current_board_height,
                ..self
            }),
            self.wf() ==> s.wf(),
    {
        let mut s = self;
        let blocks = piece.iter_blocks();
        let ghost cells = piece_cells(*piece);
        proof {
            assert(blocks@ =~= cells);
        }
        let mut i: usize = 0;
        while i < blocks.len()
            invariant
                i <= blocks@.len(),
                blocks@ == cells,
                fixed_rows(s.board) == placed_rows(fixed_rows(self.board), cells.take(i as int)),
                s == (CoreGameState { board: s.board, ..self }),
            decreases blocks@.len() - i,
        {
            let ((bx, by), color) = blocks[i];
            proof {
                assert(cells.take(i + 1).drop_last() =~= cells.take(i as int));
            }
            if bx >= 0 && by >= 0 {
                let x = bx as usize;
                let y = by as usize;
                if x < BOARD_WIDTH && y < BOARD_HEIGHT {
                    crate::cell::set_fixed_cell(&mut s.board, y, x, Cell::Occupied(color));
                }
            }
            i += 1;
        }
        proof {
            assert(cells.take(cells.len() as int) =~= cells);
        }
        s.current_piece = None;
        s.pieces_placed = s.pieces_placed + 1;
        s.current_board_height = s.calculate_current_height();
        proof {
            lemma_used_height_bounded(fixed_rows(s.board), BOARD_HEIGHT as int);
        }
        s
    }

    /// Makes the next piece of the bag the current piece.
    pub fn spawn_piece(self) -> (s: Self)
        requires
            self.bag.can_draw(),
        ensures
            s.current_piece matches Some(t) && {
                &&& s.bag.is_draw_from(t.piece_shape(), self.bag)
                &&& t.in_shape()
                &&& t.rotation() == 0
                &&& t.position() == (crate::tetromino::SPAWN_X, 0i8)
                &&& crate::tetromino::piece_colors_only(t.blocks_seq())
                &&& crate::tetromino::properly_colored(t.blocks_seq())
            },
            s == (CoreGameState { current_piece: s.current_piece, bag: s.bag, ..self }),
            self.wf() ==> s.wf(),
    {
        let mut s = self;
        let piece = Tetromino::new_random(&mut s.bag);
        s.current_piece = Some(piece);
        s
    }

    /// What a front end needs to draw the state: the board, the blocks of the
    /// current piece (as board positions with their colours), no ghost
    /// piece, the scores, the mode number and whether an animation runs.
    pub fn generate_render_info(&self) -> (r: CoreRenderInfo)
        requires
            self.current_piece matches Some(p) ==> p.fits(),
        ensures
            r.board == self.board,
            match self.current_piece {
                Some(p) => {
                    &&& r.current_piece_blocks@.len() == p.blocks_seq().len()
                    &&& forall|i: int| 0 <= i < r.current_piece_blocks@.len() ==> #[trigger] r.current_piece_blocks@[i] == (
                        Point(p.block_at(i).0.0 as usize, p.block_at(i).0.1 as usize),
                        p.block_at(i).1,
                    )
                },
                None => r.current_piece_blocks@.len() == 0,
            },
            r.ghost_piece_blocks@.len() == 0,
            r.score == self.score,
            r.lines_cleared == self.lines_cleared,
            r.chain_bonus == self.chain_bonus,
            r.game_mode == mode_number(self.game_mode),
            r.has_animations == (self.animations_count > 0),
    {
        let mut current_piece_blocks: Vec<(Point, GameColor)> = Vec::new();
        match &self.current_piece {
            Some(piece) => {
                let blocks = piece.iter_blocks();
                let mut i: usize = 0;
                while i < blocks.len()
                    invariant
                        i <= blocks@.len(),
                        blocks@.len() == piece.blocks_seq().len(),
                        forall|j: int| 0 <= j < blocks@.len() ==> #[trigger] blocks@[j] == piece.block_at(j),
                        current_piece_blocks@.len() == i,
                        forall|j: int| 0 <= j < i ==> #[trigger] current_piece_blocks@[j] == (
                            Point(piece.block_at(j).0.0 as usize, piece.block_at(j).0.1 as usize),
                            piece.block_at(j).1,
                        ),
                    decreases blocks@.len() - i,
                {
                    let ((x, y), color) = blocks[i];
                    current_piece_blocks.push((Point(x as usize, y as usize), color));
                    i += 1;
                }
            },
            None => {},
        }
        let game_mode: u8 = match self.game_mode {
            CoreGameMode::Title => 0,
            CoreGameMode::Playing => 1,
            CoreGameMode::GameOver => 2,
        };
        CoreRenderInfo {
            board: self.board,
            current_piece_blocks,
            ghost_piece_blocks: Vec::new(),
            score: self.score,
            lines_cleared: self.lines_cleared,
            chain_bonus: self.chain_bonus,
            game_mode,
            has_animations: self.has_animations(),
        }
    }
}

} // verus!
