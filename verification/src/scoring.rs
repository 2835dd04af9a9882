//! Score keeping: the total score, the longest chain seen per colour and the
//! chain bonus.
use vstd::prelude::*;
use crate::cell::{Board, Cell, board_rows, rows_wf};
use crate::config::{BOARD_HEIGHT, BOARD_WIDTH};
use crate::game_color::GameColor;
use crate::text::{decimal_chars, push_decimal};

verus! {

/// Highest chain bonus that can be held.
pub const CHAIN_BONUS_LIMIT: u32 = 10;

/// The total score.
#[derive(Clone, Debug, PartialEq, Eq, Structural)]
pub struct TotalScore {
    total: u32,
}

impl TotalScore {
    /// Points scored so far.
    pub closed spec fn value(&self) -> u32 {
        self.total
    }

    /// A score of zero.
    pub fn new() -> (s: Self)
        ensures
            s.value() == 0,
    {
        Self { total: 0 }
    }

    /// Adds points.
    pub fn add(&mut self, points: u32)
        requires
            old(self).value() + points <= u32::MAX,
        ensures
            final(self).value() == old(self).value() + points,
    {
        self.total = self.total + points;
    }

    /// Points scored so far.
    pub fn total(&self) -> (t: u32)
        ensures
            t == self.value(),
    {
        self.total
    }
}

/// Longest chain seen for each piece colour.
#[derive(Clone, Debug, PartialEq, Eq, Structural)]
pub struct ColorMaxChains {
    pub cyan: u32,
    pub magenta: u32,
    pub yellow: u32,
}

/// Longest chain recorded for a colour; colours other than the three piece
/// colours have none.
pub open spec fn chain_of(m: ColorMaxChains, color: GameColor) -> u32 {
    match color {
        GameColor::Cyan => m.cyan,
        GameColor::Magenta => m.magenta,
        GameColor::Yellow => m.yellow,
        _ => 0,
    }
}

/// Larger of two numbers.
pub open spec fn max_u32(a: u32, b: u32) -> u32 {
    if a >= b { a } else { b }
}

impl ColorMaxChains {
    /// No chains yet.
    pub fn new() -> (m: Self)
        ensures
            m.cyan == 0 && m.magenta == 0 && m.yellow == 0,
    {
        Self { cyan: 0, magenta: 0, yellow: 0 }
    }

    /// Longest chain recorded for `color` (0 for colours that are not piece colours).
    pub fn get(&self, color: GameColor) -> (n: u32)
        ensures
            n == chain_of(*self, color),
    {
        match color {
            GameColor::Cyan => self.cyan,
            GameColor::Magenta => self.magenta,
            GameColor::Yellow => self.yellow,
            _ => 0,
        }
    }

    /// Raises the record of `color` to `chain_count` when that is longer.
    pub fn update_max(&mut self, color: GameColor, chain_count: u32)
        ensures
            final(self).cyan == if color == GameColor::Cyan { max_u32(old(self).cyan, chain_count) } else { old(self).cyan },
            final(self).magenta == if color == GameColor::Magenta { max_u32(old(self).magenta, chain_count) } else { old(self).magenta },
            final(self).yellow == if color == GameColor::Yellow { max_u32(old(self).yellow, chain_count) } else { old(self).yellow },
    {
        match color {
            GameColor::Cyan => {
                if chain_count > self.cyan {
                    self.cyan = chain_count;
                }
            },
            GameColor::Magenta => {
                if chain_count > self.magenta {
                    self.magenta = chain_count;
                }
            },
            GameColor::Yellow => {
                if chain_count > self.yellow {
                    self.yellow = chain_count;
                }
            },
            _ => {},
        }
    }

    /// Longest chain of any colour.
    pub fn max(&self) -> (n: u32)
        ensures
            n == max_u32(max_u32(self.cyan, self.magenta), self.yellow),
    {
        let a = if self.cyan >= self.magenta { self.cyan } else { self.magenta };
        if a >= self.yellow { a } else { self.yellow }
    }
}

/// The whole score keeping of a game.
#[derive(Clone, Debug, PartialEq, Eq, Structural)]
pub struct CustomScoreSystem {
    pub score: TotalScore,
    pub max_chains: ColorMaxChains,
    pub chain_bonus: u32,
}

/// Smaller of two numbers.
pub open spec fn min_u32(a: u32, b: u32) -> u32 {
    if a <= b { a } else { b }
}

/// Text shown for a score system.
pub open spec fn score_display(total: u32, m: ColorMaxChains) -> Seq<char> {
    "SCORE:    "@ + decimal_chars(total as nat) + "\n\nMAX-CHAIN:\n  CYAN:    "@ + decimal_chars(m.cyan as nat)
        + "\n  MAGENTA: "@ + decimal_chars(m.magenta as nat) + "\n  YELLOW:  "@ + decimal_chars(m.yellow as nat)
}

impl CustomScoreSystem {
    /// A fresh score system.
    pub fn new() -> (s: Self)
        ensures
            s.score.value() == 0,
            s.max_chains.cyan == 0 && s.max_chains.magenta == 0 && s.max_chains.yellow == 0,
            s.chain_bonus == 0,
    {
        Self { score: TotalScore::new(), max_chains: ColorMaxChains::new(), chain_bonus: 0 }
    }

    /// Adds points to the total score.
    pub fn add_score(&mut self, points: u32)
        requires
            old(self).score.value() + points <= u32::MAX,
        ensures
            final(self).score.value() == old(self).score.value() + points,
            final(self).max_chains == old(self).max_chains,
            final(self).chain_bonus == old(self).chain_bonus,
    {
        self.score.add(points);
    }

    /// Adds stages to the chain bonus, which holds at most ten stages.
    pub fn add_chain_bonus(&mut self, lines: u32)
        requires
            old(self).chain_bonus + lines <= u32::MAX,
        ensures
            final(self).chain_bonus == min_u32((old(self).chain_bonus + lines) as u32, CHAIN_BONUS_LIMIT),
            final(self).score == old(self).score,
            final(self).max_chains == old(self).max_chains,
    {
        let sum = self.chain_bonus + lines;
        self.chain_bonus = if sum <= CHAIN_BONUS_LIMIT { sum } else { CHAIN_BONUS_LIMIT };
    }

    /// Takes up to `lines` stages from the chain bonus; returns how many were taken.
    pub fn consume_chain_bonus(&mut self, lines: u32) -> (consumed: u32)
        ensures
            consumed == min_u32(old(self).chain_bonus, lines),
            final(self).chain_bonus == old(self).chain_bonus - consumed,
            final(self).score == old(self).score,
            final(self).max_chains == old(self).max_chains,
    {
        let consumed = if self.chain_bonus <= lines { self.chain_bonus } else { lines };
        self.chain_bonus = self.chain_bonus - consumed;
        consumed
    }

    /// Replaces the chain bonus by `total_bonus`, capped at ten stages.
    pub fn set_chain_bonus_from_total(&mut self, total_bonus: u32)
        ensures
            final(self).chain_bonus == min_u32(total_bonus, CHAIN_BONUS_LIMIT),
            final(self).score == old(self).score,
            final(self).max_chains == old(self).max_chains,
    {
        self.chain_bonus = if total_bonus <= CHAIN_BONUS_LIMIT { total_bonus } else { CHAIN_BONUS_LIMIT };
    }

    /// Text of the score panel.
    pub fn display_string(&self) -> (s: String)
        ensures
            s@ == score_display(self.score.value(), self.max_chains),
    {
        let mut s = String::new();
        s.append("SCORE:    ");
        push_decimal(&mut s, self.score.total() as u64);
        s.append("\n\nMAX-CHAIN:\n  CYAN:    ");
        push_decimal(&mut s, self.max_chains.cyan as u64);
        s.append("\n  MAGENTA: ");
        push_decimal(&mut s, self.max_chains.magenta as u64);
        s.append("\n  YELLOW:  ");
        push_decimal(&mut s, self.max_chains.yellow as u64);
        assert(s@ =~= score_display(self.score.value(), self.max_chains));
        s
    }
}

/// Points a cell earns when its line is cleared: block count times the
/// longest chain of its colour times ten (a plain block counts as one).
pub open spec fn cell_points(cell: Cell, m: ColorMaxChains) -> int {
    match cell {
        Cell::Occupied(color) => chain_of(m, color) * 10,
        Cell::Connected { color, count } => count * chain_of(m, color) * 10,
        _ => 0,
    }
}

/// Points of the first `n` cells of a row.
pub open spec fn row_points(row: Seq<Cell>, m: ColorMaxChains, n: int) -> int
    decreases n,
{
    if n <= 0 {
        0
    } else {
        row_points(row, m, n - 1) + cell_points(row[n - 1], m)
    }
}

/// Points of a cell, computed.
pub fn cell_score(cell: Cell, m: &ColorMaxChains) -> (p: u32)
    requires
        cell_points(cell, *m) <= u32::MAX,
    ensures
        p as int == cell_points(cell, *m),
{
    match cell {
        Cell::Occupied(color) => m.get(color) * 10,
        Cell::Connected { color, count } => {
            let g = m.get(color);
            assert((count as u32) * g <= count * g * 10) by (nonlinear_arith);
            (count as u32) * g * 10
        },
        _ => 0,
    }
}

proof fn lemma_row_points_monotone(row: Seq<Cell>, m: ColorMaxChains, a: int, b: int)
    requires
        0 <= a <= b,
    ensures
        row_points(row, m, a) <= row_points(row, m, b),
    decreases b - a,
{
    if a < b {
        lemma_row_points_monotone(row, m, a, b - 1);
        assert(cell_points(row[b - 1], m) >= 0) by (nonlinear_arith)
            requires
                row[b - 1] is Connected ==> row[b - 1]->count >= 0,
        {
        }
    }
}

/// Total points earned by clearing line `line_y`.
pub fn calculate_line_clear_total_score(board: &Board, line_y: usize, max_chains: &ColorMaxChains) -> (total: u32)
    requires
        rows_wf(board_rows(board@)),
        line_y < BOARD_HEIGHT,
        row_points(board_rows(board@)[line_y as int], *max_chains, BOARD_WIDTH as int) <= u32::MAX,
    ensures
        total as int == row_points(board_rows(board@)[line_y as int], *max_chains, BOARD_WIDTH as int),
{
    let ghost row = board_rows(board@)[line_y as int];
    assert(row.len() == 10);
    let mut total: u32 = 0;
    let mut x: usize = 0;
    while x < 10
        invariant
            x <= 10,
            row == board_rows(board@)[line_y as int],
            row.len() == 10,
            line_y < board@.len(),
            row == board@[line_y as int]@,
            row_points(row, *max_chains, 10) <= u32::MAX,
            total as int == row_points(row, *max_chains, x as int),
        decreases 10 - x,
    {
        proof {
            lemma_row_points_monotone(row, *max_chains, x as int + 1, 10);
            lemma_row_points_monotone(row, *max_chains, 0, x as int);
            assert(cell_points(row[x as int], *max_chains) >= 0) by (nonlinear_arith)
                requires
                    row[x as int] is Connected ==> row[x as int]->count >= 0,
            {
            }
        }
        let p = cell_score(board[line_y][x], max_chains);
        total = total + p;
        x += 1;
    }
    total
}

} // verus!
