//! Board rules on fixed-size boards, as functions from boards to results.
use vstd::prelude::*;
use crate::animation::{lines_equal, lines_other};
use crate::cell::{Cell, block_color, cell_at, fixed_rows, set_fixed_cell};
use crate::board_logic::{count_blocks_from_row, counts_spec};
use crate::config::{BOARD_HEIGHT, BOARD_WIDTH};
use crate::connectivity::{
    colors_from_fixed, colors_of, component, every_row, flood_fill, grid_node, grid_wf, is_isolated_at,
    is_rep, isolated, lemma_component_len, lemma_distinct_bounded_len, lemma_scan_closed,
    lemma_scan_flooded, lemma_scan_rep, lemma_scan_skip, lemma_scan_start, num_cells, reach,
    rows_except, rows_without, scan_inv, all_rows, row_of,
};
use crate::game_color::GameColor;

verus! {

/// A board of fixed size; row 0 is the top.
pub type FixedBoard = [[Cell; BOARD_WIDTH]; BOARD_HEIGHT];

/// A board position: column, then row.
#[derive(Debug, Clone, Copy, PartialEq, Eq, Structural)]
pub struct Point(pub usize, pub usize);

/// A group of same-coloured blocks.
#[derive(Debug, Clone, PartialEq)]
pub struct ConnectedComponent {
    pub color: GameColor,
    pub positions: Vec<Point>,
    pub size: u32,
}

/// Completed lines, split into the bottom line and the others.
#[derive(Debug, Clone, PartialEq)]
pub struct LineAnalysis {
    pub complete_lines: Vec<usize>,
    pub bottom_lines: Vec<usize>,
    pub non_bottom_lines: Vec<usize>,
}

/// Cell index of a position.
pub open spec fn point_index(p: Point) -> int {
    p.1 * BOARD_WIDTH as int + p.0
}

/// A position on the board.
pub open spec fn point_valid(p: Point) -> bool {
    p.0 < BOARD_WIDTH && p.1 < BOARD_HEIGHT
}

/// `cc` lists exactly the component whose first cell is `rep`.
pub open spec fn component_entry(colors: Seq<Option<GameColor>>, allowed: Seq<bool>, cc: ConnectedComponent, rep: int) -> bool {
    let ps = cc.positions@;
    &&& ps.len() > 0
    &&& point_index(ps[0]) == rep
    &&& colors[rep] == Some(cc.color)
    &&& cc.size as int == ps.len()
    &&& forall|m: int| 0 <= m < ps.len() ==> point_valid(#[trigger] ps[m]) && reach(colors, allowed, rep, point_index(ps[m]))
    &&& forall|m1: int, m2: int| 0 <= m1 < ps.len() && 0 <= m2 < ps.len() && m1 != m2
        ==> point_index(#[trigger] ps[m1]) != point_index(#[trigger] ps[m2])
    &&& forall|j: int| #[trigger] reach(colors, allowed, rep, j) ==> exists|m: int| 0 <= m < ps.len() && point_index(#[trigger] ps[m]) == j
}

/// The components of a board, one entry per component in the order of their
/// first cells.
pub open spec fn components_spec(colors: Seq<Option<GameColor>>, allowed: Seq<bool>, r: Seq<ConnectedComponent>) -> bool {
    &&& forall|k: int| 0 <= k < r.len() ==> is_rep(colors, allowed, 0, point_index(#[trigger] r[k].positions@[0]))
        && component_entry(colors, allowed, r[k], point_index(r[k].positions@[0]))
    &&& forall|k1: int, k2: int| 0 <= k1 < k2 < r.len() ==>
        point_index(#[trigger] r[k1].positions@[0]) < point_index(#[trigger] r[k2].positions@[0])
    &&& forall|i: int| #[trigger] is_rep(colors, allowed, 0, i) ==>
        exists|k: int| 0 <= k < r.len() && point_index(#[trigger] r[k].positions@[0]) == i
}

/// Positions of a flooded component.
fn positions_of(comp: &Vec<usize>) -> (ps: Vec<Point>)
    requires
        forall|m: int| 0 <= m < comp@.len() ==> (#[trigger] comp@[m] as int) < num_cells(),
    ensures
        ps@.len() == comp@.len(),
        forall|m: int| 0 <= m < ps@.len() ==> point_valid(#[trigger] ps@[m]) && point_index(ps@[m]) == comp@[m] as int,
{
    let mut ps: Vec<Point> = Vec::new();
    let mut k: usize = 0;
    while k < comp.len()
        invariant
            k <= comp@.len(),
            ps@.len() == k,
            forall|m: int| 0 <= m < comp@.len() ==> (#[trigger] comp@[m] as int) < num_cells(),
            forall|m: int| 0 <= m < k ==> point_valid(#[trigger] ps@[m]) && point_index(ps@[m]) == comp@[m] as int,
        decreases comp@.len() - k,
    {
        let p = comp[k];
        ps.push(Point(p % 10, p / 10));
        k += 1;
    }
    ps
}

/// Every group of same-coloured blocks outside the rows `exclude_lines`,
/// single blocks included, in the order of their first cells (row by row).
pub fn find_connected_components(board: FixedBoard, exclude_lines: &[usize]) -> (components: Vec<ConnectedComponent>)
    ensures
        components_spec(colors_of(fixed_rows(board)), rows_except(exclude_lines@), components@),
{
    let colors = colors_from_fixed(&board);
    let allowed = rows_without(exclude_lines);
    let ghost c = colors@;
    let ghost a = allowed@;
    let mut components: Vec<ConnectedComponent> = Vec::new();
    let mut visited = vec![false; 200];
    let mut i: usize = 0;
    proof {
        lemma_scan_start(c, a, visited@, 0);
    }
    while i < 200
        invariant
            i <= 200,
            colors@ == c,
            allowed@ == a,
            grid_wf(c, a),
            scan_inv(c, a, visited@, 0, i as int),
            forall|k: int| 0 <= k < components@.len() ==> is_rep(c, a, 0, point_index(#[trigger] components@[k].positions@[0]))
                && component_entry(c, a, components@[k], point_index(components@[k].positions@[0]))
                && point_index(components@[k].positions@[0]) < i,
            forall|k1: int, k2: int| 0 <= k1 < k2 < components@.len() ==>
                point_index(#[trigger] components@[k1].positions@[0]) < point_index(#[trigger] components@[k2].positions@[0]),
            forall|q: int| 0 <= q < i && #[trigger] is_rep(c, a, 0, q) ==>
                exists|k: int| 0 <= k < components@.len() && point_index(#[trigger] components@[k].positions@[0]) == q,
        decreases 200 - i,
    {
        proof {
            lemma_scan_rep(c, a, visited@, 0, i as int);
        }
        if colors[i].is_some() && allowed[i / 10] && !visited[i] {
            proof {
                lemma_scan_closed(c, a, visited@, 0, i as int);
            }
            let ghost v = visited@;
            let comp = flood_fill(&colors, &allowed, i, &mut visited);
            proof {
                lemma_scan_flooded(c, a, v, visited@, 0, i as int);
                lemma_distinct_bounded_len(comp@, 200);
            }
            let positions = positions_of(&comp);
            let color = colors[i].unwrap();
            let size = positions.len() as u32;
            let ghost before = components@;
            let cc = ConnectedComponent { color, positions, size };
            proof {
                let ps = cc.positions@;
                assert forall|m1: int, m2: int| 0 <= m1 < ps.len() && 0 <= m2 < ps.len() && m1 != m2
                    implies point_index(#[trigger] ps[m1]) != point_index(#[trigger] ps[m2]) by {
                    assert(comp@[m1] != comp@[m2]);
                }
                assert forall|j: int| #[trigger] reach(c, a, i as int, j)
                    implies exists|m: int| 0 <= m < ps.len() && point_index(#[trigger] ps[m]) == j by {
                    assert(comp@.contains(j as usize));
                    let m = choose|m: int| 0 <= m < comp@.len() && comp@[m] == j as usize;
                    crate::connectivity::lemma_reach_node(c, a, i as int, j);
                    assert(point_index(ps[m]) == j);
                }
                assert(component_entry(c, a, cc, i as int));
            }
            components.push(cc);
            proof {
                assert forall|k: int| 0 <= k < components@.len() implies is_rep(c, a, 0, point_index(#[trigger] components@[k].positions@[0]))
                    && component_entry(c, a, components@[k], point_index(components@[k].positions@[0]))
                    && point_index(components@[k].positions@[0]) < i + 1 by {
                    if k < before.len() {
                        assert(components@[k] == before[k]);
                    }
                }
                assert forall|k1: int, k2: int| 0 <= k1 < k2 < components@.len() implies
                    point_index(#[trigger] components@[k1].positions@[0]) < point_index(#[trigger] components@[k2].positions@[0]) by {
                    assert(components@[k1] == before[k1]);
                    if k2 < before.len() {
                        assert(components@[k2] == before[k2]);
                    }
                }
                assert forall|q: int| 0 <= q < i + 1 && #[trigger] is_rep(c, a, 0, q) implies
                    exists|k: int| 0 <= k < components@.len() && point_index(#[trigger] components@[k].positions@[0]) == q by {
                    if q < i {
                        let k = choose|k: int| 0 <= k < before.len() && point_index(#[trigger] before[k].positions@[0]) == q;
                        assert(components@[k] == before[k]);
                    } else {
                        assert(point_index(components@[before.len() as int].positions@[0]) == q);
                    }
                }
            }
        } else {
            proof {
                lemma_scan_skip(c, a, visited@, 0, i as int);
            }
        }
        i += 1;
    }
    proof {
        assert forall|q: int| #[trigger] is_rep(c, a, 0, q) implies
            exists|k: int| 0 <= k < components@.len() && point_index(#[trigger] components@[k].positions@[0]) == q by {
            assert(q < 200);
        }
    }
    components
}

/// Neighbours of a position on the board, in the order left, right, up, down.
pub fn get_neighbors(point: Point) -> (neighbors: Vec<Point>)
    requires
        point_valid(point),
    ensures
        forall|m: int| 0 <= m < neighbors@.len() ==> point_valid(#[trigger] neighbors@[m])
            && crate::connectivity::grid_adjacent(point_index(point), point_index(neighbors@[m])),
        forall|j: int| #[trigger] crate::connectivity::grid_adjacent(point_index(point), j) ==>
            exists|m: int| 0 <= m < neighbors@.len() && point_index(#[trigger] neighbors@[m]) == j,
{
    let Point(x, y) = point;
    let mut neighbors: Vec<Point> = Vec::new();
    let ghost mut left: int = -1;
    let ghost mut right: int = -1;
    let ghost mut up: int = -1;
    let ghost mut down: int = -1;
    if x > 0 {
        proof { left = neighbors@.len() as int; }
        neighbors.push(Point(x - 1, y));
    }
    if x + 1 < 10 {
        proof { right = neighbors@.len() as int; }
        neighbors.push(Point(x + 1, y));
    }
    if y > 0 {
        proof { up = neighbors@.len() as int; }
        neighbors.push(Point(x, y - 1));
    }
    if y + 1 < 20 {
        proof { down = neighbors@.len() as int; }
        neighbors.push(Point(x, y + 1));
    }
    proof {
        assert(x > 0 ==> neighbors@[left] == Point((x - 1) as usize, y));
        assert(x + 1 < 10 ==> neighbors@[right] == Point((x + 1) as usize, y));
        assert(y > 0 ==> neighbors@[up] == Point(x, (y - 1) as usize));
        assert(y + 1 < 20 ==> neighbors@[down] == Point(x, (y + 1) as usize));
        assert forall|j: int| #[trigger] crate::connectivity::grid_adjacent(point_index(point), j) implies
            exists|m: int| 0 <= m < neighbors@.len() && point_index(#[trigger] neighbors@[m]) == j by {
            let i = point_index(point);
            crate::connectivity::lemma_index_parts(x as int, y as int);
            if j == i - 1 && x > 0 {
                assert(point_index(neighbors@[left]) == j);
            } else if j == i + 1 && x + 1 < 10 {
                assert(point_index(neighbors@[right]) == j);
            } else if j == i - 10 {
                assert(point_index(neighbors@[up]) == j);
            } else {
                assert(point_index(neighbors@[down]) == j);
            }
        }
    }
    neighbors
}

/// Every cell of the row is a solid block.
pub open spec fn row_solid(row: Seq<Cell>) -> bool {
    forall|x: int| 0 <= x < BOARD_WIDTH ==> #[trigger] row[x] == Cell::Solid
}

/// No cell of the row is empty.
pub open spec fn row_full(row: Seq<Cell>) -> bool {
    forall|x: int| 0 <= x < BOARD_WIDTH ==> #[trigger] row[x] != Cell::Empty
}

/// Some cell of the row is not empty.
pub open spec fn row_used(row: Seq<Cell>) -> bool {
    exists|x: int| 0 <= x < BOARD_WIDTH && #[trigger] row[x] != Cell::Empty
}

/// Executable form of `row_solid`.
pub fn row_is_solid(row: &[Cell; BOARD_WIDTH]) -> (r: bool)
    ensures
        r == row_solid(row@),
{
    let mut x: usize = 0;
    while x < 10
        invariant
            x <= 10,
            forall|k: int| 0 <= k < x ==> #[trigger] row@[k] == Cell::Solid,
        decreases 10 - x,
    {
        if row[x] != Cell::Solid {
            return false;
        }
        x += 1;
    }
    true
}

/// Executable form of `row_full`.
pub fn row_is_full(row: &[Cell; BOARD_WIDTH]) -> (r: bool)
    ensures
        r == row_full(row@),
{
    let mut x: usize = 0;
    while x < 10
        invariant
            x <= 10,
            forall|k: int| 0 <= k < x ==> #[trigger] row@[k] != Cell::Empty,
        decreases 10 - x,
    {
        if row[x] == Cell::Empty {
            return false;
        }
        x += 1;
    }
    true
}

/// Executable form of `row_used`.
pub fn row_is_used(row: &[Cell; BOARD_WIDTH]) -> (r: bool)
    ensures
        r == row_used(row@),
{
    let mut x: usize = 0;
    while x < 10
        invariant
            x <= 10,
            forall|k: int| 0 <= k < x ==> #[trigger] row@[k] == Cell::Empty,
        decreases 10 - x,
    {
        if row[x] != Cell::Empty {
            return true;
        }
        x += 1;
    }
    false
}

/// Completed lines among the first `n` rows, top to bottom.
pub open spec fn complete_upto(rows: Seq<Seq<Cell>>, n: int) -> Seq<usize>
    decreases n,
{
    if n <= 0 {
        Seq::empty()
    } else if row_full(rows[n - 1]) {
        complete_upto(rows, n - 1).push((n - 1) as usize)
    } else {
        complete_upto(rows, n - 1)
    }
}

/// No one of the `BOARD_WIDTH` cells of `row` is empty.
pub open spec fn no_gap(row: Seq<Cell>) -> bool {
    forall|x: int| 0 <= x < BOARD_WIDTH ==> #[trigger] row[x] != Cell::Empty
}

/// The completed lines among the first `n` rows are exactly the rows
/// `0..n` with no empty cell in any of their `BOARD_WIDTH` cells: a row with
/// an empty cell is never among them.
pub proof fn lemma_complete_lines_have_no_gap(rows: Seq<Seq<Cell>>, n: int)
    requires
        0 <= n <= BOARD_HEIGHT,
    ensures
        forall|k: int| 0 <= k < complete_upto(rows, n).len() ==> 0 <= #[trigger] complete_upto(rows, n)[k] < n
            && no_gap(rows[complete_upto(rows, n)[k] as int]),
        forall|y: int| 0 <= y < n && #[trigger] no_gap(rows[y]) ==> complete_upto(rows, n).contains(y as usize),
    decreases n,
{
    if n > 0 {
        lemma_complete_lines_have_no_gap(rows, n - 1);
        let prev = complete_upto(rows, n - 1);
        let cur = complete_upto(rows, n);
        assert(row_full(rows[n - 1]) <==> no_gap(rows[n - 1]));
        if row_full(rows[n - 1]) {
            assert(cur == prev.push((n - 1) as usize));
            assert forall|k: int| 0 <= k < cur.len() implies 0 <= #[trigger] cur[k] < n
                && no_gap(rows[cur[k] as int]) by {
                if k < prev.len() {
                    assert(cur[k] == prev[k]);
                } else {
                    assert(cur[k] == (n - 1) as usize);
                }
            }
            assert forall|y: int| 0 <= y < n && #[trigger] no_gap(rows[y]) implies cur.contains(y as usize) by {
                if y == n - 1 {
                    assert(cur[prev.len() as int] == y as usize);
                } else {
                    assert(prev.contains(y as usize));
                    let m = choose|m: int| 0 <= m < prev.len() && prev[m] == y as usize;
                    assert(cur[m] == prev[m]);
                }
            }
        } else {
            assert(cur == prev);
        }
    }
}

/// Rows among the first `current_height` rows with no empty cell, top to bottom.
pub fn find_complete_lines(board: FixedBoard, current_height: usize) -> (lines: Vec<usize>)
    requires
        current_height <= BOARD_HEIGHT,
    ensures
        lines@ == complete_upto(fixed_rows(board), current_height as int),
{
    let ghost rows = fixed_rows(board);
    let mut lines: Vec<usize> = Vec::new();
    let mut y: usize = 0;
    while y < current_height
        invariant
            y <= current_height <= 20,
            rows == fixed_rows(board),
            lines@ == complete_upto(rows, y as int),
        decreases current_height - y,
    {
        if row_is_full(&board[y]) {
            lines.push(y);
        }
        y += 1;
    }
    lines
}

/// Splits `lines` into the bottom line (`current_height - 1`, or 0 for an
/// empty play area) and the others; the given list is kept whole too.
pub fn analyze_lines(lines: &[usize], current_height: usize) -> (analysis: LineAnalysis)
    ensures
        analysis.complete_lines@ == lines@,
        analysis.bottom_lines@ == lines_equal(lines@, if current_height > 0 { current_height - 1 } else { 0 }),
        analysis.non_bottom_lines@ == lines_other(lines@, if current_height > 0 { current_height - 1 } else { 0 }),
{
    let bottom_line = if current_height > 0 { current_height - 1 } else { 0 };
    let mut bottom_lines: Vec<usize> = Vec::new();
    let mut non_bottom_lines: Vec<usize> = Vec::new();
    let mut complete_lines: Vec<usize> = Vec::new();
    let mut k: usize = 0;
    while k < lines.len()
        invariant
            k <= lines@.len(),
            complete_lines@ == lines@.take(k as int),
            bottom_lines@ == lines_equal(lines@.take(k as int), bottom_line as int),
            non_bottom_lines@ == lines_other(lines@.take(k as int), bottom_line as int),
        decreases lines@.len() - k,
    {
        proof {
            assert(lines@.take(k as int + 1).drop_last() =~= lines@.take(k as int));
        }
        let line_y = lines[k];
        if line_y == bottom_line {
            bottom_lines.push(line_y);
        } else {
            non_bottom_lines.push(line_y);
        }
        complete_lines.push(line_y);
        proof {
            assert(complete_lines@ =~= lines@.take(k as int + 1));
        }
        k += 1;
    }
    proof {
        assert(lines@.take(lines@.len() as int) =~= lines@);
    }
    LineAnalysis { complete_lines, bottom_lines, non_bottom_lines }
}

/// Number of solid rows directly above row `h`, counted upwards from row `h - 1`.
pub open spec fn solid_run(rows: Seq<Seq<Cell>>, h: int) -> int
    decreases h,
{
    if h <= 0 {
        0
    } else if row_solid(rows[h - 1]) {
        1 + solid_run(rows, h - 1)
    } else {
        0
    }
}

/// A run of solid lines is never negative and never longer than the rows
/// it is counted over.
pub proof fn lemma_solid_run_bounds(rows: Seq<Seq<Cell>>, h: int)
    ensures
        0 <= solid_run(rows, h),
        h >= 0 ==> solid_run(rows, h) <= h,
    decreases h,
{
    if h > 0 {
        lemma_solid_run_bounds(rows, h - 1);
    }
}

/// Number of solid lines stacked at the bottom of the play area, counted
/// upwards from row `current_height - 1` until the first row that is not solid.
pub fn count_solid_lines_from_bottom(board: FixedBoard, current_height: usize) -> (count: usize)
    requires
        current_height <= BOARD_HEIGHT,
    ensures
        count as int == solid_run(fixed_rows(board), current_height as int),
{
    let ghost rows = fixed_rows(board);
    let mut solid_count: usize = 0;
    let mut y: usize = current_height;
    while y > 0
        invariant
            y <= current_height <= 20,
            rows == fixed_rows(board),
            solid_count + solid_run(rows, y as int) == solid_run(rows, current_height as int),
            solid_count <= current_height - y,
        decreases y,
    {
        if row_is_solid(&board[y - 1]) {
            solid_count += 1;
            y -= 1;
        } else {
            return solid_count;
        }
    }
    solid_count
}

/// The position `(x, y)` lies on the board.
pub fn is_valid_position(x: i32, y: i32) -> (r: bool)
    ensures
        r == (0 <= x < BOARD_WIDTH && 0 <= y < BOARD_HEIGHT),
{
    x >= 0 && x < 10 && y >= 0 && y < 20
}

/// One past the lowest row among the first `n` rows that holds a non-empty
/// cell; 0 when there is none.
pub open spec fn used_height(rows: Seq<Seq<Cell>>, n: int) -> int
    decreases n,
{
    if n <= 0 {
        0
    } else if row_used(rows[n - 1]) {
        n
    } else {
        used_height(rows, n - 1)
    }
}

/// Height of the board's contents: one past the lowest row that holds a
/// non-empty cell, 0 for an empty board.
pub fn calculate_board_height(board: FixedBoard) -> (height: usize)
    ensures
        height as int == used_height(fixed_rows(board), BOARD_HEIGHT as int),
{
    let ghost rows = fixed_rows(board);
    let mut y: usize = 20;
    while y > 0
        invariant
            y <= 20,
            rows == fixed_rows(board),
            used_height(rows, 20) == used_height(rows, y as int),
        decreases y,
    {
        if row_is_used(&board[y - 1]) {
            return y;
        }
        y -= 1;
    }
    0
}

/// Chain counts with positions as pairs.
pub open spec fn counts_as_pairs(r: Seq<(Point, u32)>) -> Seq<((usize, usize), u32)> {
    r.map_values(|e: (Point, u32)| ((e.0.0, e.0.1), e.1))
}

/// For every block cell that belongs to a group with a block below row
/// `cleared_line_y`, its position and the size of its group.
pub fn count_connected_blocks_above_line(board: FixedBoard, cleared_line_y: usize) -> (results: Vec<(Point, u32)>)
    requires
        cleared_line_y < usize::MAX,
    ensures
        counts_spec(colors_of(fixed_rows(board)), all_rows(), cleared_line_y + 1, counts_as_pairs(results@)),
{
    let colors = colors_from_fixed(&board);
    let allowed = every_row();
    let pairs = count_blocks_from_row(&colors, &allowed, cleared_line_y + 1);
    let mut results: Vec<(Point, u32)> = Vec::new();
    let mut k: usize = 0;
    while k < pairs.len()
        invariant
            k <= pairs@.len(),
            counts_as_pairs(results@) == pairs@.take(k as int),
        decreases pairs@.len() - k,
    {
        let ((x, y), n) = pairs[k];
        let ghost before = results@;
        results.push((Point(x, y), n));
        proof {
            assert(counts_as_pairs(results@) =~= counts_as_pairs(before).push(((x, y), n)));
            assert(pairs@.take(k as int + 1) =~= pairs@.take(k as int).push(pairs@[k as int]));
            assert(counts_as_pairs(results@) =~= pairs@.take(k as int + 1));
        }
        k += 1;
    }
    proof {
        assert(pairs@.take(pairs@.len() as int) =~= pairs@);
    }
    results
}

/// Block cells below row `above_line` without a same-coloured orthogonal
/// neighbour, row by row.
pub fn find_isolated_blocks(board: FixedBoard, above_line: usize) -> (isolated_blocks: Vec<Point>)
    requires
        above_line < usize::MAX,
    ensures
        forall|m: int| 0 <= m < isolated_blocks@.len() ==> point_valid(#[trigger] isolated_blocks@[m])
            && isolated_blocks@[m].1 > above_line
            && isolated(colors_of(fixed_rows(board)), point_index(isolated_blocks@[m])),
        forall|m1: int, m2: int| 0 <= m1 < m2 < isolated_blocks@.len() ==>
            point_index(#[trigger] isolated_blocks@[m1]) < point_index(#[trigger] isolated_blocks@[m2]),
        forall|i: int| 0 <= i < num_cells() && row_of(i) > above_line && #[trigger] isolated(colors_of(fixed_rows(board)), i)
            ==> exists|m: int| 0 <= m < isolated_blocks@.len() && point_index(#[trigger] isolated_blocks@[m]) == i,
{
    let colors = colors_from_fixed(&board);
    let ghost c = colors@;
    let mut isolated_blocks: Vec<Point> = Vec::new();
    let first = above_line + 1;
    if first >= 20 {
        return isolated_blocks;
    }
    let mut i: usize = first * 10;
    while i < 200
        invariant
            first * 10 <= i <= 200,
            first == above_line + 1,
            colors@ == c,
            c.len() == 200,
            forall|m: int| 0 <= m < isolated_blocks@.len() ==> point_valid(#[trigger] isolated_blocks@[m])
                && isolated_blocks@[m].1 > above_line
                && isolated(c, point_index(isolated_blocks@[m]))
                && point_index(isolated_blocks@[m]) < i,
            forall|m1: int, m2: int| 0 <= m1 < m2 < isolated_blocks@.len() ==>
                point_index(#[trigger] isolated_blocks@[m1]) < point_index(#[trigger] isolated_blocks@[m2]),
            forall|q: int| first * 10 <= q < i && #[trigger] isolated(c, q)
                ==> exists|m: int| 0 <= m < isolated_blocks@.len() && point_index(#[trigger] isolated_blocks@[m]) == q,
        decreases 200 - i,
    {
        proof {
            crate::connectivity::lemma_index_parts((i % 10) as int, (i / 10) as int);
        }
        if is_isolated_at(&colors, i) {
            let ghost before = isolated_blocks@;
            isolated_blocks.push(Point(i % 10, i / 10));
            proof {
                assert(point_index(isolated_blocks@[before.len() as int]) == i);
                assert forall|q: int| first * 10 <= q < i + 1 && #[trigger] isolated(c, q)
                    implies exists|m: int| 0 <= m < isolated_blocks@.len() && point_index(#[trigger] isolated_blocks@[m]) == q by {
                    if q < i {
                        let m = choose|m: int| 0 <= m < before.len() && point_index(#[trigger] before[m]) == q;
                        assert(isolated_blocks@[m] == before[m]);
                    } else {
                        assert(point_index(isolated_blocks@[before.len() as int]) == q);
                    }
                }
                assert forall|m1: int, m2: int| 0 <= m1 < m2 < isolated_blocks@.len() implies
                    point_index(#[trigger] isolated_blocks@[m1]) < point_index(#[trigger] isolated_blocks@[m2]) by {
                    assert(isolated_blocks@[m1] == before[m1]);
                    if m2 < before.len() {
                        assert(isolated_blocks@[m2] == before[m2]);
                    }
                }
            }
        }
        i += 1;
    }
    proof {
        assert forall|q: int| 0 <= q < num_cells() && row_of(q) > above_line && #[trigger] isolated(c, q)
            implies exists|m: int| 0 <= m < isolated_blocks@.len() && point_index(#[trigger] isolated_blocks@[m]) == q by {
            assert(first * 10 <= q);
        }
    }
    isolated_blocks
}

/// Cell `i` is one of the first `n` positions of `ps`.
pub open spec fn among_points(ps: Seq<Point>, n: int, i: int) -> bool {
    exists|m: int| 0 <= m < n && point_index(#[trigger] ps[m]) == i
}

/// Cell `i` after the components `comps` were applied in order: a cell that
/// is still an `Occupied` block when a component naming it comes up becomes a
/// `Connected` block of the component's colour with count 1.
pub open spec fn applied_cell(cell: Cell, comps: Seq<ConnectedComponent>, i: int) -> Cell
    decreases comps.len(),
{
    if comps.len() == 0 {
        cell
    } else {
        let prev = applied_cell(cell, comps.drop_last(), i);
        let cc = comps.last();
        if prev is Occupied && among_points(cc.positions@, cc.positions@.len() as int, i) {
            Cell::Connected { color: cc.color, count: 1 }
        } else {
            prev
        }
    }
}

/// Marks the `Occupied` blocks named by the components as `Connected` blocks
/// of the component's colour, with count 1.
pub fn apply_connected_components(board: FixedBoard, components: &[ConnectedComponent]) -> (result: FixedBoard)
    requires
        forall|k: int, m: int| 0 <= k < components@.len() && 0 <= m < components@[k].positions@.len()
            ==> point_valid(#[trigger] components@[k].positions@[m]),
    ensures
        forall|i: int| 0 <= i < num_cells() ==> #[trigger] cell_at(fixed_rows(result), i)
            == applied_cell(cell_at(fixed_rows(board), i), components@, i),
{
    let ghost rows0 = fixed_rows(board);
    let mut board = board;
    let mut k: usize = 0;
    while k < components.len()
        invariant
            k <= components@.len(),
            rows0.len() == 20,
            forall|kk: int, m: int| 0 <= kk < components@.len() && 0 <= m < components@[kk].positions@.len()
                ==> point_valid(#[trigger] components@[kk].positions@[m]),
            forall|i: int| 0 <= i < num_cells() ==> #[trigger] cell_at(fixed_rows(board), i)
                == applied_cell(cell_at(rows0, i), components@.take(k as int), i),
        decreases components@.len() - k,
    {
        let cc = &components[k];
        let ghost mid = fixed_rows(board);
        proof {
            assert(components@.take(k as int + 1).drop_last() =~= components@.take(k as int));
        }
        let mut m: usize = 0;
        while m < cc.positions.len()
            invariant
                m <= cc.positions@.len(),
                *cc == components@[k as int],
                forall|q: int| 0 <= q < cc.positions@.len() ==> point_valid(#[trigger] cc.positions@[q]),
                forall|i: int| 0 <= i < num_cells() ==> #[trigger] cell_at(fixed_rows(board), i) ==
                    if cell_at(mid, i) is Occupied && among_points(cc.positions@, m as int, i) {
                        Cell::Connected { color: cc.color, count: 1 }
                    } else {
                        cell_at(mid, i)
                    },
            decreases cc.positions@.len() - m,
        {
            let Point(x, y) = cc.positions[m];
            let ghost before = fixed_rows(board);
            proof {
                crate::connectivity::lemma_index_parts(x as int, y as int);
            }
            if let Cell::Occupied(_) = board[y][x] {
                set_fixed_cell(&mut board, y, x, Cell::Connected { color: cc.color, count: 1 });
            }
            proof {
                let p = point_index(cc.positions@[m as int]);
                assert forall|i: int| 0 <= i < num_cells() implies #[trigger] cell_at(fixed_rows(board), i) ==
                    if cell_at(mid, i) is Occupied && among_points(cc.positions@, m as int + 1, i) {
                        Cell::Connected { color: cc.color, count: 1 }
                    } else {
                        cell_at(mid, i)
                    } by {
                    assert(cell_at(before, i) == if cell_at(mid, i) is Occupied && among_points(cc.positions@, m as int, i) {
                        Cell::Connected { color: cc.color, count: 1 }
                    } else {
                        cell_at(mid, i)
                    });
                    if i == p {
                        assert(point_index(cc.positions@[m as int]) == i);
                    } else {
                        crate::connectivity::lemma_index_parts(i % 10, i / 10);
                        assert(cell_at(fixed_rows(board), i) == cell_at(before, i));
                        if among_points(cc.positions@, m as int + 1, i) {
                            let q = choose|q: int| 0 <= q < m + 1 && point_index(#[trigger] cc.positions@[q]) == i;
                            assert(q < m);
                        }
                    }
                }
            }
            m += 1;
        }
        k += 1;
    }
    proof {
        assert(components@.take(components@.len() as int) =~= components@);
    }
    board
}

/// Empties the listed positions.
pub fn remove_isolated_blocks_from_board(board: FixedBoard, isolated_blocks: &[Point]) -> (result: FixedBoard)
    requires
        forall|m: int| 0 <= m < isolated_blocks@.len() ==> point_valid(#[trigger] isolated_blocks@[m]),
    ensures
        forall|i: int| 0 <= i < num_cells() ==> #[trigger] cell_at(fixed_rows(result), i)
            == if among_points(isolated_blocks@, isolated_blocks@.len() as int, i) { Cell::Empty } else { cell_at(fixed_rows(board), i) },
{
    let ghost rows0 = fixed_rows(board);
    let mut board = board;
    let mut m: usize = 0;
    while m < isolated_blocks.len()
        invariant
            m <= isolated_blocks@.len(),
            forall|q: int| 0 <= q < isolated_blocks@.len() ==> point_valid(#[trigger] isolated_blocks@[q]),
            forall|i: int| 0 <= i < num_cells() ==> #[trigger] cell_at(fixed_rows(board), i)
                == if among_points(isolated_blocks@, m as int, i) { Cell::Empty } else { cell_at(rows0, i) },
        decreases isolated_blocks@.len() - m,
    {
        let Point(x, y) = isolated_blocks[m];
        let ghost before = fixed_rows(board);
        set_fixed_cell(&mut board, y, x, Cell::Empty);
        proof {
            crate::connectivity::lemma_index_parts(x as int, y as int);
            assert forall|i: int| 0 <= i < num_cells() implies #[trigger] cell_at(fixed_rows(board), i)
                == if among_points(isolated_blocks@, m as int + 1, i) { Cell::Empty } else { cell_at(rows0, i) } by {
                assert(cell_at(before, i) == if among_points(isolated_blocks@, m as int, i) { Cell::Empty } else { cell_at(rows0, i) });
                if i == point_index(isolated_blocks@[m as int]) {
                } else {
                    crate::connectivity::lemma_index_parts(i % 10, i / 10);
                    if among_points(isolated_blocks@, m as int + 1, i) {
                        let q = choose|q: int| 0 <= q < m + 1 && point_index(#[trigger] isolated_blocks@[q]) == i;
                        assert(q < m);
                    }
                }
            }
        }
        m += 1;
    }
    board
}


/// An entry of one chain count is an entry of another over the same cells.
proof fn lemma_count_entry_shared(
    colors: Seq<Option<GameColor>>,
    first_row: int,
    r1: Seq<((usize, usize), u32)>,
    r2: Seq<((usize, usize), u32)>,
    m: int,
)
    requires
        counts_spec(colors, all_rows(), first_row, r1),
        counts_spec(colors, all_rows(), first_row, r2),
        0 <= m < r1.len(),
    ensures
        r2.contains(r1[m]),
{
    let j = crate::board_logic::pt_index(r1[m].0);
    assert(crate::board_logic::pt_valid(r1[m].0));
    assert(crate::board_logic::listed(r2, j));
    let m2 = choose|m2: int| 0 <= m2 < r2.len() && #[trigger] crate::board_logic::pt_index(r2[m2].0) == j;
    assert(crate::board_logic::pt_valid(r2[m2].0));
    crate::connectivity::lemma_index_parts(r1[m].0.0 as int, r1[m].0.1 as int);
    crate::connectivity::lemma_index_parts(r2[m2].0.0 as int, r2[m2].0.1 as int);
    assert(r2[m2].0 == r1[m].0);
    assert(r2[m2] == r1[m]);
}

/// Chain counts over the same cells name distinct entries.
proof fn lemma_count_no_duplicates(colors: Seq<Option<GameColor>>, first_row: int, r: Seq<((usize, usize), u32)>)
    requires
        counts_spec(colors, all_rows(), first_row, r),
    ensures
        r.no_duplicates(),
{
    assert forall|i: int, k: int| 0 <= i < r.len() && 0 <= k < r.len() && i != k implies r[i] != r[k] by {
        assert(crate::board_logic::pt_index(r[i].0) != crate::board_logic::pt_index(r[k].0));
    }
}

/// The chain counts above a cleared line of a fixed-size board
/// (`count_connected_blocks_above_line`, giving `above`) are a reordering of
/// the general count (`crate::board_logic::count_connected_blocks`, giving
/// `general`) on a board of rows with the same cells: the same (position,
/// group size) entries, each position once.
pub proof fn lemma_above_line_count_matches_general(
    board: FixedBoard,
    rows: Seq<Seq<Cell>>,
    cleared_line_y: usize,
    above: Seq<(Point, u32)>,
    general: Seq<((usize, usize), u32)>,
)
    requires
        rows == fixed_rows(board),
        counts_spec(colors_of(fixed_rows(board)), all_rows(), cleared_line_y + 1, counts_as_pairs(above)),
        counts_spec(colors_of(rows), all_rows(), cleared_line_y + 1, general),
    ensures
        counts_as_pairs(above).to_set() == general.to_set(),
        counts_as_pairs(above).len() == general.len(),
        counts_as_pairs(above).no_duplicates(),
        general.no_duplicates(),
        counts_as_pairs(above).to_multiset() == general.to_multiset(),
{
    let p = counts_as_pairs(above);
    let c = colors_of(rows);
    let f = cleared_line_y + 1;
    assert forall|x: ((usize, usize), u32)| p.to_set().contains(x) implies general.to_set().contains(x) by {
        let m = choose|m: int| 0 <= m < p.len() && p[m] == x;
        lemma_count_entry_shared(c, f, p, general, m);
    }
    assert forall|x: ((usize, usize), u32)| general.to_set().contains(x) implies p.to_set().contains(x) by {
        let m = choose|m: int| 0 <= m < general.len() && general[m] == x;
        lemma_count_entry_shared(c, f, general, p, m);
    }
    assert(p.to_set() =~= general.to_set());
    lemma_count_no_duplicates(c, f, p);
    lemma_count_no_duplicates(c, f, general);
    p.unique_seq_to_set();
    general.unique_seq_to_set();
    p.to_multiset_ensures();
    general.to_multiset_ensures();
    p.lemma_multiset_has_no_duplicates();
    general.lemma_multiset_has_no_duplicates();
    assert forall|x: ((usize, usize), u32)| p.to_multiset().count(x) == general.to_multiset().count(x) by {
        if p.contains(x) {
            assert(p.to_set().contains(x));
            assert(general.to_set().contains(x));
        } else if general.contains(x) {
            assert(general.to_set().contains(x));
            assert(p.to_set().contains(x));
        }
    }
    assert(p.to_multiset() =~= general.to_multiset());
}

} // verus!
