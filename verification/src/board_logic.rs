//! Board rules on boards given as rows: joining neighbouring blocks of one
//! colour, counting chains, removing isolated blocks and the chain bonus.
use vstd::prelude::*;
use crate::cell::{Board, Cell, block_color, board_rows, cell_at, cell_color, rows_wf, set_cell};
use crate::config::{BOARD_HEIGHT, BOARD_WIDTH};
use crate::connectivity::{
    all_rows, colors_from_rows, colors_of, component, every_row, flood_fill, grid_wf, is_rep,
    lemma_component_len, lemma_component_shared, lemma_reach_node, reach, rows_except, rows_without, lemma_distinct_bounded_len, lemma_scan_closed, lemma_scan_flooded,
    lemma_scan_rep, lemma_scan_skip, lemma_scan_start, num_cells, scan_inv, scanned,
    isolated, is_isolated_at, lemma_recolouring_keeps_groups, same_colour_pattern,
};
use crate::game_color::GameColor;

verus! {

/// A board position `(x, y)`.
pub type Point = (usize, usize);

/// Bonus stages earned by the component whose first cell is `i`.
pub open spec fn rep_bonus(colors: Seq<Option<GameColor>>, allowed: Seq<bool>, i: int) -> int {
    if is_rep(colors, allowed, 0, i) {
        component(colors, allowed, i).len() as int / 10
    } else {
        0
    }
}

/// Bonus stages of the components whose first cell lies below index `n`.
pub open spec fn chain_bonus_upto(colors: Seq<Option<GameColor>>, allowed: Seq<bool>, n: int) -> int
    decreases n,
{
    if n <= 0 {
        0
    } else {
        chain_bonus_upto(colors, allowed, n - 1) + rep_bonus(colors, allowed, n - 1)
    }
}

/// Chain bonus of a board: every group of same-coloured blocks earns one
/// stage for each ten blocks it holds.
pub open spec fn spec_chain_bonus(rows: Seq<Seq<Cell>>) -> int {
    chain_bonus_upto(colors_of(rows), all_rows(), num_cells())
}

/// Scans the whole board for groups of same-coloured blocks and returns the
/// number of bonus stages they earn: `size / 10` for each group.
pub fn calculate_chain_bonus(board: &Board) -> (total: u32)
    requires
        rows_wf(board_rows(board@)),
    ensures
        total as int == spec_chain_bonus(board_rows(board@)),
{
    let colors = colors_from_rows(board);
    let allowed = every_row();
    let ghost c = colors@;
    let ghost a = allowed@;
    let mut visited = vec![false; 200];
    let mut total: u32 = 0;
    let mut i: usize = 0;
    proof {
        lemma_scan_start(c, a, visited@, 0);
    }
    while i < 200
        invariant
            i <= 200,
            colors@ == c,
            allowed@ == a,
            grid_wf(c, a),
            scan_inv(c, a, visited@, 0, i as int),
            total as int == chain_bonus_upto(c, a, i as int),
            total <= 20 * i,
        decreases 200 - i,
    {
        proof {
            lemma_scan_rep(c, a, visited@, 0, i as int);
        }
        if colors[i].is_some() && allowed[i / 10] && !visited[i] {
            proof {
                lemma_scan_closed(c, a, visited@, 0, i as int);
            }
            let ghost v = visited@;
            let comp = flood_fill(&colors, &allowed, i, &mut visited);
            proof {
                lemma_scan_flooded(c, a, v, visited@, 0, i as int);
                lemma_component_len(c, a, i as int, comp@);
                lemma_distinct_bounded_len(comp@, 200);
            }
            total = total + (comp.len() / 10) as u32;
        } else {
            proof {
                lemma_scan_skip(c, a, visited@, 0, i as int);
            }
        }
        i += 1;
    }
    total
}

/// What joining turns cell `i` into: a block that is not alone in its group
/// becomes a connected block with count 1; every other cell stays.
pub open spec fn connect_target(rows: Seq<Seq<Cell>>, allowed: Seq<bool>, i: int) -> Cell {
    match cell_at(rows, i) {
        Cell::Occupied(color) => if component(colors_of(rows), allowed, i).len() > 1 {
            Cell::Connected { color, count: 1 }
        } else {
            Cell::Occupied(color)
        },
        other => other,
    }
}

/// `j` is one of the first `k` entries of `s`.
pub open spec fn in_prefix(s: Seq<usize>, k: int, j: int) -> bool {
    exists|m: int| 0 <= m < k && #[trigger] s[m] as int == j
}

/// A cell with no block has an empty component.
proof fn lemma_component_of_non_node(colors: Seq<Option<GameColor>>, allowed: Seq<bool>, i: int)
    requires
        !crate::connectivity::grid_node(colors, allowed, i),
    ensures
        component(colors, allowed, i).len() == 0,
{
    assert forall|j: int| !component(colors, allowed, i).contains(j) by {
        if reach(colors, allowed, i, j) {
            lemma_reach_node(colors, allowed, i, j);
        }
    }
    assert(component(colors, allowed, i) =~= Set::empty());
}

/// Turns every `Occupied` block that belongs to a group of two or more
/// same-coloured blocks into a `Connected` block with count 1.  Rows listed in
/// `lines_to_clear` neither change nor join groups.
pub fn find_and_connect_adjacent_blocks(board: &mut Board, lines_to_clear: &[usize])
    requires
        rows_wf(board_rows(old(board)@)),
    ensures
        rows_wf(board_rows(final(board)@)),
        forall|i: int| 0 <= i < num_cells() ==>
            #[trigger] cell_at(board_rows(final(board)@), i)
                == connect_target(board_rows(old(board)@), rows_except(lines_to_clear@), i),
{
    let ghost rows0 = board_rows(board@);
    let colors = colors_from_rows(board);
    let allowed = rows_without(lines_to_clear);
    let ghost c = colors@;
    let ghost a = allowed@;
    let mut visited = vec![false; 200];
    let mut i: usize = 0;
    proof {
        lemma_scan_start(c, a, visited@, 0);
    }
    while i < 200
        invariant
            i <= 200,
            colors@ == c,
            allowed@ == a,
            c == colors_of(rows0),
            a == rows_except(lines_to_clear@),
            grid_wf(c, a),
            rows_wf(rows0),
            rows_wf(board_rows(board@)),
            scan_inv(c, a, visited@, 0, i as int),
            forall|j: int| 0 <= j < num_cells() ==>
                #[trigger] cell_at(board_rows(board@), j) == if visited@[j] {
                    connect_target(rows0, a, j)
                } else {
                    cell_at(rows0, j)
                },
        decreases 200 - i,
    {
        proof {
            lemma_scan_rep(c, a, visited@, 0, i as int);
        }
        if colors[i].is_some() && allowed[i / 10] && !visited[i] {
            proof {
                lemma_scan_closed(c, a, visited@, 0, i as int);
            }
            let ghost v = visited@;
            let comp = flood_fill(&colors, &allowed, i, &mut visited);
            proof {
                lemma_scan_flooded(c, a, v, visited@, 0, i as int);
                lemma_component_len(c, a, i as int, comp@);
            }
            let ghost rows_mid = board_rows(board@);
            let mut k: usize = 0;
            while k < comp.len()
                invariant
                    k <= comp@.len(),
                    rows_wf(board_rows(board@)),
                    rows_wf(rows0),
                    c == colors_of(rows0),
                    comp@.no_duplicates(),
                    component(c, a, i as int).len() == comp@.len(),
                    forall|m: int| 0 <= m < comp@.len() ==> (#[trigger] comp@[m] as int) < num_cells()
                        && reach(c, a, i as int, comp@[m] as int) && !v[comp@[m] as int],
                    forall|j: int| 0 <= j < num_cells() && !v[j] ==> #[trigger] cell_at(rows_mid, j) == cell_at(rows0, j),
                    forall|j: int| 0 <= j < num_cells() ==> #[trigger] cell_at(board_rows(board@), j) == if in_prefix(comp@, k as int, j) {
                        connect_target(rows0, a, j)
                    } else {
                        cell_at(rows_mid, j)
                    },
                decreases comp@.len() - k,
            {
                let p = comp[k];
                let y = p / 10;
                let x = p % 10;
                proof {
                    lemma_component_shared(c, a, i as int, p as int);
                    assert(rows_wf(board_rows(board@)));
                    assert(board_rows(board@)[y as int].len() == 10);
                    assert(!in_prefix(comp@, k as int, p as int)) by {
                        if in_prefix(comp@, k as int, p as int) {
                            let m = choose|m: int| 0 <= m < k && #[trigger] comp@[m] as int == p as int;
                            assert(comp@[m] == comp@[k as int]);
                        }
                    }
                    assert(cell_at(board_rows(board@), p as int) == cell_at(rows0, p as int));
                }
                let ghost before = board_rows(board@);
                if let Cell::Occupied(color) = board[y][x] {
                    if comp.len() > 1 {
                        set_cell(board, y, x, Cell::Connected { color, count: 1 });
                    }
                }
                proof {
                    assert forall|j: int| 0 <= j < num_cells() implies #[trigger] cell_at(board_rows(board@), j) == if in_prefix(comp@, k as int + 1, j) {
                        connect_target(rows0, a, j)
                    } else {
                        cell_at(rows_mid, j)
                    } by {
                        assert(cell_at(before, j) == if in_prefix(comp@, k as int, j) {
                            connect_target(rows0, a, j)
                        } else {
                            cell_at(rows_mid, j)
                        });
                        if j != p as int {
                            assert(cell_at(board_rows(board@), j) == cell_at(before, j));
                            if in_prefix(comp@, k as int + 1, j) {
                                let m = choose|m: int| 0 <= m < k + 1 && #[trigger] comp@[m] as int == j;
                                assert(m < k);
                            }
                        } else {
                            assert(comp@[k as int] as int == j);
                        }
                    }
                }
                k += 1;
            }
            proof {
                assert forall|j: int| 0 <= j < num_cells() implies
                    #[trigger] cell_at(board_rows(board@), j) == if visited@[j] {
                        connect_target(rows0, a, j)
                    } else {
                        cell_at(rows0, j)
                    } by {
                    if in_prefix(comp@, comp@.len() as int, j) {
                        let m = choose|m: int| 0 <= m < comp@.len() && #[trigger] comp@[m] as int == j;
                        assert(reach(c, a, i as int, comp@[m] as int));
                        assert(!v[j]);
                    } else {
                        if visited@[j] && !v[j] {
                            assert(comp@.contains(j as usize));
                            let m = choose|m: int| 0 <= m < comp@.len() && comp@[m] == j as usize;
                            assert(comp@[m] as int == j);
                        }
                    }
                }
            }
        } else {
            proof {
                lemma_scan_skip(c, a, visited@, 0, i as int);
            }
        }
        i += 1;
    }
    proof {
        assert forall|j: int| 0 <= j < num_cells() implies
            #[trigger] cell_at(board_rows(board@), j) == connect_target(rows0, a, j) by {
            if !visited@[j] {
                if crate::connectivity::grid_node(c, a, j) {
                    lemma_reach_refl_pub(c, a, j);
                    assert(crate::connectivity::scanned(c, a, 0, 200, j));
                } else {
                    lemma_component_of_non_node(c, a, j);
                }
            }
        }
    }
}

proof fn lemma_reach_refl_pub(colors: Seq<Option<GameColor>>, allowed: Seq<bool>, i: int)
    requires
        crate::connectivity::grid_node(colors, allowed, i),
    ensures
        reach(colors, allowed, i, i),
{
    crate::connectivity::lemma_reach_refl(colors, allowed, i);
}

/// Cell index of a position.
pub open spec fn pt_index(p: Point) -> int {
    p.1 * BOARD_WIDTH as int + p.0
}

/// A position on the board.
pub open spec fn pt_valid(p: Point) -> bool {
    p.0 < BOARD_WIDTH && p.1 < BOARD_HEIGHT
}

/// Cell `j` is the position of some entry of `r`.
pub open spec fn listed(r: Seq<(Point, u32)>, j: int) -> bool {
    exists|m: int| 0 <= m < r.len() && #[trigger] pt_index(r[m].0) == j
}

/// Entries of `r` name distinct positions.
pub open spec fn distinct_points(r: Seq<(Point, u32)>) -> bool {
    forall|m1: int, m2: int| 0 <= m1 < r.len() && 0 <= m2 < r.len() && m1 != m2
        ==> #[trigger] pt_index(r[m1].0) != #[trigger] pt_index(r[m2].0)
}

/// The result of counting chains: every block cell that lies in a group with a
/// block in rows `first_row..` appears once, with the size of its group.
pub open spec fn counts_spec(colors: Seq<Option<GameColor>>, allowed: Seq<bool>, first_row: int, r: Seq<(Point, u32)>) -> bool {
    &&& forall|m: int| 0 <= m < r.len() ==> pt_valid(#[trigger] r[m].0)
        && scanned(colors, allowed, first_row * BOARD_WIDTH as int, num_cells(), pt_index(r[m].0))
        && r[m].1 as int == component(colors, allowed, pt_index(r[m].0)).len()
    &&& distinct_points(r)
    &&& forall|j: int| 0 <= j < num_cells() && scanned(colors, allowed, first_row * BOARD_WIDTH as int, num_cells(), j)
        ==> listed(r, j)
}

/// Renaming the colours of the blocks (see `same_colour_pattern`) keeps
/// every count: a list of counts is right for the renamed board exactly
/// when it is right for the board.
pub proof fn lemma_recolouring_keeps_counts(
    c1: Seq<Option<GameColor>>,
    c2: Seq<Option<GameColor>>,
    allowed: Seq<bool>,
    first_row: int,
    r: Seq<(Point, u32)>,
)
    requires
        c1.len() == num_cells(),
        same_colour_pattern(c1, c2),
    ensures
        counts_spec(c1, allowed, first_row, r) == counts_spec(c2, allowed, first_row, r),
{
    lemma_recolouring_keeps_groups(c1, c2, allowed);
}

/// Lists the group members of a flooded component, with the group's size.
fn push_component_counts(
    comp: &Vec<usize>,
    results: &mut Vec<(Point, u32)>,
    c: Ghost<Seq<Option<GameColor>>>,
    a: Ghost<Seq<bool>>,
    v: Ghost<Seq<bool>>,
    i: Ghost<int>,
)
    requires
        comp@.no_duplicates(),
        comp@.len() <= num_cells(),
        component(c@, a@, i@).len() == comp@.len(),
        forall|m: int| 0 <= m < comp@.len() ==> (#[trigger] comp@[m] as int) < num_cells()
            && reach(c@, a@, i@, comp@[m] as int) && !v@[comp@[m] as int],
        forall|j: int| #[trigger] reach(c@, a@, i@, j) ==> comp@.contains(j as usize),
        forall|m: int| 0 <= m < old(results)@.len() ==> pt_valid(#[trigger] old(results)@[m].0)
            && v@[pt_index(old(results)@[m].0)]
            && old(results)@[m].1 as int == component(c@, a@, pt_index(old(results)@[m].0)).len(),
        distinct_points(old(results)@),
    ensures
        forall|m: int| 0 <= m < final(results)@.len() ==> pt_valid(#[trigger] final(results)@[m].0)
            && (v@[pt_index(final(results)@[m].0)] || reach(c@, a@, i@, pt_index(final(results)@[m].0)))
            && final(results)@[m].1 as int == component(c@, a@, pt_index(final(results)@[m].0)).len(),
        distinct_points(final(results)@),
        forall|j: int| #[trigger] listed(old(results)@, j) ==> listed(final(results)@, j),
        forall|j: int| #[trigger] reach(c@, a@, i@, j) ==> listed(final(results)@, j),
{
    let ghost r0 = results@;
    let n = comp.len() as u32;
    let mut k: usize = 0;
    while k < comp.len()
        invariant
            k <= comp@.len(),
            n as int == comp@.len(),
            r0.len() + k == results@.len(),
            forall|m: int| 0 <= m < r0.len() ==> results@[m] == r0[m],
            forall|m: int| 0 <= m < k ==> #[trigger] pt_index(results@[r0.len() + m].0) == comp@[m] as int,
            comp@.no_duplicates(),
            component(c@, a@, i@).len() == comp@.len(),
            forall|m: int| 0 <= m < comp@.len() ==> (#[trigger] comp@[m] as int) < num_cells()
                && reach(c@, a@, i@, comp@[m] as int) && !v@[comp@[m] as int],
            forall|m: int| 0 <= m < results@.len() ==> pt_valid(#[trigger] results@[m].0)
                && (v@[pt_index(results@[m].0)] || reach(c@, a@, i@, pt_index(results@[m].0)))
                && results@[m].1 as int == component(c@, a@, pt_index(results@[m].0)).len(),
            forall|m: int| 0 <= m < r0.len() ==> v@[#[trigger] pt_index(r0[m].0)],
            distinct_points(results@),
        decreases comp@.len() - k,
    {
        let p = comp[k];
        proof {
            lemma_component_shared(c@, a@, i@, p as int);
        }
        let ghost before = results@;
        results.push(((p % 10, p / 10), n));
        proof {
            assert(pt_index(results@[before.len() as int].0) == p as int);
            assert forall|m1: int, m2: int| 0 <= m1 < results@.len() && 0 <= m2 < results@.len() && m1 != m2
                implies #[trigger] pt_index(results@[m1].0) != #[trigger] pt_index(results@[m2].0) by {
                if m1 < before.len() && m2 < before.len() {
                    assert(results@[m1] == before[m1]);
                    assert(results@[m2] == before[m2]);
                    assert(pt_index(before[m1].0) != pt_index(before[m2].0));
                } else if m1 < before.len() || m2 < before.len() {
                    let mo = if m1 < before.len() { m1 } else { m2 };
                    if mo < r0.len() {
                        assert(results@[mo] == r0[mo]);
                        assert(v@[pt_index(r0[mo].0)]);
                    } else {
                        let q = mo - r0.len();
                        assert(pt_index(results@[r0.len() + q].0) == comp@[q] as int);
                        assert(comp@[q] != comp@[k as int]);
                    }
                }
            }
            assert forall|m: int| 0 <= m < results@.len() implies pt_valid(#[trigger] results@[m].0)
                && (v@[pt_index(results@[m].0)] || reach(c@, a@, i@, pt_index(results@[m].0)))
                && results@[m].1 as int == component(c@, a@, pt_index(results@[m].0)).len() by {
                if m < before.len() {
                    assert(results@[m] == before[m]);
                }
            }
            assert forall|m: int| 0 <= m < k + 1 implies #[trigger] pt_index(results@[r0.len() + m].0) == comp@[m] as int by {
                if m < k {
                    assert(results@[r0.len() + m] == before[r0.len() + m]);
                }
            }
        }
        k += 1;
    }
    proof {
        assert forall|j: int| #[trigger] listed(r0, j) implies listed(results@, j) by {
            let m = choose|m: int| 0 <= m < r0.len() && #[trigger] pt_index(r0[m].0) == j;
            assert(results@[m] == r0[m]);
        }
        assert forall|j: int| #[trigger] reach(c@, a@, i@, j) implies listed(results@, j) by {
            assert(comp@.contains(j as usize));
            let m = choose|m: int| 0 <= m < comp@.len() && comp@[m] == j as usize;
            assert(pt_index(results@[r0.len() + m].0) == comp@[m] as int);
            lemma_reach_node(c@, a@, i@, j);
        }
    }
}

/// For every block cell that belongs to a group with a block below row
/// `cleared_line_y`, its position and the size of its group.
pub fn count_connected_blocks(board: &Board, cleared_line_y: usize) -> (results: Vec<(Point, u32)>)
    requires
        rows_wf(board_rows(board@)),
        cleared_line_y < usize::MAX,
    ensures
        counts_spec(colors_of(board_rows(board@)), all_rows(), cleared_line_y + 1, results@),
{
    let colors = colors_from_rows(board);
    let allowed = every_row();
    count_blocks_from_row(&colors, &allowed, cleared_line_y + 1)
}

/// Chain counts of the groups that reach rows `first_row..`.
pub fn count_blocks_from_row(colors: &Vec<Option<GameColor>>, allowed: &Vec<bool>, first_row: usize) -> (results: Vec<(Point, u32)>)
    requires
        grid_wf(colors@, allowed@),
    ensures
        counts_spec(colors@, allowed@, first_row as int, results@),
{
    let ghost c = colors@;
    let ghost a = allowed@;
    let ghost lo = first_row * 10;
    let mut results: Vec<(Point, u32)> = Vec::new();
    if first_row >= 20 {
        proof {
            assert forall|j: int| 0 <= j < num_cells() && scanned(c, a, lo, num_cells(), j) implies listed(results@, j) by {
            }
        }
        return results;
    }
    let mut visited = vec![false; 200];
    let mut i: usize = first_row * 10;
    proof {
        lemma_scan_start(c, a, visited@, lo);
    }
    while i < 200
        invariant
            lo <= i <= 200,
            lo == first_row * 10,
            colors@ == c,
            allowed@ == a,
            grid_wf(c, a),
            scan_inv(c, a, visited@, lo, i as int),
            forall|m: int| 0 <= m < results@.len() ==> pt_valid(#[trigger] results@[m].0)
                && visited@[pt_index(results@[m].0)]
                && results@[m].1 as int == component(c, a, pt_index(results@[m].0)).len(),
            distinct_points(results@),
            forall|j: int| 0 <= j < num_cells() && visited@[j] ==> listed(results@, j),
        decreases 200 - i,
    {
        proof {
            lemma_scan_rep(c, a, visited@, lo, i as int);
        }
        if colors[i].is_some() && allowed[i / 10] && !visited[i] {
            proof {
                lemma_scan_closed(c, a, visited@, lo, i as int);
            }
            let ghost v = visited@;
            let ghost r0 = results@;
            let comp = flood_fill(colors, allowed, i, &mut visited);
            proof {
                lemma_scan_flooded(c, a, v, visited@, lo, i as int);
                lemma_component_len(c, a, i as int, comp@);
                lemma_distinct_bounded_len(comp@, 200);
            }
            push_component_counts(&comp, &mut results, Ghost(c), Ghost(a), Ghost(v), Ghost(i as int));
            proof {
                assert forall|m: int| 0 <= m < results@.len() implies pt_valid(#[trigger] results@[m].0)
                    && visited@[pt_index(results@[m].0)]
                    && results@[m].1 as int == component(c, a, pt_index(results@[m].0)).len() by {
                }
                assert forall|j: int| 0 <= j < num_cells() && visited@[j] implies listed(results@, j) by {
                    if v[j] {
                        assert(listed(r0, j));
                    }
                }
            }
        } else {
            proof {
                lemma_scan_skip(c, a, visited@, lo, i as int);
            }
        }
        i += 1;
    }
    proof {
        assert forall|m: int| 0 <= m < results@.len() implies pt_valid(#[trigger] results@[m].0)
            && scanned(c, a, first_row * BOARD_WIDTH as int, num_cells(), pt_index(results@[m].0))
            && results@[m].1 as int == component(c, a, pt_index(results@[m].0)).len() by {
            assert(visited@[pt_index(results@[m].0)]);
        }
    }
    results
}

/// What removing isolated blocks below row `cleared_line_y` turns cell `i` into.
pub open spec fn isolation_target(rows: Seq<Seq<Cell>>, cleared_line_y: int, i: int) -> Cell {
    if i / BOARD_WIDTH as int > cleared_line_y && isolated(colors_of(rows), i) {
        Cell::Empty
    } else {
        cell_at(rows, i)
    }
}

/// Empties every block below row `cleared_line_y` that has no orthogonal
/// neighbour of its own colour (neighbours are looked for on the whole board).
pub fn remove_isolated_blocks(board: &mut Board, cleared_line_y: usize)
    requires
        rows_wf(board_rows(old(board)@)),
        cleared_line_y < usize::MAX,
    ensures
        rows_wf(board_rows(final(board)@)),
        forall|i: int| 0 <= i < num_cells() ==>
            #[trigger] cell_at(board_rows(final(board)@), i)
                == isolation_target(board_rows(old(board)@), cleared_line_y as int, i),
{
    let ghost rows0 = board_rows(board@);
    let colors = colors_from_rows(board);
    let first = cleared_line_y + 1;
    if first >= 20 {
        return;
    }
    proof {
        assert forall|j: int| 0 <= j < num_cells() implies
            #[trigger] cell_at(board_rows(board@), j) == if j < first * 10 {
                isolation_target(rows0, cleared_line_y as int, j)
            } else {
                cell_at(rows0, j)
            } by {
        }
    }
    let mut i: usize = first * 10;
    while i < 200
        invariant
            first * 10 <= i <= 200,
            first == cleared_line_y + 1,
            colors@ == colors_of(rows0),
            rows_wf(board_rows(board@)),
            rows_wf(rows0),
            forall|j: int| 0 <= j < num_cells() ==>
                #[trigger] cell_at(board_rows(board@), j) == if j < i {
                    isolation_target(rows0, cleared_line_y as int, j)
                } else {
                    cell_at(rows0, j)
                },
        decreases 200 - i,
    {
        let y = i / 10;
        let x = i % 10;
        assert(board_rows(board@)[y as int].len() == 10);
        let ghost before = board_rows(board@);
        if is_isolated_at(&colors, i) {
            set_cell(board, y, x, Cell::Empty);
        }
        proof {
            assert forall|j: int| 0 <= j < num_cells() implies
                #[trigger] cell_at(board_rows(board@), j) == if j < i + 1 {
                    isolation_target(rows0, cleared_line_y as int, j)
                } else {
                    cell_at(rows0, j)
                } by {
                assert(cell_at(before, j) == if j < i {
                    isolation_target(rows0, cleared_line_y as int, j)
                } else {
                    cell_at(rows0, j)
                });
            }
        }
        i += 1;
    }
    proof {
        assert forall|j: int| 0 <= j < num_cells() implies
            #[trigger] cell_at(board_rows(board@), j) == isolation_target(rows0, cleared_line_y as int, j) by {
            assert(cell_at(board_rows(board@), j) == if j < 200 {
                isolation_target(rows0, cleared_line_y as int, j)
            } else {
                cell_at(rows0, j)
            });
        }
    }
}

} // verus!
