//! Same-colour connectivity on the play field.
//!
//! Cells are numbered row by row: cell `i` is column `i % BOARD_WIDTH` of row
//! `i / BOARD_WIDTH`.  A grid is described by the colour of each cell's block
//! (`None` for a cell without a block) and by which rows take part.  Two block
//! cells are joined when they are orthogonal neighbours of the same colour and
//! both rows take part; a component is everything reachable along such joins.
use vstd::prelude::*;
use std::collections::VecDeque;
use crate::config::{BOARD_HEIGHT, BOARD_WIDTH};
use crate::game_color::GameColor;
use crate::cell::{Cell, cell_color, block_color, board_rows, fixed_rows, rows_wf};

verus! {

/// Number of cells of the board.
pub open spec fn num_cells() -> int {
    (BOARD_WIDTH * BOARD_HEIGHT) as int
}

/// Well-formed grid description.
pub open spec fn grid_wf(colors: Seq<Option<GameColor>>, allowed: Seq<bool>) -> bool {
    colors.len() == num_cells() && allowed.len() == BOARD_HEIGHT as int
}

/// Row of a cell index.
pub open spec fn row_of(i: int) -> int {
    i / BOARD_WIDTH as int
}

/// Column of a cell index.
pub open spec fn col_of(i: int) -> int {
    i % BOARD_WIDTH as int
}

/// Cell `i` holds a block in a row that takes part.
pub open spec fn grid_node(colors: Seq<Option<GameColor>>, allowed: Seq<bool>, i: int) -> bool {
    &&& 0 <= i < num_cells()
    &&& colors[i] is Some
    &&& allowed[row_of(i)]
}

/// Orthogonal neighbours on the board.
pub open spec fn grid_adjacent(i: int, j: int) -> bool {
    &&& 0 <= i < num_cells()
    &&& 0 <= j < num_cells()
    &&& {
        ||| j == i + 1 && col_of(i) != BOARD_WIDTH - 1
        ||| j == i - 1 && col_of(i) != 0
        ||| j == i + BOARD_WIDTH
        ||| j == i - BOARD_WIDTH
    }
}

/// A join between two cells.
pub open spec fn grid_edge(colors: Seq<Option<GameColor>>, allowed: Seq<bool>, i: int, j: int) -> bool {
    &&& grid_node(colors, allowed, i)
    &&& grid_node(colors, allowed, j)
    &&& grid_adjacent(i, j)
    &&& colors[i] == colors[j]
}

/// A walk along joins.
pub open spec fn is_path(colors: Seq<Option<GameColor>>, allowed: Seq<bool>, p: Seq<int>) -> bool {
    &&& p.len() > 0
    &&& grid_node(colors, allowed, p[0])
    &&& forall|k: int| 0 <= k < p.len() - 1 ==> #[trigger] grid_edge(colors, allowed, p[k], p[k + 1])
}

/// `j` can be reached from `i` along joins.
pub open spec fn reach(colors: Seq<Option<GameColor>>, allowed: Seq<bool>, i: int, j: int) -> bool {
    exists|p: Seq<int>| #[trigger] is_path(colors, allowed, p) && p[0] == i && p.last() == j
}

/// The component of cell `i`.
pub open spec fn component(colors: Seq<Option<GameColor>>, allowed: Seq<bool>, i: int) -> Set<int> {
    Set::new(|j: int| reach(colors, allowed, i, j))
}

/// A set of cells (given by flags) that no join leaves.
pub open spec fn closed(colors: Seq<Option<GameColor>>, allowed: Seq<bool>, v: Seq<bool>) -> bool {
    forall|i: int, j: int| 0 <= i < num_cells() && v[i] && #[trigger] grid_edge(colors, allowed, i, j) ==> v[j]
}

/// Cell `j` lies in the component of some cell with index in `[lo, hi)`.
pub open spec fn scanned(colors: Seq<Option<GameColor>>, allowed: Seq<bool>, lo: int, hi: int, j: int) -> bool {
    exists|q: int| lo <= q < hi && #[trigger] reach(colors, allowed, q, j)
}

/// Cell `i` is the first cell of its component among the cells from `lo` on.
pub open spec fn is_rep(colors: Seq<Option<GameColor>>, allowed: Seq<bool>, lo: int, i: int) -> bool {
    &&& lo <= i
    &&& grid_node(colors, allowed, i)
    &&& !scanned(colors, allowed, lo, i, i)
}

pub proof fn lemma_edge_symmetric(colors: Seq<Option<GameColor>>, allowed: Seq<bool>, i: int, j: int)
    requires
        grid_edge(colors, allowed, i, j),
    ensures
        grid_edge(colors, allowed, j, i),
{
}

pub proof fn lemma_reach_refl(colors: Seq<Option<GameColor>>, allowed: Seq<bool>, i: int)
    requires
        grid_node(colors, allowed, i),
    ensures
        reach(colors, allowed, i, i),
{
    let p = seq![i];
    assert(is_path(colors, allowed, p));
}

pub proof fn lemma_reach_node(colors: Seq<Option<GameColor>>, allowed: Seq<bool>, i: int, j: int)
    requires
        reach(colors, allowed, i, j),
    ensures
        grid_node(colors, allowed, i),
        grid_node(colors, allowed, j),
{
    let p = choose|p: Seq<int>| #[trigger] is_path(colors, allowed, p) && p[0] == i && p.last() == j;
    if p.len() > 1 {
        assert(grid_edge(colors, allowed, p[p.len() - 2], p[p.len() - 2 + 1]));
    }
}

pub proof fn lemma_reach_step(colors: Seq<Option<GameColor>>, allowed: Seq<bool>, i: int, j: int, k: int)
    requires
        reach(colors, allowed, i, j),
        grid_edge(colors, allowed, j, k),
    ensures
        reach(colors, allowed, i, k),
{
    let p = choose|p: Seq<int>| #[trigger] is_path(colors, allowed, p) && p[0] == i && p.last() == j;
    let q = p.push(k);
    assert forall|m: int| 0 <= m < q.len() - 1 implies #[trigger] grid_edge(colors, allowed, q[m], q[m + 1]) by {
        if m < p.len() - 1 {
            assert(grid_edge(colors, allowed, p[m], p[m + 1]));
        }
    }
    assert(is_path(colors, allowed, q));
}

pub proof fn lemma_reach_symmetric(colors: Seq<Option<GameColor>>, allowed: Seq<bool>, i: int, j: int)
    requires
        reach(colors, allowed, i, j),
    ensures
        reach(colors, allowed, j, i),
{
    let p = choose|p: Seq<int>| #[trigger] is_path(colors, allowed, p) && p[0] == i && p.last() == j;
    let q = p.reverse();
    assert forall|m: int| 0 <= m < q.len() - 1 implies #[trigger] grid_edge(colors, allowed, q[m], q[m + 1]) by {
        let a = p.len() - 2 - m;
        assert(grid_edge(colors, allowed, p[a], p[a + 1]));
        lemma_edge_symmetric(colors, allowed, p[a], p[a + 1]);
    }
    lemma_reach_node(colors, allowed, i, j);
    assert(is_path(colors, allowed, q));
}

pub proof fn lemma_reach_trans(colors: Seq<Option<GameColor>>, allowed: Seq<bool>, i: int, j: int, k: int)
    requires
        reach(colors, allowed, i, j),
        reach(colors, allowed, j, k),
    ensures
        reach(colors, allowed, i, k),
{
    let p = choose|p: Seq<int>| #[trigger] is_path(colors, allowed, p) && p[0] == i && p.last() == j;
    let q = choose|q: Seq<int>| #[trigger] is_path(colors, allowed, q) && q[0] == j && q.last() == k;
    let r = p + q.drop_first();
    assert forall|m: int| 0 <= m < r.len() - 1 implies #[trigger] grid_edge(colors, allowed, r[m], r[m + 1]) by {
        if m < p.len() - 1 {
            assert(grid_edge(colors, allowed, p[m], p[m + 1]));
        } else {
            let n = m - (p.len() - 1);
            assert(grid_edge(colors, allowed, q[n], q[n + 1]));
        }
    }
    assert(is_path(colors, allowed, r));
}

/// A closed set holds everything reachable from its members.
pub proof fn lemma_closed_reach(colors: Seq<Option<GameColor>>, allowed: Seq<bool>, v: Seq<bool>, i: int, j: int)
    requires
        v.len() == num_cells(),
        closed(colors, allowed, v),
        0 <= i < num_cells(),
        v[i],
        reach(colors, allowed, i, j),
    ensures
        v[j],
{
    let p = choose|p: Seq<int>| #[trigger] is_path(colors, allowed, p) && p[0] == i && p.last() == j;
    assert forall|n: int| 0 <= n < p.len() implies v[p[n]] && 0 <= p[n] < num_cells() by {
        lemma_closed_path_prefix(colors, allowed, v, p, n);
    }
}

proof fn lemma_closed_path_prefix(colors: Seq<Option<GameColor>>, allowed: Seq<bool>, v: Seq<bool>, p: Seq<int>, n: int)
    requires
        v.len() == num_cells(),
        closed(colors, allowed, v),
        is_path(colors, allowed, p),
        0 <= p[0] < num_cells(),
        v[p[0]],
        0 <= n < p.len(),
    ensures
        v[p[n]],
        0 <= p[n] < num_cells(),
    decreases n,
{
    if n > 0 {
        lemma_closed_path_prefix(colors, allowed, v, p, n - 1);
        assert(grid_edge(colors, allowed, p[n - 1], p[n - 1 + 1]));
    }
}

/// A sequence of distinct indices below `n` has at most `n` elements.
pub proof fn lemma_distinct_bounded_len(s: Seq<usize>, n: usize)
    requires
        s.no_duplicates(),
        forall|k: int| 0 <= k < s.len() ==> s[k] < n,
    ensures
        s.len() <= n,
{
    s.unique_seq_to_set();
    <usize as vstd::set_lib::FiniteRange>::range_properties(0, n);
    assert(s.to_set().subset_of(Set::<usize>::range(0, n)));
    vstd::set_lib::lemma_len_subset(s.to_set(), Set::<usize>::range(0, n));
}

/// Invariant of a flood fill from `start` that started from the flags `v0`.
pub open spec fn flood_state(
    colors: Seq<Option<GameColor>>,
    allowed: Seq<bool>,
    v0: Seq<bool>,
    v: Seq<bool>,
    comp: Seq<usize>,
    queue: Seq<usize>,
    start: int,
) -> bool {
    &&& grid_wf(colors, allowed)
    &&& v0.len() == num_cells()
    &&& v.len() == num_cells()
    &&& forall|i: int| 0 <= i < num_cells() ==> (#[trigger] v[i] <==> (v0[i] || comp.contains(i as usize)))
    &&& forall|k: int| 0 <= k < comp.len() ==> (#[trigger] comp[k] as int) < num_cells()
    &&& forall|k: int| 0 <= k < comp.len() ==> !v0[#[trigger] comp[k] as int]
    &&& forall|k: int| 0 <= k < comp.len() ==> reach(colors, allowed, start, #[trigger] comp[k] as int)
    &&& comp.no_duplicates()
    &&& comp.len() > 0
    &&& comp[0] == start
    &&& forall|k: int| 0 <= k < queue.len() ==> comp.contains(#[trigger] queue[k])
    &&& queue.no_duplicates()
}

/// Every join out of a finished cell of the fill ends in a flagged cell.
pub open spec fn flood_frontier(
    colors: Seq<Option<GameColor>>,
    allowed: Seq<bool>,
    v: Seq<bool>,
    comp: Seq<usize>,
    queue: Seq<usize>,
    busy: int,
) -> bool {
    forall|i: usize, j: int|
        #![trigger comp.contains(i), grid_edge(colors, allowed, i as int, j)]
        comp.contains(i) && !queue.contains(i) && i as int != busy && grid_edge(colors, allowed, i as int, j)
            ==> v[j]
}

/// Same colour of two optional block colours.
fn same_block_color(a: Option<GameColor>, b: Option<GameColor>) -> (r: bool)
    ensures
        r == (a == b),
{
    match (a, b) {
        (Some(x), Some(y)) => x == y,
        (None, None) => true,
        _ => false,
    }
}

/// Visits neighbour `n` of the cell `cur` that is being expanded.
fn flood_visit(
    colors: &Vec<Option<GameColor>>,
    allowed: &Vec<bool>,
    v0: Ghost<Seq<bool>>,
    start: Ghost<int>,
    cur: usize,
    n: usize,
    visited: &mut Vec<bool>,
    comp: &mut Vec<usize>,
    queue: &mut VecDeque<usize>,
)
    requires
        flood_state(colors@, allowed@, v0@, old(visited)@, old(comp)@, old(queue)@, start@),
        flood_frontier(colors@, allowed@, old(visited)@, old(comp)@, old(queue)@, cur as int),
        old(comp)@.contains(cur),
        !old(queue)@.contains(cur),
        grid_adjacent(cur as int, n as int),
    ensures
        flood_state(colors@, allowed@, v0@, final(visited)@, final(comp)@, final(queue)@, start@),
        flood_frontier(colors@, allowed@, final(visited)@, final(comp)@, final(queue)@, cur as int),
        final(comp)@.contains(cur),
        !final(queue)@.contains(cur),
        grid_edge(colors@, allowed@, cur as int, n as int) ==> final(visited)@[n as int],
        forall|i: int| 0 <= i < num_cells() && old(visited)@[i] ==> #[trigger] final(visited)@[i],
        old(comp)@.len() <= final(comp)@.len(),
        2 * (num_cells() - final(comp)@.len()) + final(queue)@.len() <= 2 * (num_cells() - old(comp)@.len()) + old(queue)@.len(),
        final(comp)@.len() <= num_cells(),
{
    let ghost c = colors@;
    let ghost a = allowed@;
    proof {
        lemma_distinct_bounded_len(comp@, 200);
    }
    if !visited[n] && colors[n].is_some() && allowed[n / 10] && same_block_color(colors[n], colors[cur]) {
        let ghost old_comp = comp@;
        let ghost old_queue = queue@;
        let ghost old_v = visited@;
        let ghost k = choose|k: int| 0 <= k < old_comp.len() && old_comp[k] == cur;
        assert(reach(c, a, start@, old_comp[k] as int));
        proof {
            lemma_reach_node(c, a, start@, cur as int);
        }
        assert(grid_edge(c, a, cur as int, n as int));
        proof {
            lemma_reach_step(c, a, start@, cur as int, n as int);
        }
        assert(!old_comp.contains(n)) by {
            if old_comp.contains(n) {
                let m = choose|m: int| 0 <= m < old_comp.len() && old_comp[m] == n;
                assert(old_v[old_comp[m] as int]);
            }
        }
        visited.set(n, true);
        comp.push(n);
        queue.push_back(n);
        assert(comp@ == old_comp.push(n));
        assert(queue@ == old_queue.push(n));
        assert(!old_queue.contains(n)) by {
            if old_queue.contains(n) {
                let q = choose|q: int| 0 <= q < old_queue.len() && old_queue[q] == n;
                assert(old_comp.contains(old_queue[q]));
            }
        }
        assert forall|k2: int| 0 <= k2 < comp@.len() implies reach(c, a, start@, #[trigger] comp@[k2] as int) by {
            if k2 < old_comp.len() {
                assert(comp@[k2] == old_comp[k2]);
            }
        }
        assert forall|k2: int| 0 <= k2 < comp@.len() implies !v0@[#[trigger] comp@[k2] as int] by {
            if k2 < old_comp.len() {
                assert(comp@[k2] == old_comp[k2]);
            } else {
                assert(!old_v[n as int]);
            }
        }
        assert forall|k2: int| 0 <= k2 < queue@.len() implies comp@.contains(#[trigger] queue@[k2]) by {
            if k2 < old_queue.len() {
                assert(queue@[k2] == old_queue[k2]);
                assert(old_comp.contains(old_queue[k2]));
                let m = choose|m: int| 0 <= m < old_comp.len() && old_comp[m] == old_queue[k2];
                assert(comp@[m] == old_comp[m]);
            } else {
                assert(comp@[old_comp.len() as int] == n);
            }
        }
        assert forall|i: int| 0 <= i < num_cells() implies (#[trigger] visited@[i] <==> (v0@[i] || comp@.contains(i as usize))) by {
            if comp@.contains(i as usize) && i != n as int {
                let m = choose|m: int| 0 <= m < comp@.len() && comp@[m] == i as usize;
                assert(m < old_comp.len());
                assert(old_comp[m] == i as usize);
            }
            if old_comp.contains(i as usize) {
                let m = choose|m: int| 0 <= m < old_comp.len() && old_comp[m] == i as usize;
                assert(comp@[m] == i as usize);
            }
            if i == n as int {
                assert(comp@[old_comp.len() as int] == n);
            }
        }
        assert forall|i: usize, j: int|
            comp@.contains(i) && !queue@.contains(i) && i as int != cur as int && grid_edge(c, a, i as int, j)
            implies visited@[j] by {
            if i != n {
                let m = choose|m: int| 0 <= m < comp@.len() && comp@[m] == i;
                assert(m < old_comp.len());
                assert(old_comp.contains(i));
                assert(!old_queue.contains(i)) by {
                    if old_queue.contains(i) {
                        let q = choose|q: int| 0 <= q < old_queue.len() && old_queue[q] == i;
                        assert(queue@[q] == i);
                    }
                }
                assert(old_v[j]);
            } else {
                assert(queue@[old_queue.len() as int] == n);
            }
        }
        assert(comp@.contains(cur)) by {
            assert(comp@[k] == cur);
        }
        assert(!queue@.contains(cur)) by {
            if queue@.contains(cur) {
                let m = choose|m: int| 0 <= m < queue@.len() && queue@[m] == cur;
                if m < old_queue.len() {
                    assert(old_queue[m] == cur);
                }
            }
        }
        proof {
            lemma_distinct_bounded_len(comp@, 200);
        }
    }
}

/// Flags every cell of the component of `start` and lists it in breadth-first
/// order (a queue of cells to expand), `start` first.
pub fn flood_fill(
    colors: &Vec<Option<GameColor>>,
    allowed: &Vec<bool>,
    start: usize,
    visited: &mut Vec<bool>,
) -> (comp: Vec<usize>)
    requires
        grid_wf(colors@, allowed@),
        old(visited)@.len() == num_cells(),
        grid_node(colors@, allowed@, start as int),
        !old(visited)@[start as int],
        closed(colors@, allowed@, old(visited)@),
    ensures
        final(visited)@.len() == num_cells(),
        forall|i: int| 0 <= i < num_cells() ==>
            (#[trigger] final(visited)@[i] <==> (old(visited)@[i] || reach(colors@, allowed@, start as int, i))),
        closed(colors@, allowed@, final(visited)@),
        comp@.no_duplicates(),
        comp@.len() > 0,
        comp@[0] == start,
        forall|k: int| 0 <= k < comp@.len() ==> (#[trigger] comp@[k] as int) < num_cells()
            && reach(colors@, allowed@, start as int, comp@[k] as int),
        forall|i: int| #[trigger] reach(colors@, allowed@, start as int, i) ==> comp@.contains(i as usize),
        forall|k: int| 0 <= k < comp@.len() ==> !old(visited)@[#[trigger] comp@[k] as int],
{
    let ghost c = colors@;
    let ghost a = allowed@;
    let ghost v0 = visited@;
    visited.set(start, true);
    let mut comp: Vec<usize> = Vec::new();
    comp.push(start);
    let mut queue: VecDeque<usize> = VecDeque::new();
    queue.push_back(start);
    proof {
        lemma_reach_refl(c, a, start as int);
        assert forall|i: int| 0 <= i < num_cells() implies (#[trigger] visited@[i] <==> (v0[i] || comp@.contains(i as usize))) by {
            if i == start as int {
                assert(comp@[0] == start);
            }
        }
        assert(queue@[0] == start);
    }
    while queue.len() > 0
        invariant
            flood_state(c, a, v0, visited@, comp@, queue@, start as int),
            flood_frontier(c, a, visited@, comp@, queue@, -1),
            closed(c, a, v0),
            comp@.len() <= num_cells(),
            colors@ == c,
            allowed@ == a,
        decreases 2 * (num_cells() - comp@.len()) + queue@.len(),
    {
        let ghost before = queue@;
        let cur = queue.pop_front().unwrap();
        proof {
            assert(before == seq![cur] + queue@);
            assert(comp@.contains(before[0]));
            assert forall|k: int| 0 <= k < queue@.len() implies comp@.contains(#[trigger] queue@[k]) by {
                assert(queue@[k] == before[k + 1]);
            }
            assert(!queue@.contains(cur)) by {
                if queue@.contains(cur) {
                    let q = choose|q: int| 0 <= q < queue@.len() && queue@[q] == cur;
                    assert(before[q + 1] == before[0]);
                }
            }
            assert forall|i: usize, j: int|
                comp@.contains(i) && !queue@.contains(i) && i as int != cur as int && grid_edge(c, a, i as int, j)
                implies visited@[j] by {
                assert(!before.contains(i)) by {
                    if before.contains(i) {
                        let q = choose|q: int| 0 <= q < before.len() && before[q] == i;
                        if q > 0 {
                            assert(queue@[q - 1] == i);
                        }
                    }
                }
            }
            let k = choose|k: int| 0 <= k < comp@.len() && comp@[k] == cur;
            assert((comp@[k] as int) < num_cells());
        }
        let x = cur % 10;
        let y = cur / 10;
        if x > 0 {
            flood_visit(colors, allowed, Ghost(v0), Ghost(start as int), cur, cur - 1, visited, &mut comp, &mut queue);
        }
        if x < 9 {
            flood_visit(colors, allowed, Ghost(v0), Ghost(start as int), cur, cur + 1, visited, &mut comp, &mut queue);
        }
        if y > 0 {
            flood_visit(colors, allowed, Ghost(v0), Ghost(start as int), cur, cur - 10, visited, &mut comp, &mut queue);
        }
        if y < 19 {
            flood_visit(colors, allowed, Ghost(v0), Ghost(start as int), cur, cur + 10, visited, &mut comp, &mut queue);
        }
        proof {
            assert forall|i: usize, j: int|
                comp@.contains(i) && !queue@.contains(i) && i as int != -1 && grid_edge(c, a, i as int, j)
                implies visited@[j] by {
                if i == cur {
                    assert(grid_adjacent(cur as int, j));
                }
            }
        }
    }
    proof {
        assert forall|i: int, j: int| 0 <= i < num_cells() && visited@[i] && #[trigger] grid_edge(c, a, i, j)
            implies visited@[j] by {
            if v0[i] {
                assert(v0[j]);
            } else {
                assert(comp@.contains(i as usize));
                assert(!queue@.contains(i as usize));
            }
        }
        assert forall|i: int| #[trigger] reach(c, a, start as int, i) implies comp@.contains(i as usize) by {
            lemma_reach_node(c, a, start as int, i);
            lemma_closed_reach(c, a, visited@, start as int, i);
            if v0[i] {
                lemma_reach_symmetric(c, a, start as int, i);
                lemma_closed_reach(c, a, v0, i, start as int);
            }
        }
        assert forall|i: int| 0 <= i < num_cells() implies
            (#[trigger] visited@[i] <==> (v0[i] || reach(c, a, start as int, i))) by {
            if comp@.contains(i as usize) {
                let k = choose|k: int| 0 <= k < comp@.len() && comp@[k] == i as usize;
                assert(reach(c, a, start as int, comp@[k] as int));
            }
        }
    }
    comp
}

/// Flags that mark exactly the cells scanned from `[lo, hi)`.
pub open spec fn scan_inv(colors: Seq<Option<GameColor>>, allowed: Seq<bool>, v: Seq<bool>, lo: int, hi: int) -> bool {
    &&& v.len() == num_cells()
    &&& forall|j: int| 0 <= j < num_cells() ==> (#[trigger] v[j] <==> scanned(colors, allowed, lo, hi, j))
}

pub proof fn lemma_scan_start(colors: Seq<Option<GameColor>>, allowed: Seq<bool>, v: Seq<bool>, lo: int)
    requires
        v.len() == num_cells(),
        forall|j: int| 0 <= j < num_cells() ==> !v[j],
    ensures
        scan_inv(colors, allowed, v, lo, lo),
{
}

pub proof fn lemma_scan_closed(colors: Seq<Option<GameColor>>, allowed: Seq<bool>, v: Seq<bool>, lo: int, hi: int)
    requires
        scan_inv(colors, allowed, v, lo, hi),
    ensures
        closed(colors, allowed, v),
{
    assert forall|i: int, j: int| 0 <= i < num_cells() && v[i] && #[trigger] grid_edge(colors, allowed, i, j)
        implies v[j] by {
        let q = choose|q: int| lo <= q < hi && #[trigger] reach(colors, allowed, q, i);
        lemma_reach_step(colors, allowed, q, i, j);
    }
}

/// Moving past a cell that starts no new component.
pub proof fn lemma_scan_skip(colors: Seq<Option<GameColor>>, allowed: Seq<bool>, v: Seq<bool>, lo: int, i: int)
    requires
        scan_inv(colors, allowed, v, lo, i),
        lo <= i < num_cells(),
        !grid_node(colors, allowed, i) || v[i],
    ensures
        scan_inv(colors, allowed, v, lo, i + 1),
        !is_rep(colors, allowed, lo, i),
{
    assert forall|j: int| 0 <= j < num_cells() implies (#[trigger] v[j] <==> scanned(colors, allowed, lo, i + 1, j)) by {
        if scanned(colors, allowed, lo, i + 1, j) {
            let q = choose|q: int| lo <= q < i + 1 && #[trigger] reach(colors, allowed, q, j);
            if q == i {
                lemma_reach_node(colors, allowed, i, j);
                let q2 = choose|q2: int| lo <= q2 < i && #[trigger] reach(colors, allowed, q2, i);
                lemma_reach_trans(colors, allowed, q2, i, j);
            }
        }
    }
}

/// Moving past a cell whose component was just flooded.
pub proof fn lemma_scan_flooded(
    colors: Seq<Option<GameColor>>,
    allowed: Seq<bool>,
    v: Seq<bool>,
    v2: Seq<bool>,
    lo: int,
    i: int,
)
    requires
        scan_inv(colors, allowed, v, lo, i),
        lo <= i < num_cells(),
        v2.len() == num_cells(),
        forall|j: int| 0 <= j < num_cells() ==> (#[trigger] v2[j] <==> (v[j] || reach(colors, allowed, i, j))),
    ensures
        scan_inv(colors, allowed, v2, lo, i + 1),
{
    assert forall|j: int| 0 <= j < num_cells() implies (#[trigger] v2[j] <==> scanned(colors, allowed, lo, i + 1, j)) by {
        if v[j] {
            let q = choose|q: int| lo <= q < i && #[trigger] reach(colors, allowed, q, j);
        }
        if reach(colors, allowed, i, j) {
            assert(lo <= i < i + 1);
        }
    }
}

/// The first unflagged block cell of a scan is a representative.
pub proof fn lemma_scan_rep(colors: Seq<Option<GameColor>>, allowed: Seq<bool>, v: Seq<bool>, lo: int, i: int)
    requires
        scan_inv(colors, allowed, v, lo, i),
        lo <= i < num_cells(),
    ensures
        is_rep(colors, allowed, lo, i) <==> (grid_node(colors, allowed, i) && !v[i]),
{
}

/// Cells of one component share it.
pub proof fn lemma_component_shared(colors: Seq<Option<GameColor>>, allowed: Seq<bool>, i: int, j: int)
    requires
        reach(colors, allowed, i, j),
    ensures
        component(colors, allowed, j) == component(colors, allowed, i),
{
    assert forall|k: int| component(colors, allowed, j).contains(k) <==> component(colors, allowed, i).contains(k) by {
        if reach(colors, allowed, j, k) {
            lemma_reach_trans(colors, allowed, i, j, k);
        }
        if reach(colors, allowed, i, k) {
            lemma_reach_symmetric(colors, allowed, i, j);
            lemma_reach_trans(colors, allowed, j, i, k);
        }
    }
    assert(component(colors, allowed, j) =~= component(colors, allowed, i));
}

/// A listing without repeats of a component gives its size.
pub proof fn lemma_component_len(colors: Seq<Option<GameColor>>, allowed: Seq<bool>, i: int, comp: Seq<usize>)
    requires
        comp.no_duplicates(),
        forall|k: int| 0 <= k < comp.len() ==> reach(colors, allowed, i, #[trigger] comp[k] as int),
        forall|j: int| #[trigger] reach(colors, allowed, i, j) ==> comp.contains(j as usize),
    ensures
        component(colors, allowed, i).finite(),
        component(colors, allowed, i).len() == comp.len(),
{
    let f = |u: usize| u as int;
    let m = comp.map_values(f);
    assert(m.no_duplicates()) by {
        assert forall|a: int, b: int| 0 <= a < m.len() && 0 <= b < m.len() && a != b implies m[a] != m[b] by {
            assert(comp[a] != comp[b]);
        }
    }
    m.unique_seq_to_set();
    assert forall|j: int| component(colors, allowed, i).contains(j) <==> m.to_set().contains(j) by {
        if reach(colors, allowed, i, j) {
            lemma_reach_node(colors, allowed, i, j);
            assert(comp.contains(j as usize));
            let k = choose|k: int| 0 <= k < comp.len() && comp[k] == j as usize;
            assert(m[k] == j);
        }
        if m.to_set().contains(j) {
            let k = choose|k: int| 0 <= k < m.len() && m[k] == j;
            assert(reach(colors, allowed, i, comp[k] as int));
        }
    }
    assert(component(colors, allowed, i) =~= m.to_set());
}

/// `c2` colours the cells as `c1` does up to a renaming of colours: the
/// same cells hold blocks, and two cells share a colour in `c2` exactly
/// when they share one in `c1` (a swap of two colours, say).
pub open spec fn same_colour_pattern(c1: Seq<Option<GameColor>>, c2: Seq<Option<GameColor>>) -> bool {
    &&& c1.len() == c2.len()
    &&& forall|i: int| 0 <= i < c1.len() ==> (#[trigger] c1[i] is Some <==> c2[i] is Some)
    &&& forall|i: int, j: int| 0 <= i < c1.len() && 0 <= j < c1.len()
        ==> (#[trigger] c1[i] == #[trigger] c1[j] <==> c2[i] == c2[j])
}

/// Renaming the colours changes no group: every cell reaches the same
/// cells, so every group, and every count of groups (`scanned`), stays as
/// it was.
pub proof fn lemma_recolouring_keeps_groups(c1: Seq<Option<GameColor>>, c2: Seq<Option<GameColor>>, allowed: Seq<bool>)
    requires
        c1.len() == num_cells(),
        same_colour_pattern(c1, c2),
    ensures
        forall|i: int, j: int| #[trigger] reach(c1, allowed, i, j) == reach(c2, allowed, i, j),
        forall|i: int| #[trigger] component(c1, allowed, i) == component(c2, allowed, i),
        forall|lo: int, hi: int, j: int| #[trigger] scanned(c1, allowed, lo, hi, j) == scanned(c2, allowed, lo, hi, j),
{
    assert forall|i: int, j: int| #[trigger] grid_edge(c1, allowed, i, j) == grid_edge(c2, allowed, i, j) by {
        if 0 <= i < num_cells() && 0 <= j < num_cells() {
            assert(c1[i] == c1[j] <==> c2[i] == c2[j]);
        }
    }
    assert forall|p: Seq<int>| #[trigger] is_path(c1, allowed, p) == is_path(c2, allowed, p) by {
        if p.len() > 0 {
            if is_path(c1, allowed, p) {
                assert forall|k: int| 0 <= k < p.len() - 1 implies #[trigger] grid_edge(c2, allowed, p[k], p[k + 1]) by {
                    assert(grid_edge(c1, allowed, p[k], p[k + 1]));
                }
            }
            if is_path(c2, allowed, p) {
                assert forall|k: int| 0 <= k < p.len() - 1 implies #[trigger] grid_edge(c1, allowed, p[k], p[k + 1]) by {
                    assert(grid_edge(c2, allowed, p[k], p[k + 1]));
                }
            }
        }
    }
    assert forall|i: int, j: int| #[trigger] reach(c1, allowed, i, j) == reach(c2, allowed, i, j) by {
        if reach(c1, allowed, i, j) {
            let p = choose|p: Seq<int>| #[trigger] is_path(c1, allowed, p) && p[0] == i && p.last() == j;
            assert(is_path(c2, allowed, p));
        }
        if reach(c2, allowed, i, j) {
            let p = choose|p: Seq<int>| #[trigger] is_path(c2, allowed, p) && p[0] == i && p.last() == j;
            assert(is_path(c1, allowed, p));
        }
    }
    assert forall|i: int| #[trigger] component(c1, allowed, i) == component(c2, allowed, i) by {
        assert(component(c1, allowed, i) =~= component(c2, allowed, i));
    }
    assert forall|lo: int, hi: int, j: int| #[trigger] scanned(c1, allowed, lo, hi, j) == scanned(c2, allowed, lo, hi, j) by {
        if scanned(c1, allowed, lo, hi, j) {
            let q = choose|q: int| lo <= q < hi && #[trigger] reach(c1, allowed, q, j);
            assert(reach(c2, allowed, q, j));
        }
        if scanned(c2, allowed, lo, hi, j) {
            let q = choose|q: int| lo <= q < hi && #[trigger] reach(c2, allowed, q, j);
            assert(reach(c1, allowed, q, j));
        }
    }
}

/// Block colour of every cell of a board.
pub open spec fn colors_of(rows: Seq<Seq<Cell>>) -> Seq<Option<GameColor>> {
    Seq::new(num_cells() as nat, |i: int| cell_color(rows[row_of(i)][col_of(i)]))
}

/// Every row takes part.
pub open spec fn all_rows() -> Seq<bool> {
    Seq::new(BOARD_HEIGHT as nat, |y: int| true)
}

/// Every row but the listed ones takes part.
pub open spec fn rows_except(lines: Seq<usize>) -> Seq<bool> {
    Seq::new(BOARD_HEIGHT as nat, |y: int| !lines.contains(y as usize))
}

/// Block colours of a board given as rows.
pub fn colors_from_rows(board: &Vec<Vec<Cell>>) -> (colors: Vec<Option<GameColor>>)
    requires
        rows_wf(board_rows(board@)),
    ensures
        colors@ == colors_of(board_rows(board@)),
{
    let ghost rows = board_rows(board@);
    let mut colors: Vec<Option<GameColor>> = Vec::new();
    let mut i: usize = 0;
    while i < 200
        invariant
            i <= 200,
            rows == board_rows(board@),
            rows_wf(rows),
            colors@.len() == i,
            forall|k: int| 0 <= k < i ==> colors@[k] == #[trigger] colors_of(rows)[k],
        decreases 200 - i,
    {
        let y = i / 10;
        let x = i % 10;
        assert(rows[y as int].len() == 10);
        colors.push(block_color(board[y][x]));
        i += 1;
    }
    assert(colors@ =~= colors_of(rows));
    colors
}

/// Block colours of a fixed-size board.
pub fn colors_from_fixed(board: &[[Cell; BOARD_WIDTH]; BOARD_HEIGHT]) -> (colors: Vec<Option<GameColor>>)
    ensures
        colors@ == colors_of(fixed_rows(*board)),
{
    let ghost rows = fixed_rows(*board);
    let mut colors: Vec<Option<GameColor>> = Vec::new();
    let mut i: usize = 0;
    while i < 200
        invariant
            i <= 200,
            rows == fixed_rows(*board),
            colors@.len() == i,
            forall|k: int| 0 <= k < i ==> colors@[k] == #[trigger] colors_of(rows)[k],
        decreases 200 - i,
    {
        let y = i / 10;
        let x = i % 10;
        colors.push(block_color(board[y][x]));
        i += 1;
    }
    assert(colors@ =~= colors_of(rows));
    colors
}

/// Row flags with every row taking part.
pub fn every_row() -> (allowed: Vec<bool>)
    ensures
        allowed@ == all_rows(),
{
    let allowed = vec![true; 20];
    assert(allowed@ =~= all_rows());
    allowed
}

/// Row flags with the listed rows left out.
pub fn rows_without(lines: &[usize]) -> (allowed: Vec<bool>)
    ensures
        allowed@ == rows_except(lines@),
{
    let mut allowed: Vec<bool> = Vec::new();
    let mut y: usize = 0;
    while y < 20
        invariant
            y <= 20,
            allowed@.len() == y,
            forall|k: int| 0 <= k < y ==> allowed@[k] == #[trigger] rows_except(lines@)[k],
        decreases 20 - y,
    {
        allowed.push(!slice_contains(lines, y));
        y += 1;
    }
    assert(allowed@ =~= rows_except(lines@));
    allowed
}

/// Membership of a value in a slice.
pub fn slice_contains(s: &[usize], v: usize) -> (r: bool)
    ensures
        r == s@.contains(v),
{
    let mut k: usize = 0;
    while k < s.len()
        invariant
            k <= s@.len(),
            forall|m: int| 0 <= m < k ==> s@[m] != v,
        decreases s@.len() - k,
    {
        if s[k] == v {
            return true;
        }
        k += 1;
    }
    false
}

/// Cell `i` holds a block and none of its orthogonal neighbours has a block
/// of the same colour.
pub open spec fn isolated(colors: Seq<Option<GameColor>>, i: int) -> bool {
    &&& colors[i] is Some
    &&& forall|j: int| #[trigger] grid_adjacent(i, j) ==> colors[j] != colors[i]
}

/// Executable form of `isolated`.
pub fn is_isolated_at(colors: &Vec<Option<GameColor>>, i: usize) -> (r: bool)
    requires
        colors@.len() == num_cells(),
        i < 200,
    ensures
        r == isolated(colors@, i as int),
{
    if colors[i].is_none() {
        return false;
    }
    let x = i % 10;
    let y = i / 10;
    let mut alone = true;
    if x > 0 && same_block_color(colors[i - 1], colors[i]) {
        alone = false;
    }
    if x < 9 && same_block_color(colors[i + 1], colors[i]) {
        alone = false;
    }
    if y > 0 && same_block_color(colors[i - 10], colors[i]) {
        alone = false;
    }
    if y < 19 && same_block_color(colors[i + 10], colors[i]) {
        alone = false;
    }
    proof {
        if alone {
            assert forall|j: int| #[trigger] grid_adjacent(i as int, j) implies colors@[j] != colors@[i as int] by {
            }
        } else {
            if x > 0 && colors@[i - 1] == colors@[i as int] {
                assert(grid_adjacent(i as int, i - 1));
            } else if x < 9 && colors@[i + 1] == colors@[i as int] {
                assert(grid_adjacent(i as int, i + 1));
            } else if y > 0 && colors@[i - 10] == colors@[i as int] {
                assert(grid_adjacent(i as int, i - 10));
            } else {
                assert(grid_adjacent(i as int, i + 10));
            }
        }
    }
    alone
}

/// Row and column of the index of a position.
pub proof fn lemma_index_parts(x: int, y: int)
    requires
        0 <= x < BOARD_WIDTH,
        0 <= y,
    ensures
        row_of(y * BOARD_WIDTH as int + x) == y,
        col_of(y * BOARD_WIDTH as int + x) == x,
{
    assert((y * 10 + x) / 10 == y && (y * 10 + x) % 10 == x) by (nonlinear_arith)
        requires
            0 <= x < 10,
            0 <= y,
    ;
}

} // verus!
