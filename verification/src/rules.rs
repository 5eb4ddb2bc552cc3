//! The update rule: live-neighbor counting with boundary clipping, and the
//! generation transition (classical B3/S23 life rule) applied simultaneously
//! to every cell of the old board.

use vstd::prelude::*;

use crate::cell::CellState;
use crate::grid::{cell_index, in_bounds, BOARD_CELLS, BOARD_SIZE, Grid};

verus! {

/// The cell at `(row, col)` exists and is alive. Coordinates off the board
/// count as dead: neighbours are clipped at the boundary, never wrapped.
pub open spec fn alive_at(g: Seq<CellState>, row: int, col: int) -> bool {
    in_bounds(row, col) && g[cell_index(row, col)] is Alive
}

/// 1 if the condition holds, else 0; used to sum up live neighbours.
pub open spec fn count_one(b: bool) -> int {
    if b {
        1
    } else {
        0
    }
}

/// Number of live cells among the up-to-8 neighbours of `(row, col)`:
/// the relative offsets `{-1,0,1} x {-1,0,1}` without `(0,0)`, clipped
/// at the board edge.
pub open spec fn spec_neighbor_count(g: Seq<CellState>, row: int, col: int) -> int {
    count_one(alive_at(g, row, col - 1)) + count_one(alive_at(g, row, col + 1)) + count_one(
        alive_at(g, row - 1, col),
    ) + count_one(alive_at(g, row + 1, col)) + count_one(alive_at(g, row - 1, col - 1)) + count_one(
        alive_at(g, row - 1, col + 1),
    ) + count_one(alive_at(g, row + 1, col - 1)) + count_one(alive_at(g, row + 1, col + 1))
}

/// `(i, j)` is one of the eight neighbours of `(row, col)`.
pub open spec fn is_neighbor(row: int, col: int, i: int, j: int) -> bool {
    &&& row - 1 <= i <= row + 1
    &&& col - 1 <= j <= col + 1
    &&& !(i == row && j == col)
}

/// The state a cell takes in the next generation, given its current state
/// and its live-neighbour count: born at exactly 3, survives at 2 or 3,
/// dead otherwise.
pub open spec fn spec_next_cell(cur: CellState, count: int) -> CellState {
    if count == 3 {
        CellState::Alive
    } else if count == 2 && cur is Alive {
        CellState::Alive
    } else {
        CellState::Dead
    }
}

/// The whole next generation: every cell updated simultaneously from the
/// old board alone.
pub open spec fn spec_next_gen(g: Seq<CellState>) -> Seq<CellState> {
    Seq::new(
        BOARD_CELLS as nat,
        |k: int|
            spec_next_cell(
                g[k],
                spec_neighbor_count(g, k / (BOARD_SIZE as int), k % (BOARD_SIZE as int)),
            ),
    )
}

/// The board after `n` generations.
pub open spec fn spec_iterate(g: Seq<CellState>, n: nat) -> Seq<CellState>
    decreases n,
{
    if n == 0 {
        g
    } else {
        spec_next_gen(spec_iterate(g, (n - 1) as nat))
    }
}

/// The neighbour count is a count of at most eight cells.
pub proof fn lemma_neighbor_count_range(g: Seq<CellState>, row: int, col: int)
    ensures
        0 <= spec_neighbor_count(g, row, col) <= 8,
{
}

/// The neighbour count reads nothing outside the board: two boards that
/// agree on every on-board neighbour of `(row, col)` get the same count,
/// whatever else they hold.
pub proof fn lemma_neighbor_count_frame(
    g1: Seq<CellState>,
    g2: Seq<CellState>,
    row: int,
    col: int,
)
    requires
        forall|i: int, j: int|
            in_bounds(i, j) && is_neighbor(row, col, i, j)
                ==> g1[cell_index(i, j)] == g2[cell_index(i, j)],
    ensures
        spec_neighbor_count(g1, row, col) == spec_neighbor_count(g2, row, col),
{
    assert forall|i: int, j: int| is_neighbor(row, col, i, j) implies alive_at(g1, i, j)
        == alive_at(g2, i, j) by {
        if in_bounds(i, j) {
            assert(g1[cell_index(i, j)] == g2[cell_index(i, j)]);
        }
    }
    assert(alive_at(g1, row, col - 1) == alive_at(g2, row, col - 1));
    assert(alive_at(g1, row, col + 1) == alive_at(g2, row, col + 1));
    assert(alive_at(g1, row - 1, col) == alive_at(g2, row - 1, col));
    assert(alive_at(g1, row + 1, col) == alive_at(g2, row + 1, col));
    assert(alive_at(g1, row - 1, col - 1) == alive_at(g2, row - 1, col - 1));
    assert(alive_at(g1, row - 1, col + 1) == alive_at(g2, row - 1, col + 1));
    assert(alive_at(g1, row + 1, col - 1) == alive_at(g2, row + 1, col - 1));
    assert(alive_at(g1, row + 1, col + 1) == alive_at(g2, row + 1, col + 1));
}

/// What the next generation holds at one coordinate: the rule applied to
/// that cell's old state and old neighbour count.
pub proof fn lemma_next_gen_cell(g: Seq<CellState>, row: int, col: int)
    requires
        in_bounds(row, col),
    ensures
        spec_next_gen(g)[cell_index(row, col)] == spec_next_cell(
            g[cell_index(row, col)],
            spec_neighbor_count(g, row, col),
        ),
{
    crate::grid::lemma_cell_index_bounds(row, col);
}

/// The transition rule, case by case: a dead cell with exactly 3 live
/// neighbours is born; a live cell with 2 or 3 survives; every other
/// count leaves the cell dead in the next generation, whatever its
/// current state.
pub proof fn lemma_transition_rule(g: Seq<CellState>, row: int, col: int)
    requires
        in_bounds(row, col),
    ensures
        g[cell_index(row, col)] is Dead && spec_neighbor_count(g, row, col) == 3 ==> spec_next_gen(
            g,
        )[cell_index(row, col)] is Alive,
        g[cell_index(row, col)] is Alive && (spec_neighbor_count(g, row, col) == 2
            || spec_neighbor_count(g, row, col) == 3) ==> spec_next_gen(g)[cell_index(
            row,
            col,
        )] is Alive,
        spec_neighbor_count(g, row, col) < 2 ==> spec_next_gen(g)[cell_index(row, col)] is Dead,
        spec_neighbor_count(g, row, col) >= 4 ==> spec_next_gen(g)[cell_index(row, col)] is Dead,
        g[cell_index(row, col)] is Dead && spec_neighbor_count(g, row, col) == 2 ==> spec_next_gen(
            g,
        )[cell_index(row, col)] is Dead,
{
    lemma_next_gen_cell(g, row, col);
}

/// Live-neighbour count of the cell at `(row, col)`, boundary-clipped.
pub fn neighbor_count(g: &Grid, row: usize, col: usize) -> (n: u8)
    requires
        g.wf(),
        in_bounds(row as int, col as int),
    ensures
        n == spec_neighbor_count(g@, row as int, col as int),
        n <= 8,
{
    let mut counter: u8 = 0;
    if col > 0 {
        if g.get(row, col - 1) == CellState::Alive {
            counter = counter + 1;
        }
    }
    if col < BOARD_SIZE - 1 {
        if g.get(row, col + 1) == CellState::Alive {
            counter = counter + 1;
        }
    }
    if row > 0 {
        if g.get(row - 1, col) == CellState::Alive {
            counter = counter + 1;
        }
    }
    if row < BOARD_SIZE - 1 {
        if g.get(row + 1, col) == CellState::Alive {
            counter = counter + 1;
        }
    }
    if col > 0 && row > 0 {
        if g.get(row - 1, col - 1) == CellState::Alive {
            counter = counter + 1;
        }
    }
    if col < BOARD_SIZE - 1 && row > 0 {
        if g.get(row - 1, col + 1) == CellState::Alive {
            counter = counter + 1;
        }
    }
    if col > 0 && row < BOARD_SIZE - 1 {
        if g.get(row + 1, col - 1) == CellState::Alive {
            counter = counter + 1;
        }
    }
    if col < BOARD_SIZE - 1 && row < BOARD_SIZE - 1 {
        if g.get(row + 1, col + 1) == CellState::Alive {
            counter = counter + 1;
        }
    }
    counter
}

/// The rule for one cell, executable form.
pub fn next_cell(cur: CellState, count: u8) -> (s: CellState)
    ensures
        s == spec_next_cell(cur, count as int),
{
    if count == 3 {
        CellState::Alive
    } else if count == 2 && cur == CellState::Alive {
        CellState::Alive
    } else {
        CellState::Dead
    }
}

/// Compute the next generation as a full pass over the old board into a
/// fresh one. Pure: the result depends on the input board alone, and the
/// input is not touched.
pub fn next_generation(g: &Grid) -> (out: Grid)
    requires
        g.wf(),
    ensures
        out.wf(),
        out@ == spec_next_gen(g@),
{
    let mut cells: Vec<CellState> = Vec::new();
    let mut k: usize = 0;
    while k < BOARD_CELLS
        invariant
            g.wf(),
            k <= BOARD_CELLS,
            cells@.len() == k,
            forall|i: int| 0 <= i < k ==> cells@[i] == spec_next_gen(g@)[i],
        decreases BOARD_CELLS - k,
    {
        let row = k / BOARD_SIZE;
        let col = k % BOARD_SIZE;
        proof {
            assert(in_bounds(row as int, col as int));
            crate::grid::lemma_cell_index_bounds(row as int, col as int);
            assert(cell_index(row as int, col as int) == k);
        }
        let count = neighbor_count(g, row, col);
        let cur = g.get(row, col);
        cells.push(next_cell(cur, count));
        k = k + 1;
    }
    let out = Grid::from_cells(cells);
    proof {
        assert(out@ =~= spec_next_gen(g@));
    }
    out
}

} // verus!
