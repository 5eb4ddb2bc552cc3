//! The board: a fixed-size square grid of cells, stored row-major in a flat
//! buffer. The view of a grid is the sequence of its cells; the cell at
//! `(row, col)` sits at index `row * BOARD_SIZE + col`.

use vstd::prelude::*;

use crate::cell::CellState;

verus! {

/// The side length of the (square) board.
pub const BOARD_SIZE: usize = 24;

/// Number of cells on the board.
pub const BOARD_CELLS: usize = 576;

/// Flat index of the cell at `(row, col)`, row-major.
pub open spec fn cell_index(row: int, col: int) -> int {
    row * (BOARD_SIZE as int) + col
}

/// A coordinate pair lies on the board.
pub open spec fn in_bounds(row: int, col: int) -> bool {
    0 <= row < BOARD_SIZE && 0 <= col < BOARD_SIZE
}

/// The board a bulk fill produces: every cell in state `s`.
pub open spec fn filled(s: CellState) -> Seq<CellState> {
    Seq::new(BOARD_CELLS as nat, |k: int| s)
}

/// The board a randomized bulk fill produces from one boolean draw per
/// cell: alive exactly where the draw came up true.
pub open spec fn filled_from_draws(draws: Seq<bool>) -> Seq<CellState> {
    Seq::new(
        BOARD_CELLS as nat,
        |k: int|
            if draws[k] {
                CellState::Alive
            } else {
                CellState::Dead
            },
    )
}

/// A fixed-size square grid of cells.
pub struct Grid {
    cells: Vec<CellState>,
}

impl View for Grid {
    type V = Seq<CellState>;

    closed spec fn view(&self) -> Seq<CellState> {
        self.cells@
    }
}

impl Grid {
    /// A grid is well formed when it holds exactly one cell per coordinate.
    pub open spec fn wf(&self) -> bool {
        self@.len() == BOARD_CELLS
    }

    /// A fresh board with every cell dead.
    pub fn new_dead() -> (g: Grid)
        ensures
            g.wf(),
            g@ == filled(CellState::Dead),
    {
        let mut cells: Vec<CellState> = Vec::new();
        let mut k: usize = 0;
        while k < BOARD_CELLS
            invariant
                k <= BOARD_CELLS,
                cells@.len() == k,
                forall|i: int| 0 <= i < k ==> cells@[i] == CellState::Dead,
            decreases BOARD_CELLS - k,
        {
            cells.push(CellState::Dead);
            k = k + 1;
        }
        let g = Grid { cells };
        proof {
            assert(g@ =~= filled(CellState::Dead));
        }
        g
    }

    /// Wrap a full buffer of cells, row-major, as a grid.
    pub fn from_cells(cells: Vec<CellState>) -> (g: Grid)
        requires
            cells@.len() == BOARD_CELLS,
        ensures
            g.wf(),
            g@ == cells@,
    {
        Grid { cells }
    }

    /// Read the cell at `(row, col)`.
    pub fn get(&self, row: usize, col: usize) -> (s: CellState)
        requires
            self.wf(),
            in_bounds(row as int, col as int),
        ensures
            s == self@[cell_index(row as int, col as int)],
    {
        proof {
            lemma_cell_index_bounds(row as int, col as int);
        }
        self.cells[row * BOARD_SIZE + col]
    }

    /// Overwrite the cell at `(row, col)` with `s`.
    pub fn set(&mut self, row: usize, col: usize, s: CellState)
        requires
            old(self).wf(),
            in_bounds(row as int, col as int),
        ensures
            final(self).wf(),
            final(self)@ == old(self)@.update(cell_index(row as int, col as int), s),
    {
        proof {
            lemma_cell_index_bounds(row as int, col as int);
        }
        let k = row * BOARD_SIZE + col;
        self.cells.set(k, s);
    }

    /// Replace every cell independently according to one draw per cell:
    /// alive where the draw is true, dead where it is false.
    pub fn fill_from_draws(&mut self, draws: &Vec<bool>)
        requires
            old(self).wf(),
            draws@.len() == BOARD_CELLS,
        ensures
            final(self).wf(),
            final(self)@ == filled_from_draws(draws@),
    {
        let mut cells: Vec<CellState> = Vec::new();
        let mut k: usize = 0;
        while k < BOARD_CELLS
            invariant
                k <= BOARD_CELLS,
                cells@.len() == k,
                draws@.len() == BOARD_CELLS,
                forall|i: int| 0 <= i < k ==> cells@[i] == filled_from_draws(draws@)[i],
            decreases BOARD_CELLS - k,
        {
            if draws[k] {
                cells.push(CellState::Alive);
            } else {
                cells.push(CellState::Dead);
            }
            k = k + 1;
        }
        self.cells = cells;
        proof {
            assert(self@ =~= filled_from_draws(draws@));
        }
    }

    /// Replace every cell with `s`.
    pub fn fill(&mut self, s: CellState)
        requires
            old(self).wf(),
        ensures
            final(self).wf(),
            final(self)@ == filled(s),
    {
        let mut cells: Vec<CellState> = Vec::new();
        let mut k: usize = 0;
        while k < BOARD_CELLS
            invariant
                k <= BOARD_CELLS,
                cells@.len() == k,
                forall|i: int| 0 <= i < k ==> cells@[i] == s,
            decreases BOARD_CELLS - k,
        {
            cells.push(s);
            k = k + 1;
        }
        self.cells = cells;
        proof {
            assert(self@ =~= filled(s));
        }
    }
}

/// The flat index of an on-board coordinate lies inside the buffer, and
/// distinct coordinates get distinct indices.
pub proof fn lemma_cell_index_bounds(row: int, col: int)
    requires
        in_bounds(row, col),
    ensures
        0 <= cell_index(row, col) < BOARD_CELLS,
        cell_index(row, col) / (BOARD_SIZE as int) == row,
        cell_index(row, col) % (BOARD_SIZE as int) == col,
{
    let n = BOARD_SIZE as int;
    assert(row * n + col < BOARD_CELLS) by (nonlinear_arith)
        requires
            0 <= row < 24,
            0 <= col < 24,
            n == 24,
        ;
    assert((row * n + col) / n == row && (row * n + col) % n == col) by (nonlinear_arith)
        requires
            0 <= row,
            0 <= col < n,
            n == 24,
        ;
}

} // verus!
