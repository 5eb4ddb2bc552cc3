//! The state of a single grid cell.

use vstd::prelude::*;

verus! {

/// A cell of the board is either alive or dead.
#[derive(PartialEq, Eq, Structural, Clone, Copy, Debug)]
pub enum CellState {
    Alive,
    Dead,
}

impl CellState {
    /// The glyph a cell is drawn with: `'#'` for a live cell, `'.'` for a dead one.
    pub fn to_char(&self) -> (c: char)
        ensures
            c == (if self is Alive { '#' } else { '.' }),
    {
        match self {
            CellState::Alive => '#',
            CellState::Dead => '.',
        }
    }
}

} // verus!
