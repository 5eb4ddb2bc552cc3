//! The editor state machine: a cursor over the board and the commands that
//! move it, edit single cells, or replace the whole board, until the user
//! quits or starts the simulation.

use vstd::prelude::*;
use vstd::string::StrSliceExecFns;

use crate::cell::CellState;
use crate::finder::{spec_find_last, lemma_find_last_characterization, FinderResult,
    findStringInCharArray};
use crate::grid::{cell_index, filled, filled_from_draws, BOARD_CELLS, BOARD_SIZE, Grid};
use crate::tables::{column_ids, row_ids, spec_column_ids, spec_row_ids};

verus! {

/// One editor command, as parsed from a trimmed input line.
#[derive(PartialEq, Eq, Structural, Clone, Copy, Debug)]
pub enum EditorCmd {
    /// `"q"`: leave the editor and quit the program.
    Quit,
    /// `"s"`: leave the editor and start the simulation on the current board.
    Start,
    /// `"r"`: replace every cell independently, alive with probability 1/3.
    RandomFill,
    /// `"c"`: replace every cell with a dead one.
    Clear,
    /// `"m"`: replace every cell with a live one.
    FillAlive,
    /// `"A"`: set the cell under the cursor alive.
    MarkAlive,
    /// `"K"`: set the cell under the cursor dead.
    MarkDead,
    /// `"R"`: set the cell under the cursor alive with probability 1/3, else dead.
    MarkRandom,
    /// A two-character token that resolved to a coordinate: move the cursor
    /// to `(row, col)`.
    Nav(usize, usize),
    /// Anything else: no effect.
    Ignore,
}

/// Signal the editor leaves with, handed to the mode controller.
#[derive(PartialEq, Eq, Structural, Clone, Copy, Debug)]
pub enum EditorOutcome {
    /// Keep editing: read the next command.
    Continue,
    /// Quit the whole program.
    Quit,
    /// Hand the board to the simulator.
    StartSimulation,
}

/// How a trimmed input line is read in the editor. A two-character line is a
/// navigation attempt: its first character is looked up among the column
/// labels, its second among the row labels, and only if both resolve does the
/// cursor move — note the resolved column index becomes the cursor's column
/// and the resolved row index its row. Single-character lines select the
/// fixed commands; everything else is ignored.
pub open spec fn spec_parse_editor_cmd(s: Seq<char>) -> EditorCmd {
    if s.len() == 2 {
        match (spec_find_last(spec_column_ids(), seq![s[0]]), spec_find_last(
            spec_row_ids(),
            seq![s[1]],
        )) {
            (FinderResult::Index(ci), FinderResult::Index(ri)) => EditorCmd::Nav(ri, ci),
            _ => EditorCmd::Ignore,
        }
    } else if s.len() == 1 {
        if s[0] == 'q' {
            EditorCmd::Quit
        } else if s[0] == 's' {
            EditorCmd::Start
        } else if s[0] == 'r' {
            EditorCmd::RandomFill
        } else if s[0] == 'c' {
            EditorCmd::Clear
        } else if s[0] == 'm' {
            EditorCmd::FillAlive
        } else if s[0] == 'A' {
            EditorCmd::MarkAlive
        } else if s[0] == 'K' {
            EditorCmd::MarkDead
        } else if s[0] == 'R' {
            EditorCmd::MarkRandom
        } else {
            EditorCmd::Ignore
        }
    } else {
        EditorCmd::Ignore
    }
}

/// A navigation command only ever resolves to an on-board coordinate: the
/// symbol tables hold one label per line, so a successful lookup is a valid
/// index.
pub proof fn lemma_nav_in_bounds(s: Seq<char>)
    ensures
        spec_parse_editor_cmd(s) matches EditorCmd::Nav(r, c) ==> r < BOARD_SIZE && c
            < BOARD_SIZE,
{
    if s.len() == 2 {
        lemma_find_last_characterization(spec_column_ids(), seq![s[0]]);
        lemma_find_last_characterization(spec_row_ids(), seq![s[1]]);
    }
}

/// The board after one editor command, given the old board, the old cursor,
/// and one boolean draw per cell for the randomized commands.
pub open spec fn spec_editor_grid(
    grid: Seq<CellState>,
    row: int,
    col: int,
    cmd: EditorCmd,
    draws: Seq<bool>,
) -> Seq<CellState> {
    match cmd {
        EditorCmd::Clear => filled(CellState::Dead),
        EditorCmd::FillAlive => filled(CellState::Alive),
        EditorCmd::RandomFill => filled_from_draws(draws),
        EditorCmd::MarkAlive => grid.update(cell_index(row, col), CellState::Alive),
        EditorCmd::MarkDead => grid.update(cell_index(row, col), CellState::Dead),
        EditorCmd::MarkRandom => grid.update(
            cell_index(row, col),
            if draws[0] {
                CellState::Alive
            } else {
                CellState::Dead
            },
        ),
        _ => grid,
    }
}

/// The cursor row after one editor command.
pub open spec fn spec_editor_row(row: int, cmd: EditorCmd) -> int {
    match cmd {
        EditorCmd::Nav(r, c) => r as int,
        _ => row,
    }
}

/// The cursor column after one editor command.
pub open spec fn spec_editor_col(col: int, cmd: EditorCmd) -> int {
    match cmd {
        EditorCmd::Nav(r, c) => c as int,
        _ => col,
    }
}

/// The signal one editor command produces: only `"q"` and `"s"` leave the
/// editor.
pub open spec fn spec_editor_outcome(cmd: EditorCmd) -> EditorOutcome {
    match cmd {
        EditorCmd::Quit => EditorOutcome::Quit,
        EditorCmd::Start => EditorOutcome::StartSimulation,
        _ => EditorOutcome::Continue,
    }
}

/// A concrete draw sequence witnesses the existence of draws the editor's
/// board transition is pinned by.
proof fn lemma_editor_witness(
    grid: Seq<CellState>,
    row: int,
    col: int,
    cmd: EditorCmd,
    w: Seq<bool>,
    g_new: Seq<CellState>,
)
    requires
        w.len() == BOARD_CELLS,
        g_new == spec_editor_grid(grid, row, col, cmd, w),
    ensures
        exists|draws: Seq<bool>|
            draws.len() == BOARD_CELLS && g_new == spec_editor_grid(grid, row, col, cmd, draws),
{
    assert(w.len() == BOARD_CELLS && g_new == spec_editor_grid(grid, row, col, cmd, w));
}

/// Relies on rand::random_range: draws uniformly from `0..one_in_n` with the
/// thread-local generator, so the result is true with probability
/// `1/one_in_n`. A single outcome admits no promise beyond its type; the
/// range must be non-empty or the call panics.
#[verifier::external_body]
fn random_bool_with_bias(one_in_n: u32) -> bool
    requires
        one_in_n >= 1,
{
    rand::random_range(0..one_in_n) == 0
}

/// The editor's state: the board being edited and the cursor.
pub struct EditorState {
    /// The board under edit.
    pub grid: Grid,
    /// Cursor row, the target of single-cell commands.
    pub cursor_row: usize,
    /// Cursor column, the target of single-cell commands.
    pub cursor_col: usize,
}

impl EditorState {
    /// A well-formed editor holds a full board and keeps its cursor on it.
    pub open spec fn wf(&self) -> bool {
        &&& self.grid.wf()
        &&& self.cursor_row < BOARD_SIZE
        &&& self.cursor_col < BOARD_SIZE
    }

    /// Enter the editor on a board: the cursor starts at the origin.
    pub fn new(grid: Grid) -> (st: EditorState)
        requires
            grid.wf(),
        ensures
            st.wf(),
            st.grid@ == grid@,
            st.cursor_row == 0,
            st.cursor_col == 0,
    {
        EditorState { grid, cursor_row: 0, cursor_col: 0 }
    }

    /// Parse one trimmed input line into an editor command.
    pub fn parse_command(cmd: &str) -> (c: EditorCmd)
        ensures
            c == spec_parse_editor_cmd(cmd@),
    {
        let len = cmd.unicode_len();
        if len == 2 {
            let col_s = cmd.substring_char(0, 1);
            let row_s = cmd.substring_char(1, 2);
            proof {
                assert(col_s@ =~= seq![cmd@[0]]);
                assert(row_s@ =~= seq![cmd@[1]]);
            }
            let cols = column_ids();
            let rows = row_ids();
            let col_r = findStringInCharArray(cols.as_slice(), col_s);
            let row_r = findStringInCharArray(rows.as_slice(), row_s);
            match (col_r, row_r) {
                (FinderResult::Index(ci), FinderResult::Index(ri)) => EditorCmd::Nav(ri, ci),
                _ => EditorCmd::Ignore,
            }
        } else if len == 1 {
            let c0 = cmd.get_char(0);
            if c0 == 'q' {
                EditorCmd::Quit
            } else if c0 == 's' {
                EditorCmd::Start
            } else if c0 == 'r' {
                EditorCmd::RandomFill
            } else if c0 == 'c' {
                EditorCmd::Clear
            } else if c0 == 'm' {
                EditorCmd::FillAlive
            } else if c0 == 'A' {
                EditorCmd::MarkAlive
            } else if c0 == 'K' {
                EditorCmd::MarkDead
            } else if c0 == 'R' {
                EditorCmd::MarkRandom
            } else {
                EditorCmd::Ignore
            }
        } else {
            EditorCmd::Ignore
        }
    }

    /// Apply one trimmed input line to the editor: move the cursor, edit the
    /// board, or leave with a signal. Unrecognized lines change nothing. The
    /// two randomized commands are pinned up to the boolean draws they
    /// consumed; everything else is exact.
    pub fn editor_step(&mut self, cmd: &str) -> (out: EditorOutcome)
        requires
            old(self).wf(),
        ensures
            final(self).wf(),
            out == spec_editor_outcome(spec_parse_editor_cmd(cmd@)),
            final(self).cursor_row as int == spec_editor_row(
                old(self).cursor_row as int,
                spec_parse_editor_cmd(cmd@),
            ),
            final(self).cursor_col as int == spec_editor_col(
                old(self).cursor_col as int,
                spec_parse_editor_cmd(cmd@),
            ),
            exists|draws: Seq<bool>|
                draws.len() == BOARD_CELLS && final(self).grid@ == spec_editor_grid(
                    old(self).grid@,
                    old(self).cursor_row as int,
                    old(self).cursor_col as int,
                    spec_parse_editor_cmd(cmd@),
                    draws,
                ),
    {
        let c = Self::parse_command(cmd);
        proof {
            lemma_nav_in_bounds(cmd@);
        }
        let ghost some_draws = Seq::new(BOARD_CELLS as nat, |k: int| true);
        match c {
            EditorCmd::Quit => {
                proof {
                    lemma_editor_witness(
                        old(self).grid@,
                        old(self).cursor_row as int,
                        old(self).cursor_col as int,
                        spec_parse_editor_cmd(cmd@),
                        some_draws,
                        self.grid@,
                    );
                }
                EditorOutcome::Quit
            },
            EditorCmd::Start => {
                proof {
                    lemma_editor_witness(
                        old(self).grid@,
                        old(self).cursor_row as int,
                        old(self).cursor_col as int,
                        spec_parse_editor_cmd(cmd@),
                        some_draws,
                        self.grid@,
                    );
                }
                EditorOutcome::StartSimulation
            },
            EditorCmd::Clear => {
                self.grid.fill(CellState::Dead);
                proof {
                    lemma_editor_witness(
                        old(self).grid@,
                        old(self).cursor_row as int,
                        old(self).cursor_col as int,
                        spec_parse_editor_cmd(cmd@),
                        some_draws,
                        self.grid@,
                    );
                }
                EditorOutcome::Continue
            },
            EditorCmd::FillAlive => {
                self.grid.fill(CellState::Alive);
                proof {
                    lemma_editor_witness(
                        old(self).grid@,
                        old(self).cursor_row as int,
                        old(self).cursor_col as int,
                        spec_parse_editor_cmd(cmd@),
                        some_draws,
                        self.grid@,
                    );
                }
                EditorOutcome::Continue
            },
            EditorCmd::RandomFill => {
                let mut draws: Vec<bool> = Vec::new();
                let mut k: usize = 0;
                while k < BOARD_CELLS
                    invariant
                        k <= BOARD_CELLS,
                        draws@.len() == k,
                    decreases BOARD_CELLS - k,
                {
                    draws.push(random_bool_with_bias(3));
                    k = k + 1;
                }
                self.grid.fill_from_draws(&draws);
                proof {
                    lemma_editor_witness(
                        old(self).grid@,
                        old(self).cursor_row as int,
                        old(self).cursor_col as int,
                        spec_parse_editor_cmd(cmd@),
                        draws@,
                        self.grid@,
                    );
                }
                EditorOutcome::Continue
            },
            EditorCmd::MarkAlive => {
                self.grid.set(self.cursor_row, self.cursor_col, CellState::Alive);
                proof {
                    lemma_editor_witness(
                        old(self).grid@,
                        old(self).cursor_row as int,
                        old(self).cursor_col as int,
                        spec_parse_editor_cmd(cmd@),
                        some_draws,
                        self.grid@,
                    );
                }
                EditorOutcome::Continue
            },
            EditorCmd::MarkDead => {
                self.grid.set(self.cursor_row, self.cursor_col, CellState::Dead);
                proof {
                    lemma_editor_witness(
                        old(self).grid@,
                        old(self).cursor_row as int,
                        old(self).cursor_col as int,
                        spec_parse_editor_cmd(cmd@),
                        some_draws,
                        self.grid@,
                    );
                }
                EditorOutcome::Continue
            },
            EditorCmd::MarkRandom => {
                let b = random_bool_with_bias(3);
                let s = if b {
                    CellState::Alive
                } else {
                    CellState::Dead
                };
                self.grid.set(self.cursor_row, self.cursor_col, s);
                proof {
                    let w = Seq::new(BOARD_CELLS as nat, |k: int| b);
                    assert(w[0] == b);
                    lemma_editor_witness(
                        old(self).grid@,
                        old(self).cursor_row as int,
                        old(self).cursor_col as int,
                        spec_parse_editor_cmd(cmd@),
                        w,
                        self.grid@,
                    );
                }
                EditorOutcome::Continue
            },
            EditorCmd::Nav(r, cl) => {
                self.cursor_row = r;
                self.cursor_col = cl;
                proof {
                    lemma_editor_witness(
                        old(self).grid@,
                        old(self).cursor_row as int,
                        old(self).cursor_col as int,
                        spec_parse_editor_cmd(cmd@),
                        some_draws,
                        self.grid@,
                    );
                }
                EditorOutcome::Continue
            },
            EditorCmd::Ignore => {
                proof {
                    lemma_editor_witness(
                        old(self).grid@,
                        old(self).cursor_row as int,
                        old(self).cursor_col as int,
                        spec_parse_editor_cmd(cmd@),
                        some_draws,
                        self.grid@,
                    );
                }
                EditorOutcome::Continue
            },
        }
    }
}

} // verus!
