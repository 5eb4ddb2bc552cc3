//! The mode controller: the program alternates between editor and simulator,
//! each leaving with an explicit signal, until one of them quits. The board
//! is handed over by value, intact, at every switch.

use vstd::prelude::*;

use crate::cell::CellState;
use crate::editor::{
    spec_editor_col, spec_editor_grid, spec_editor_row, spec_parse_editor_cmd, EditorCmd,
    EditorOutcome, EditorState,
};
use crate::grid::{filled, BOARD_CELLS, Grid};
use crate::rules::spec_iterate;
use crate::simulator::{spec_parse_sim_cmd, SimCmd, SimOutcome, SimState};

verus! {

/// Which mode holds the board, or that the program has ended.
pub enum Mode {
    /// The editor owns the board.
    Editor(EditorState),
    /// The simulator owns the board.
    Simulator(SimState),
    /// A quit signal was produced: the program is over.
    Done,
}

/// The mathematical value of a mode: its board as a sequence of cells plus
/// the mode's own counters.
pub enum ModeModel {
    /// Editing: the board and the cursor.
    Editor { grid: Seq<CellState>, row: int, col: int },
    /// Simulating: the board and the generation counter.
    Simulator { grid: Seq<CellState>, generation: int },
    /// The program is over.
    Done,
}

impl Mode {
    /// The model a mode stands for.
    pub open spec fn model(&self) -> ModeModel {
        match self {
            Mode::Editor(st) => ModeModel::Editor {
                grid: st.grid@,
                row: st.cursor_row as int,
                col: st.cursor_col as int,
            },
            Mode::Simulator(st) => ModeModel::Simulator {
                grid: st.grid@,
                generation: st.generation as int,
            },
            Mode::Done => ModeModel::Done,
        }
    }

    /// The mode's state is well formed.
    pub open spec fn wf(&self) -> bool {
        match self {
            Mode::Editor(st) => st.wf(),
            Mode::Simulator(st) => st.wf(),
            Mode::Done => true,
        }
    }

    /// The generation counter is far enough from its machine limit to take
    /// the largest possible skip.
    pub open spec fn generation_headroom(&self) -> bool {
        match self {
            Mode::Simulator(st) => st.generation <= u64::MAX - 255,
            _ => true,
        }
    }
}

/// One step of the whole program on one trimmed input line, at the level of
/// models: what the active mode does with the command, and which mode holds
/// the board next. `draws` supplies one boolean per cell for the editor's
/// randomized commands; deterministic commands ignore it.
pub open spec fn spec_mode_step(m: ModeModel, cmd: Seq<char>, draws: Seq<bool>) -> ModeModel {
    match m {
        ModeModel::Editor { grid, row, col } => {
            let c = spec_parse_editor_cmd(cmd);
            match c {
                EditorCmd::Quit => ModeModel::Done,
                EditorCmd::Start => ModeModel::Simulator { grid, generation: 0 },
                _ => ModeModel::Editor {
                    grid: spec_editor_grid(grid, row, col, c, draws),
                    row: spec_editor_row(row, c),
                    col: spec_editor_col(col, c),
                },
            }
        },
        ModeModel::Simulator { grid, generation } => {
            match spec_parse_sim_cmd(cmd) {
                SimCmd::Quit => ModeModel::Done,
                SimCmd::ToEditor => ModeModel::Editor { grid, row: 0, col: 0 },
                SimCmd::Advance(k) => ModeModel::Simulator {
                    grid: spec_iterate(grid, k as nat),
                    generation: generation + k,
                },
            }
        },
        ModeModel::Done => ModeModel::Done,
    }
}

/// A concrete draw sequence witnesses the existence of draws the program's
/// step is pinned by.
proof fn lemma_step_witness(m0: ModeModel, cmd: Seq<char>, w: Seq<bool>, result: ModeModel)
    requires
        w.len() == BOARD_CELLS,
        result == spec_mode_step(m0, cmd, w),
    ensures
        exists|draws: Seq<bool>|
            draws.len() == BOARD_CELLS && result == spec_mode_step(m0, cmd, draws),
{
    assert(w.len() == BOARD_CELLS && result == spec_mode_step(m0, cmd, w));
}

/// The mode the program starts in: editing a fresh all-dead board, cursor at
/// the origin.
pub fn initial_mode() -> (m: Mode)
    ensures
        m.wf(),
        m.generation_headroom(),
        m.model() == (ModeModel::Editor { grid: filled(CellState::Dead), row: 0, col: 0 }),
{
    Mode::Editor(EditorState::new(Grid::new_dead()))
}

/// Run one trimmed input line against the active mode. The result is the
/// model-level step for the draws the randomized commands consumed; every
/// deterministic command is pinned exactly.
pub fn step(m: Mode, cmd: &str) -> (next: Mode)
    requires
        m.wf(),
        m.generation_headroom(),
    ensures
        next.wf(),
        exists|draws: Seq<bool>|
            draws.len() == BOARD_CELLS && next.model() == spec_mode_step(m.model(), cmd@, draws),
{
    let ghost m0 = m.model();
    match m {
        Mode::Editor(mut st) => {
            let ghost g0 = st.grid@;
            let ghost r0 = st.cursor_row as int;
            let ghost c0 = st.cursor_col as int;
            let out = st.editor_step(cmd);
            let ghost w = choose|draws: Seq<bool>|
                draws.len() == BOARD_CELLS && st.grid@ == spec_editor_grid(
                    g0,
                    r0,
                    c0,
                    spec_parse_editor_cmd(cmd@),
                    draws,
                );
            match out {
                EditorOutcome::Quit => {
                    proof {
                        lemma_step_witness(m0, cmd@, w, ModeModel::Done);
                    }
                    Mode::Done
                },
                EditorOutcome::StartSimulation => {
                    let next = Mode::Simulator(SimState::new(st.grid));
                    proof {
                        lemma_step_witness(m0, cmd@, w, next.model());
                    }
                    next
                },
                EditorOutcome::Continue => {
                    let next = Mode::Editor(st);
                    proof {
                        lemma_step_witness(m0, cmd@, w, next.model());
                    }
                    next
                },
            }
        },
        Mode::Simulator(mut st) => {
            let out = st.sim_step(cmd);
            let ghost draws = Seq::new(BOARD_CELLS as nat, |k: int| true);
            match out {
                SimOutcome::Quit => {
                    proof {
                        lemma_step_witness(m0, cmd@, draws, ModeModel::Done);
                    }
                    Mode::Done
                },
                SimOutcome::ReturnToEditor => {
                    let next = Mode::Editor(EditorState::new(st.grid));
                    proof {
                        lemma_step_witness(m0, cmd@, draws, next.model());
                    }
                    next
                },
                SimOutcome::Continue => {
                    let next = Mode::Simulator(st);
                    proof {
                        lemma_step_witness(m0, cmd@, draws, next.model());
                    }
                    next
                },
            }
        },
        Mode::Done => {
            proof {
                let draws = Seq::new(BOARD_CELLS as nat, |k: int| true);
                lemma_step_witness(m0, cmd@, draws, ModeModel::Done);
            }
            Mode::Done
        },
    }
}

/// Round trip: starting the simulation and immediately returning hands the
/// editor back exactly the board the simulator held — no cell is altered by
/// the mode switches themselves, and the cursor is back at the origin.
pub proof fn lemma_mode_round_trip(
    grid: Seq<CellState>,
    row: int,
    col: int,
    d1: Seq<bool>,
    d2: Seq<bool>,
)
    ensures
        spec_mode_step(
            spec_mode_step(ModeModel::Editor { grid, row, col }, seq!['s'], d1),
            seq!['e'],
            d2,
        ) == (ModeModel::Editor { grid, row: 0, col: 0 }),
{
}

/// Quit propagation: `"q"` in the editor ends the program at once, whatever
/// the board holds — the generation rule is never applied on the way out.
pub proof fn lemma_quit_propagation(grid: Seq<CellState>, row: int, col: int, draws: Seq<bool>)
    ensures
        spec_mode_step(ModeModel::Editor { grid, row, col }, seq!['q'], draws) == ModeModel::Done,
{
}

/// Skip semantics: a command that advances by `k` moves the generation
/// counter from `G` to `G + k` and the board to the `k`-times-iterated
/// transition of the board at entry; nothing else changes hands.
pub proof fn lemma_skip_semantics(
    grid: Seq<CellState>,
    generation: int,
    cmd: Seq<char>,
    draws: Seq<bool>,
    k: u8,
)
    requires
        spec_parse_sim_cmd(cmd) == SimCmd::Advance(k),
    ensures
        spec_mode_step(ModeModel::Simulator { grid, generation }, cmd, draws)
            == (ModeModel::Simulator {
            grid: spec_iterate(grid, k as nat),
            generation: generation + k,
        }),
{
}

/// Clearing is idempotent: a second `"c"` leaves the same all-dead board the
/// first one produced.
pub proof fn lemma_clear_idempotent(
    grid: Seq<CellState>,
    row: int,
    col: int,
    d1: Seq<bool>,
    d2: Seq<bool>,
)
    ensures
        spec_mode_step(ModeModel::Editor { grid, row, col }, seq!['c'], d1) == (ModeModel::Editor {
            grid: filled(CellState::Dead),
            row,
            col,
        }),
        spec_mode_step(
            spec_mode_step(ModeModel::Editor { grid, row, col }, seq!['c'], d1),
            seq!['c'],
            d2,
        ) == spec_mode_step(ModeModel::Editor { grid, row, col }, seq!['c'], d1),
{
}

} // verus!
