use rusted_life::cell::CellState;
use rusted_life::controller::{initial_mode, step, Mode};
use rusted_life::editor::{EditorCmd, EditorOutcome, EditorState};
use rusted_life::grid::{Grid, BOARD_SIZE};
use rusted_life::rules::next_generation;
use rusted_life::simulator::{parse_skip, SimCmd, SimOutcome, SimState};

fn snapshot(g: &Grid) -> Vec<CellState> {
    let mut v = Vec::new();
    for r in 0..BOARD_SIZE {
        for c in 0..BOARD_SIZE {
            v.push(g.get(r, c));
        }
    }
    v
}

fn alive_cells(g: &Grid) -> Vec<(usize, usize)> {
    let mut v = Vec::new();
    for r in 0..BOARD_SIZE {
        for c in 0..BOARD_SIZE {
            if g.get(r, c) == CellState::Alive {
                v.push((r, c));
            }
        }
    }
    v
}

#[test]
fn editor_parses_single_letter_commands() {
    assert_eq!(EditorState::parse_command("q"), EditorCmd::Quit);
    assert_eq!(EditorState::parse_command("s"), EditorCmd::Start);
    assert_eq!(EditorState::parse_command("r"), EditorCmd::RandomFill);
    assert_eq!(EditorState::parse_command("c"), EditorCmd::Clear);
    assert_eq!(EditorState::parse_command("m"), EditorCmd::FillAlive);
    assert_eq!(EditorState::parse_command("A"), EditorCmd::MarkAlive);
    assert_eq!(EditorState::parse_command("K"), EditorCmd::MarkDead);
    assert_eq!(EditorState::parse_command("R"), EditorCmd::MarkRandom);
    assert_eq!(EditorState::parse_command("x"), EditorCmd::Ignore);
    assert_eq!(EditorState::parse_command(""), EditorCmd::Ignore);
    assert_eq!(EditorState::parse_command("qqq"), EditorCmd::Ignore);
}

#[test]
fn editor_parses_navigation_tokens() {
    // First character: column label; second: row label.
    assert_eq!(EditorState::parse_command("B1"), EditorCmd::Nav(0, 1));
    assert_eq!(EditorState::parse_command("A1"), EditorCmd::Nav(0, 0));
    assert_eq!(EditorState::parse_command("C6"), EditorCmd::Nav(5, 2));
    // Unresolvable tokens are ignored.
    assert_eq!(EditorState::parse_command("Z1"), EditorCmd::Ignore);
    assert_eq!(EditorState::parse_command("Ab"), EditorCmd::Ignore);
    assert_eq!(EditorState::parse_command("11"), EditorCmd::Ignore);
}

#[test]
fn editor_marks_and_clears_cells() {
    let mut st = EditorState::new(Grid::new_dead());
    assert_eq!(st.editor_step("A"), EditorOutcome::Continue);
    assert_eq!(st.grid.get(0, 0), CellState::Alive);
    assert_eq!(st.editor_step("K"), EditorOutcome::Continue);
    assert_eq!(st.grid.get(0, 0), CellState::Dead);
}

#[test]
fn editor_navigation_moves_the_cursor() {
    let mut st = EditorState::new(Grid::new_dead());
    assert_eq!(st.editor_step("C6"), EditorOutcome::Continue);
    assert_eq!((st.cursor_row, st.cursor_col), (5, 2));
    // An unresolvable token leaves the cursor alone.
    assert_eq!(st.editor_step("??"), EditorOutcome::Continue);
    assert_eq!((st.cursor_row, st.cursor_col), (5, 2));
    st.editor_step("A");
    assert_eq!(st.grid.get(5, 2), CellState::Alive);
}

#[test]
fn editor_bulk_fills() {
    let mut st = EditorState::new(Grid::new_dead());
    assert_eq!(st.editor_step("m"), EditorOutcome::Continue);
    assert_eq!(alive_cells(&st.grid).len(), BOARD_SIZE * BOARD_SIZE);
    assert_eq!(st.editor_step("c"), EditorOutcome::Continue);
    assert_eq!(alive_cells(&st.grid).len(), 0);
}

#[test]
fn clear_is_idempotent() {
    let mut st = EditorState::new(Grid::new_dead());
    st.editor_step("m");
    st.editor_step("A");
    st.editor_step("c");
    let once = snapshot(&st.grid);
    st.editor_step("c");
    let twice = snapshot(&st.grid);
    assert_eq!(once, twice);
    assert!(once.iter().all(|s| *s == CellState::Dead));
}

#[test]
fn random_single_cell_touches_only_the_cursor() {
    let mut st = EditorState::new(Grid::new_dead());
    st.editor_step("m");
    let before = snapshot(&st.grid);
    st.editor_step("C6");
    assert_eq!(st.editor_step("R"), EditorOutcome::Continue);
    let after = snapshot(&st.grid);
    for r in 0..BOARD_SIZE {
        for c in 0..BOARD_SIZE {
            if (r, c) != (5, 2) {
                assert_eq!(before[r * BOARD_SIZE + c], after[r * BOARD_SIZE + c]);
            }
        }
    }
}

#[test]
fn random_fill_keeps_a_full_board() {
    let mut st = EditorState::new(Grid::new_dead());
    assert_eq!(st.editor_step("r"), EditorOutcome::Continue);
    // Every coordinate still holds exactly one cell, alive or dead.
    let _ = snapshot(&st.grid);
    assert_eq!((st.cursor_row, st.cursor_col), (0, 0));
}

#[test]
fn editor_exit_signals() {
    let mut st = EditorState::new(Grid::new_dead());
    assert_eq!(st.editor_step("q"), EditorOutcome::Quit);
    assert_eq!(st.editor_step("s"), EditorOutcome::StartSimulation);
}

#[test]
fn skip_parsing() {
    assert_eq!(parse_skip("5"), 5);
    assert_eq!(parse_skip("007"), 7);
    assert_eq!(parse_skip("+7"), 7);
    assert_eq!(parse_skip("255"), 255);
    assert_eq!(parse_skip("256"), 1);
    assert_eq!(parse_skip("abc"), 1);
    assert_eq!(parse_skip("1x"), 1);
    assert_eq!(parse_skip("+"), 1);
    assert_eq!(parse_skip("0"), 0);
}

#[test]
fn simulator_parses_commands() {
    assert_eq!(SimState::parse_command("q"), SimCmd::Quit);
    assert_eq!(SimState::parse_command("e"), SimCmd::ToEditor);
    assert_eq!(SimState::parse_command("s5"), SimCmd::Advance(5));
    assert_eq!(SimState::parse_command("s100"), SimCmd::Advance(100));
    assert_eq!(SimState::parse_command("sabc"), SimCmd::Advance(1));
    assert_eq!(SimState::parse_command(""), SimCmd::Advance(1));
    assert_eq!(SimState::parse_command("x"), SimCmd::Advance(1));
    assert_eq!(SimState::parse_command("qq"), SimCmd::Advance(1));
}

#[test]
fn skip_advances_counter_and_board() {
    let mut g = Grid::new_dead();
    g.set(5, 4, CellState::Alive);
    g.set(5, 5, CellState::Alive);
    g.set(5, 6, CellState::Alive);
    // Compute five generations by hand.
    let mut expect = snapshot(&g);
    {
        let mut cur = Grid::new_dead();
        for r in 0..BOARD_SIZE {
            for c in 0..BOARD_SIZE {
                cur.set(r, c, expect[r * BOARD_SIZE + c]);
            }
        }
        for _ in 0..5 {
            cur = next_generation(&cur);
        }
        expect = snapshot(&cur);
    }
    let mut st = SimState::new(g);
    assert_eq!(st.sim_step("s5"), SimOutcome::Continue);
    assert_eq!(st.generation, 5);
    assert_eq!(snapshot(&st.grid), expect);
    // A malformed suffix advances exactly one generation.
    assert_eq!(st.sim_step("sabc"), SimOutcome::Continue);
    assert_eq!(st.generation, 6);
}

#[test]
fn simulator_exit_signals_leave_the_board_alone() {
    let mut g = Grid::new_dead();
    g.set(1, 1, CellState::Alive);
    let before = snapshot(&g);
    let mut st = SimState::new(g);
    assert_eq!(st.sim_step("e"), SimOutcome::ReturnToEditor);
    assert_eq!(st.generation, 0);
    assert_eq!(snapshot(&st.grid), before);
    assert_eq!(st.sim_step("q"), SimOutcome::Quit);
    assert_eq!(snapshot(&st.grid), before);
}

#[test]
fn quit_from_editor_terminates_at_once() {
    let m = initial_mode();
    let next = step(m, "q");
    assert!(matches!(next, Mode::Done));
}

#[test]
fn round_trip_preserves_the_board() {
    let mut st = EditorState::new(Grid::new_dead());
    st.editor_step("m");
    st.editor_step("C6");
    st.editor_step("K");
    let before = snapshot(&st.grid);
    let m = step(Mode::Editor(st), "s");
    let st2 = match m {
        Mode::Simulator(s) => s,
        _ => panic!("expected the simulator to take over"),
    };
    assert_eq!(st2.generation, 0);
    assert_eq!(snapshot(&st2.grid), before);
    let m2 = step(Mode::Simulator(st2), "e");
    match m2 {
        Mode::Editor(st3) => {
            assert_eq!(snapshot(&st3.grid), before);
            assert_eq!((st3.cursor_row, st3.cursor_col), (0, 0));
        }
        _ => panic!("expected the editor to take over"),
    }
}

#[test]
fn two_isolated_neighbors_die() {
    // An all-dead board; mark (0,0), navigate to (0,1), mark it too; the two
    // lone neighbours then die out in one generation.
    let m = initial_mode();
    let m = step(m, "A");
    let m = step(m, "B1");
    let m = step(m, "A");
    let st = match m {
        Mode::Editor(st) => st,
        _ => panic!("expected to still be editing"),
    };
    assert_eq!(alive_cells(&st.grid), vec![(0, 0), (0, 1)]);
    let m = step(Mode::Editor(st), "s");
    let m = step(m, "x");
    match m {
        Mode::Simulator(st) => {
            assert_eq!(st.generation, 1);
            assert_eq!(alive_cells(&st.grid), vec![]);
        }
        _ => panic!("expected to still be simulating"),
    }
}
