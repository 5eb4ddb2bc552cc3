use rusted_life::cell::CellState;
use rusted_life::finder::{findStringInCharArray, FinderResult};
use rusted_life::grid::{Grid, BOARD_SIZE};
use rusted_life::rules::{neighbor_count, next_generation};
use rusted_life::tables::{column_ids, row_ids};

fn grids_equal(a: &Grid, b: &Grid) -> bool {
    for r in 0..BOARD_SIZE {
        for c in 0..BOARD_SIZE {
            if a.get(r, c) != b.get(r, c) {
                return false;
            }
        }
    }
    true
}

fn alive_count(g: &Grid) -> usize {
    let mut n = 0;
    for r in 0..BOARD_SIZE {
        for c in 0..BOARD_SIZE {
            if g.get(r, c) == CellState::Alive {
                n += 1;
            }
        }
    }
    n
}

#[test]
fn cell_glyphs() {
    assert_eq!(CellState::Alive.to_char(), '#');
    assert_eq!(CellState::Dead.to_char(), '.');
}

#[test]
fn tables_have_one_label_per_line() {
    assert_eq!(column_ids().len(), BOARD_SIZE);
    assert_eq!(row_ids().len(), BOARD_SIZE);
}

#[test]
fn finder_finds_a_label() {
    let cols = column_ids();
    assert_eq!(
        findStringInCharArray(cols.as_slice(), "B"),
        FinderResult::Index(1)
    );
    assert_eq!(
        findStringInCharArray(cols.as_slice(), "A"),
        FinderResult::Index(0)
    );
}

#[test]
fn finder_rejects_unknown_and_long_tokens() {
    let cols = column_ids();
    assert_eq!(
        findStringInCharArray(cols.as_slice(), "a"),
        FinderResult::NotFound
    );
    assert_eq!(
        findStringInCharArray(cols.as_slice(), "AB"),
        FinderResult::NotFound
    );
    assert_eq!(
        findStringInCharArray(cols.as_slice(), ""),
        FinderResult::NotFound
    );
}

#[test]
fn finder_keeps_the_last_match() {
    let table = vec!['x', 'y', 'x', 'z'];
    assert_eq!(
        findStringInCharArray(table.as_slice(), "x"),
        FinderResult::Index(2)
    );
}

#[test]
fn fresh_board_is_all_dead() {
    let g = Grid::new_dead();
    assert_eq!(alive_count(&g), 0);
}

#[test]
fn set_and_get_roundtrip() {
    let mut g = Grid::new_dead();
    g.set(3, 7, CellState::Alive);
    assert_eq!(g.get(3, 7), CellState::Alive);
    assert_eq!(g.get(7, 3), CellState::Dead);
    assert_eq!(alive_count(&g), 1);
}

#[test]
fn neighbor_count_is_clipped_at_the_corner() {
    // A corner cell has only three neighbours; cells outside the board are
    // never counted.
    let mut g = Grid::new_dead();
    g.set(0, 1, CellState::Alive);
    g.set(1, 0, CellState::Alive);
    g.set(1, 1, CellState::Alive);
    // Far-side cells must not wrap around.
    g.set(0, BOARD_SIZE - 1, CellState::Alive);
    g.set(BOARD_SIZE - 1, 0, CellState::Alive);
    assert_eq!(neighbor_count(&g, 0, 0), 3);
}

#[test]
fn neighbor_count_sees_all_eight() {
    let mut g = Grid::new_dead();
    for r in 4..7 {
        for c in 4..7 {
            g.set(r, c, CellState::Alive);
        }
    }
    assert_eq!(neighbor_count(&g, 5, 5), 8);
    assert_eq!(neighbor_count(&g, 4, 4), 3);
    assert_eq!(neighbor_count(&g, 4, 5), 5);
}

#[test]
fn rule_birth_at_exactly_three() {
    let mut g = Grid::new_dead();
    g.set(5, 4, CellState::Alive);
    g.set(5, 6, CellState::Alive);
    g.set(4, 5, CellState::Alive);
    assert_eq!(g.get(5, 5), CellState::Dead);
    let next = next_generation(&g);
    assert_eq!(next.get(5, 5), CellState::Alive);
}

#[test]
fn rule_survival_at_two_and_three() {
    // A 2x2 block is a still life: every live cell has exactly 3 live
    // neighbours.
    let mut g = Grid::new_dead();
    g.set(10, 10, CellState::Alive);
    g.set(10, 11, CellState::Alive);
    g.set(11, 10, CellState::Alive);
    g.set(11, 11, CellState::Alive);
    let next = next_generation(&g);
    assert!(grids_equal(&g, &next));
}

#[test]
fn rule_death_below_two_and_above_three() {
    let mut g = Grid::new_dead();
    // A lone cell (0 neighbours) dies.
    g.set(2, 2, CellState::Alive);
    // A cell with 4 neighbours dies.
    g.set(10, 10, CellState::Alive);
    g.set(9, 9, CellState::Alive);
    g.set(9, 11, CellState::Alive);
    g.set(11, 9, CellState::Alive);
    g.set(11, 11, CellState::Alive);
    assert_eq!(neighbor_count(&g, 10, 10), 4);
    let next = next_generation(&g);
    assert_eq!(next.get(2, 2), CellState::Dead);
    assert_eq!(next.get(10, 10), CellState::Dead);
}

#[test]
fn rule_dead_cell_with_two_neighbors_stays_dead() {
    let mut g = Grid::new_dead();
    g.set(5, 4, CellState::Alive);
    g.set(5, 6, CellState::Alive);
    assert_eq!(neighbor_count(&g, 5, 5), 2);
    let next = next_generation(&g);
    assert_eq!(next.get(5, 5), CellState::Dead);
}

#[test]
fn blinker_oscillates() {
    let mut g = Grid::new_dead();
    g.set(5, 4, CellState::Alive);
    g.set(5, 5, CellState::Alive);
    g.set(5, 6, CellState::Alive);
    let one = next_generation(&g);
    assert_eq!(one.get(4, 5), CellState::Alive);
    assert_eq!(one.get(5, 5), CellState::Alive);
    assert_eq!(one.get(6, 5), CellState::Alive);
    assert_eq!(alive_count(&one), 3);
    let two = next_generation(&one);
    assert!(grids_equal(&g, &two));
}

#[test]
fn next_generation_is_pure() {
    let mut g = Grid::new_dead();
    g.set(5, 4, CellState::Alive);
    g.set(5, 5, CellState::Alive);
    g.set(5, 6, CellState::Alive);
    let first = next_generation(&g);
    let second = next_generation(&g);
    // Two calls on the same input agree.
    assert!(grids_equal(&first, &second));
    // The input board was not touched.
    assert_eq!(g.get(5, 4), CellState::Alive);
    assert_eq!(g.get(5, 5), CellState::Alive);
    assert_eq!(g.get(5, 6), CellState::Alive);
    assert_eq!(alive_count(&g), 3);
}
