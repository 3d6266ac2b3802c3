use game_of_life::cell::Cell;
use game_of_life::universe::Universe;

/// A `width` by `height` universe with every cell `Dead`.
fn empty_universe(width: u32, height: u32) -> Universe {
    let mut u = Universe::new();
    u.set_width(width);
    u.set_height(height);
    u
}

fn cell_at(u: &Universe, row: u32, col: u32) -> Cell {
    u.get_cells()[(row * u.width() + col) as usize]
}

#[test]
fn new_universe_is_128_by_128_with_seed_pattern() {
    let u = Universe::new();
    assert_eq!(u.width(), 128);
    assert_eq!(u.height(), 128);
    let cells = u.get_cells();
    assert_eq!(cells.len(), 128 * 128);
    for (i, &cell) in cells.iter().enumerate() {
        let expected = if i % 2 == 0 || i % 7 == 0 {
            Cell::Alive
        } else {
            Cell::Dead
        };
        assert_eq!(cell, expected, "seed pattern mismatch at index {}", i);
    }
}

#[test]
fn get_index_is_row_major() {
    let u = Universe::new();
    assert_eq!(u.get_index(0, 0), 0);
    assert_eq!(u.get_index(0, 5), 5);
    assert_eq!(u.get_index(3, 5), 3 * 128 + 5);
    assert_eq!(u.get_index(127, 127), 128 * 128 - 1);
}

#[test]
fn all_dead_grid_has_zero_live_neighbors_everywhere() {
    let u = empty_universe(5, 5);
    for row in 0..5 {
        for col in 0..5 {
            assert_eq!(u.live_neighbor_count(row, col), 0);
        }
    }
}

#[test]
fn all_alive_grid_has_eight_live_neighbors_everywhere() {
    let mut u = empty_universe(4, 4);
    let mut pairs = Vec::new();
    for row in 0..4 {
        for col in 0..4 {
            pairs.push((row, col));
        }
    }
    u.set_cells(&pairs);
    for row in 0..4 {
        for col in 0..4 {
            assert_eq!(
                u.live_neighbor_count(row, col),
                8,
                "corner/edge wrap failed at ({}, {})",
                row,
                col
            );
        }
    }
}

#[test]
fn lone_cell_on_1_by_1_torus_is_its_own_eight_neighbors() {
    let mut u = empty_universe(1, 1);
    u.set_cells(&[(0, 0)]);
    assert_eq!(u.live_neighbor_count(0, 0), 8);
}

#[test]
fn block_still_life_is_unchanged_by_tick() {
    let mut u = empty_universe(6, 6);
    u.set_cells(&[(2, 2), (2, 3), (3, 2), (3, 3)]);
    let before: Vec<Cell> = u.get_cells().to_vec();
    u.tick();
    assert_eq!(u.get_cells(), before.as_slice());
}

#[test]
fn blinker_oscillates_with_period_two() {
    let mut u = empty_universe(5, 5);
    u.set_cells(&[(2, 1), (2, 2), (2, 3)]);
    let horizontal: Vec<Cell> = u.get_cells().to_vec();

    u.tick();
    let mut vertical = empty_universe(5, 5);
    vertical.set_cells(&[(1, 2), (2, 2), (3, 2)]);
    assert_eq!(u.get_cells(), vertical.get_cells());

    u.tick();
    assert_eq!(u.get_cells(), horizontal.as_slice());
}

#[test]
fn lone_center_cell_on_3_by_3_dies_and_nothing_is_born() {
    let mut u = empty_universe(3, 3);
    u.set_cells(&[(1, 1)]);
    u.tick();
    for &cell in u.get_cells() {
        assert_eq!(cell, Cell::Dead);
    }
}

#[test]
fn set_width_wipes_the_grid_to_dead() {
    let mut u = Universe::new();
    assert_eq!(cell_at(&u, 0, 0), Cell::Alive);
    u.set_width(10);
    assert_eq!(u.width(), 10);
    assert_eq!(u.height(), 128);
    assert_eq!(u.get_cells().len(), 10 * 128);
    for &cell in u.get_cells() {
        assert_eq!(cell, Cell::Dead);
    }
}

#[test]
fn set_height_wipes_the_grid_to_dead() {
    let mut u = Universe::new();
    u.set_height(7);
    assert_eq!(u.width(), 128);
    assert_eq!(u.height(), 7);
    assert_eq!(u.get_cells().len(), 128 * 7);
    for &cell in u.get_cells() {
        assert_eq!(cell, Cell::Dead);
    }
}

#[test]
fn toggle_cell_twice_restores_the_original_state() {
    let mut u = Universe::new();
    let originally_alive = cell_at(&u, 0, 0);
    let originally_dead = cell_at(&u, 0, 1);
    assert_eq!(originally_alive, Cell::Alive);
    assert_eq!(originally_dead, Cell::Dead);

    u.toggle_cell(0, 0);
    u.toggle_cell(0, 0);
    assert_eq!(cell_at(&u, 0, 0), originally_alive);

    u.toggle_cell(0, 1);
    u.toggle_cell(0, 1);
    assert_eq!(cell_at(&u, 0, 1), originally_dead);
}

#[test]
fn toggle_cell_changes_exactly_one_cell() {
    let mut u = empty_universe(4, 4);
    u.toggle_cell(2, 1);
    for row in 0..4 {
        for col in 0..4 {
            let expected = if (row, col) == (2, 1) {
                Cell::Alive
            } else {
                Cell::Dead
            };
            assert_eq!(cell_at(&u, row, col), expected);
        }
    }
}

#[test]
fn set_cells_sets_exactly_the_listed_cells_alive() {
    let mut u = empty_universe(4, 4);
    u.toggle_cell(0, 0);
    u.set_cells(&[(1, 1), (2, 3)]);
    for row in 0..4 {
        for col in 0..4 {
            let expected = if (row, col) == (1, 1) || (row, col) == (2, 3) || (row, col) == (0, 0) {
                Cell::Alive
            } else {
                Cell::Dead
            };
            assert_eq!(cell_at(&u, row, col), expected, "at ({}, {})", row, col);
        }
    }
}

#[test]
fn cells_and_get_cells_expose_the_same_buffer() {
    let u = Universe::new();
    assert_eq!(u.cells(), u.get_cells());
    assert_eq!(u.cells().len(), (u.width() * u.height()) as usize);
}

#[test]
fn render_draws_one_glyph_per_cell_and_newline_per_row() {
    let mut u = empty_universe(2, 2);
    u.set_cells(&[(0, 1)]);
    assert_eq!(u.render(), "◻◼\n◻◻\n");
}

#[test]
fn render_of_dead_3_by_2_grid() {
    let u = empty_universe(3, 2);
    assert_eq!(u.render(), "◻◻◻\n◻◻◻\n");
}
