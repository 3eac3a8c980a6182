use game_of_life::grid::{next_state, GameOfLife};

fn live_cells(grid: &GameOfLife) -> Vec<(i32, i32)> {
    let mut cells = Vec::new();
    for y in 0..grid.height() {
        for x in 0..grid.width() {
            if grid.get_cell(x, y) {
                cells.push((x, y));
            }
        }
    }
    cells
}

fn full_grid(width: i32, height: i32) -> GameOfLife {
    let mut grid = GameOfLife::new(width, height);
    for y in 0..height {
        for x in 0..width {
            grid.set_cell(x, y, true);
        }
    }
    grid
}

#[test]
fn new_grid_has_its_dimensions_and_no_live_cell() {
    let grid = GameOfLife::new(7, 3);
    assert_eq!(grid.width(), 7);
    assert_eq!(grid.height(), 3);
    assert_eq!(live_cells(&grid), vec![]);
}

#[test]
fn index_is_row_times_width_plus_column() {
    let grid = GameOfLife::new(6, 4);
    assert_eq!(grid.get_index(0, 0), 0);
    assert_eq!(grid.get_index(5, 0), 5);
    assert_eq!(grid.get_index(0, 1), 6);
    assert_eq!(grid.get_index(2, 3), 20);
    assert_eq!(grid.get_index(5, 3), 23);
}

#[test]
fn set_cell_changes_one_cell_only() {
    let mut grid = GameOfLife::new(5, 4);
    grid.set_cell(3, 2, true);
    assert!(grid.get_cell(3, 2));
    assert_eq!(live_cells(&grid), vec![(3, 2)]);
    grid.set_cell(0, 0, true);
    grid.set_cell(4, 3, true);
    assert_eq!(live_cells(&grid), vec![(0, 0), (3, 2), (4, 3)]);
    grid.set_cell(3, 2, false);
    assert!(!grid.get_cell(3, 2));
    assert_eq!(live_cells(&grid), vec![(0, 0), (4, 3)]);
}

#[test]
fn set_cell_twice_is_set_cell_once() {
    let mut grid = GameOfLife::new(3, 3);
    grid.set_cell(1, 1, true);
    grid.set_cell(1, 1, true);
    assert_eq!(live_cells(&grid), vec![(1, 1)]);
    grid.set_cell(2, 2, false);
    assert_eq!(live_cells(&grid), vec![(1, 1)]);
}

#[test]
fn corner_of_a_full_grid_has_three_live_neighbours() {
    let grid = full_grid(5, 5);
    assert_eq!(grid.live_neighbours(0, 0), 3);
    assert_eq!(grid.live_neighbours(4, 0), 3);
    assert_eq!(grid.live_neighbours(0, 4), 3);
    assert_eq!(grid.live_neighbours(4, 4), 3);
}

#[test]
fn edge_and_interior_of_a_full_grid() {
    let grid = full_grid(5, 4);
    assert_eq!(grid.live_neighbours(2, 0), 5);
    assert_eq!(grid.live_neighbours(0, 2), 5);
    assert_eq!(grid.live_neighbours(4, 1), 5);
    assert_eq!(grid.live_neighbours(2, 3), 5);
    assert_eq!(grid.live_neighbours(2, 2), 8);
    assert_eq!(grid.live_neighbours(1, 1), 8);
}

#[test]
fn narrow_full_grids_have_fewer_neighbours_at_the_corner() {
    assert_eq!(full_grid(1, 1).live_neighbours(0, 0), 0);
    assert_eq!(full_grid(1, 6).live_neighbours(0, 0), 1);
    assert_eq!(full_grid(6, 1).live_neighbours(0, 0), 1);
    assert_eq!(full_grid(1, 6).live_neighbours(0, 3), 2);
    assert_eq!(full_grid(2, 2).live_neighbours(0, 0), 3);
}

#[test]
fn a_cell_is_not_its_own_neighbour() {
    let mut grid = GameOfLife::new(3, 3);
    grid.set_cell(1, 1, true);
    assert_eq!(grid.live_neighbours(1, 1), 0);
    assert_eq!(grid.live_neighbours(0, 0), 1);
    assert_eq!(grid.live_neighbours(2, 1), 1);
}

#[test]
fn neighbours_are_counted_around_positions_off_the_grid() {
    let mut grid = GameOfLife::new(3, 3);
    grid.set_cell(0, 0, true);
    grid.set_cell(0, 1, true);
    assert_eq!(grid.live_neighbours(-1, 0), 2);
    assert_eq!(grid.live_neighbours(-1, -1), 1);
    assert_eq!(grid.live_neighbours(-2, 0), 0);
    assert_eq!(grid.live_neighbours(3, 3), 0);
    assert_eq!(grid.live_neighbours(1000, -1000), 0);
}

#[test]
fn neighbour_count_stays_between_zero_and_eight() {
    let mut grid = full_grid(6, 5);
    grid.set_cell(2, 2, false);
    grid.set_cell(5, 4, false);
    for _ in 0..4 {
        for y in 0..grid.height() {
            for x in 0..grid.width() {
                let count = grid.live_neighbours(x, y);
                assert!(0 <= count && count <= 8);
            }
        }
        grid.update();
    }
}

#[test]
fn rule_table() {
    for count in 0..=8 {
        assert_eq!(next_state(true, count), count == 2 || count == 3);
        assert_eq!(next_state(false, count), count == 3);
    }
    assert!(!next_state(true, -1));
    assert!(!next_state(false, 9));
}

#[test]
fn lone_cell_dies() {
    let mut grid = GameOfLife::new(1, 1);
    grid.set_cell(0, 0, true);
    grid.update();
    assert_eq!(live_cells(&grid), vec![]);
}

#[test]
fn three_in_a_corner_give_birth_to_the_fourth() {
    let mut grid = GameOfLife::new(3, 3);
    grid.set_cell(0, 0, true);
    grid.set_cell(1, 0, true);
    grid.set_cell(0, 1, true);
    grid.update();
    assert_eq!(live_cells(&grid), vec![(0, 0), (1, 0), (0, 1), (1, 1)]);
}

#[test]
fn full_grid_keeps_only_its_corners() {
    let mut grid = full_grid(4, 4);
    grid.update();
    assert_eq!(live_cells(&grid), vec![(0, 0), (3, 0), (0, 3), (3, 3)]);
    grid.update();
    assert_eq!(live_cells(&grid), vec![]);
}

#[test]
fn update_keeps_the_dimensions() {
    let mut grid = full_grid(9, 2);
    for _ in 0..5 {
        grid.update();
        assert_eq!(grid.width(), 9);
        assert_eq!(grid.height(), 2);
        assert_eq!(grid.get_index(8, 1), 17);
        let _ = grid.get_cell(8, 1);
    }
}

#[test]
fn equal_grids_update_to_equal_grids() {
    let mut a = GameOfLife::new(8, 8);
    let mut b = GameOfLife::new(8, 8);
    // `b` has a history, so its second buffer differs from that of `a`.
    b.set_cell(4, 4, true);
    b.set_cell(5, 4, true);
    b.set_cell(6, 4, true);
    b.update();
    for y in 0..8 {
        for x in 0..8 {
            b.set_cell(x, y, false);
        }
    }
    for (x, y) in [(1, 0), (2, 1), (0, 2), (1, 2), (2, 2)] {
        a.set_cell(x, y, true);
        b.set_cell(x, y, true);
    }
    for _ in 0..12 {
        a.update();
        b.update();
        assert_eq!(live_cells(&a), live_cells(&b));
    }
}

#[test]
fn blinker_returns_after_two_updates() {
    let mut grid = GameOfLife::new(5, 5);
    grid.set_cell(1, 2, true);
    grid.set_cell(2, 2, true);
    grid.set_cell(3, 2, true);
    for _ in 0..3 {
        grid.update();
        assert_eq!(live_cells(&grid), vec![(2, 1), (2, 2), (2, 3)]);
        grid.update();
        assert_eq!(live_cells(&grid), vec![(1, 2), (2, 2), (3, 2)]);
    }
}

#[test]
fn writing_after_an_update_does_not_reach_the_next_update() {
    let mut grid = GameOfLife::new(5, 5);
    grid.set_cell(1, 2, true);
    grid.set_cell(2, 2, true);
    grid.set_cell(3, 2, true);
    grid.update();
    // The buffer that held the horizontal bar is now the second buffer.
    // Clearing the current generation must leave nothing of the bar behind.
    for y in 0..5 {
        for x in 0..5 {
            grid.set_cell(x, y, false);
        }
    }
    assert_eq!(live_cells(&grid), vec![]);
    grid.update();
    assert_eq!(live_cells(&grid), vec![]);
    grid.update();
    assert_eq!(live_cells(&grid), vec![]);
}
