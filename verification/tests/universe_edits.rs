use game_of_life::universe::{Cell, Universe};

#[test]
fn toggle_cell_flips_one_cell_only() {
    let mut universe = Universe::new(4, 3);
    let before = universe.get_cells().to_vec();
    universe.toggle_cell(1, 2);
    let after = universe.get_cells().to_vec();
    assert_eq!(before[6], Cell::Alive);
    assert_eq!(after[6], Cell::Dead);
    for i in 0..12 {
        if i != 6 {
            assert_eq!(after[i], before[i], "index {i}");
        }
    }
}

#[test]
fn toggle_cell_twice_restores_the_board() {
    for (row, column) in [(0u32, 0u32), (0, 4), (3, 0), (3, 4), (2, 3)] {
        let mut universe = Universe::new(5, 4);
        let before = universe.get_cells().to_vec();
        universe.toggle_cell(row, column);
        assert_ne!(universe.get_cells(), &before[..]);
        universe.toggle_cell(row, column);
        assert_eq!(universe.get_cells(), &before[..]);
    }
}

#[test]
fn toggle_cell_addresses_rows_before_columns() {
    let mut universe = Universe::new(3, 2);
    universe.set_height(2);
    universe.toggle_cell(1, 0);
    let expected = [Cell::Dead, Cell::Dead, Cell::Dead, Cell::Alive, Cell::Dead, Cell::Dead];
    assert_eq!(universe.get_cells(), &expected[..]);
}

#[test]
fn set_cells_alive_revives_the_listed_cells() {
    let mut universe = Universe::new(3, 3);
    universe.set_width(3);
    universe.set_cells_alive(&[(0, 1), (2, 2), (0, 1)]);
    let cells = universe.get_cells();
    for (i, cell) in cells.iter().enumerate() {
        let expected = if i == 1 || i == 8 { Cell::Alive } else { Cell::Dead };
        assert_eq!(*cell, expected, "index {i}");
    }
}

#[test]
fn set_cells_alive_keeps_live_cells_alive() {
    let mut universe = Universe::new(3, 3);
    let before = universe.get_cells().to_vec();
    universe.set_cells_alive(&[(0, 0), (0, 1)]);
    let after = universe.get_cells();
    assert_eq!(after[0], Cell::Alive);
    assert_eq!(after[1], Cell::Alive);
    assert_eq!(&after[2..], &before[2..]);
}

#[test]
fn set_cells_alive_with_nothing_listed_changes_nothing() {
    let mut universe = Universe::new(3, 3);
    let before = universe.get_cells().to_vec();
    universe.set_cells_alive(&[]);
    assert_eq!(universe.get_cells(), &before[..]);
}

#[test]
fn set_width_clears_the_board() {
    let mut universe = Universe::new(4, 3);
    universe.set_width(6);
    assert_eq!(universe.width(), 6);
    assert_eq!(universe.height(), 3);
    assert_eq!(universe.get_cells(), &[Cell::Dead; 18][..]);
}

#[test]
fn set_height_clears_the_board() {
    let mut universe = Universe::new(4, 3);
    universe.set_height(2);
    assert_eq!(universe.width(), 4);
    assert_eq!(universe.height(), 2);
    assert_eq!(universe.get_cells(), &[Cell::Dead; 8][..]);
}

#[test]
fn resizing_to_nothing_empties_the_board() {
    let mut universe = Universe::new(4, 3);
    universe.set_width(0);
    assert!(universe.get_cells().is_empty());
    universe.tick();
    assert!(universe.get_cells().is_empty());
    universe.set_width(2);
    universe.set_height(0);
    assert!(universe.get_cells().is_empty());
    assert_eq!(universe.render(), "");
}

#[test]
fn buffer_length_is_width_times_height_after_every_operation() {
    let mut universe = Universe::new(7, 5);
    assert_eq!(universe.get_cells().len(), 35);
    universe.tick();
    assert_eq!(universe.get_cells().len(), 35);
    universe.toggle_cell(4, 6);
    assert_eq!(universe.get_cells().len(), 35);
    universe.set_cells_alive(&[(0, 0), (4, 6)]);
    assert_eq!(universe.get_cells().len(), 35);
    universe.set_width(3);
    assert_eq!(universe.get_cells().len(), 15);
    universe.tick();
    assert_eq!(universe.get_cells().len(), 15);
    universe.set_height(9);
    assert_eq!(universe.get_cells().len(), 27);
    assert_eq!(universe.cells().len(), 27);
    universe.tick();
    assert_eq!(
        universe.get_cells().len(),
        (universe.width() * universe.height()) as usize
    );
}

#[test]
fn cells_gives_one_byte_per_cell() {
    let universe = Universe::new(4, 2);
    assert_eq!(universe.cells(), vec![1u8, 0, 1, 0, 1, 0, 1, 1]);
}

#[test]
fn cells_follows_the_board() {
    let mut universe = Universe::new(2, 2);
    universe.set_width(2);
    assert_eq!(universe.cells(), vec![0u8, 0, 0, 0]);
    universe.toggle_cell(1, 1);
    assert_eq!(universe.cells(), vec![0u8, 0, 0, 1]);
}

#[test]
fn render_draws_one_line_per_row() {
    let mut universe = Universe::new(2, 2);
    universe.set_width(2);
    universe.set_cells_alive(&[(0, 1)]);
    assert_eq!(universe.render(), "\u{25FB}\u{25FC}\n\u{25FB}\u{25FB}\n");
}

#[test]
fn render_of_the_seeded_board() {
    let universe = Universe::new(3, 3);
    assert_eq!(
        universe.render(),
        "\u{25FC}\u{25FB}\u{25FC}\n\u{25FB}\u{25FC}\u{25FB}\n\u{25FC}\u{25FC}\u{25FC}\n"
    );
}

#[test]
fn render_of_a_board_without_columns_is_one_line_feed_per_row() {
    let universe = Universe::new(0, 3);
    assert_eq!(universe.render(), "\n\n\n");
}

#[test]
fn render_of_a_board_without_rows_is_empty() {
    let universe = Universe::new(3, 0);
    assert_eq!(universe.render(), "");
}
