use universe_engine::universe::{Universe, UNIVERSE_HEIGHT, UNIVERSE_WIDTH};

fn dead(width: u32, height: u32) -> Universe {
    Universe { width, height, cells: vec![0; (width * height) as usize], owner: [7u8; 32] }
}

fn with_alive(width: u32, height: u32, alive: &[(u32, u32)]) -> Universe {
    let mut universe = dead(width, height);
    universe.set_cells(alive);
    universe
}

#[test]
fn new_universe_is_64_by_64() {
    let universe = Universe::new([3u8; 32]);
    assert_eq!(UNIVERSE_WIDTH, 64);
    assert_eq!(UNIVERSE_HEIGHT, 64);
    assert_eq!(universe.width, 64);
    assert_eq!(universe.height, 64);
    assert_eq!(universe.cells.len(), 4096);
    assert_eq!(universe.owner, [3u8; 32]);
    assert!(universe.is_well_formed());
}

#[test]
fn new_universe_has_the_initial_pattern() {
    let universe = Universe::new([0u8; 32]);
    for (i, cell) in universe.cells.iter().enumerate() {
        let expected = if i % 2 == 0 || i % 7 == 0 { 1 } else { 0 };
        assert_eq!(*cell, expected, "at position {}", i);
    }
    assert_eq!(&universe.cells[..16], &[1, 0, 1, 0, 1, 0, 1, 1, 1, 0, 1, 0, 1, 0, 1, 0]);
    assert_eq!(universe.cells[21], 1);
    assert_eq!(universe.cells[4095], 1);
    assert_eq!(universe.cells[4093], 0);
}

#[test]
fn index_is_row_major() {
    let universe = Universe::new([0u8; 32]);
    assert_eq!(universe.get_index(0, 0), 0);
    assert_eq!(universe.get_index(0, 63), 63);
    assert_eq!(universe.get_index(1, 0), 64);
    assert_eq!(universe.get_index(2, 3), 131);
    assert_eq!(universe.get_index(63, 63), 4095);
    let narrow = dead(3, 5);
    assert_eq!(narrow.get_index(4, 2), 14);
    assert_eq!(narrow.get_index(2, 1), 7);
}

#[test]
fn set_cells_makes_the_addressed_cells_alive() {
    let mut universe = dead(4, 3);
    universe.set_cells(&[(0, 1), (2, 3), (1, 0), (0, 1)]);
    assert_eq!(universe.cells, vec![0, 1, 0, 0, 1, 0, 0, 0, 0, 0, 0, 1]);
    assert_eq!(universe.width, 4);
    assert_eq!(universe.height, 3);
    assert_eq!(universe.owner, [7u8; 32]);
}

#[test]
fn set_cells_with_nothing_changes_nothing() {
    let mut universe = with_alive(4, 3, &[(1, 1)]);
    let before = universe.clone();
    universe.set_cells(&[]);
    assert_eq!(universe, before);
}

#[test]
fn set_cells_keeps_live_cells_alive() {
    let mut universe = with_alive(2, 2, &[(0, 0)]);
    universe.set_cells(&[(0, 0), (1, 1)]);
    assert_eq!(universe.cells, vec![1, 0, 0, 1]);
}

#[test]
fn neighbors_in_the_interior() {
    let universe = with_alive(5, 5, &[(1, 1), (1, 2), (1, 3), (2, 1), (2, 3), (3, 1), (3, 2), (3, 3)]);
    assert_eq!(universe.live_neighbor_count(2, 2), 8);
    assert_eq!(universe.live_neighbor_count(1, 1), 2);
    assert_eq!(universe.live_neighbor_count(1, 2), 4);
    assert_eq!(universe.live_neighbor_count(0, 0), 1);
    assert_eq!(universe.live_neighbor_count(0, 2), 3);
    assert_eq!(universe.live_neighbor_count(4, 4), 1);
}

#[test]
fn a_cell_does_not_count_itself() {
    let universe = with_alive(5, 5, &[(2, 2)]);
    assert_eq!(universe.live_neighbor_count(2, 2), 0);
}

#[test]
fn corner_counts_the_opposite_corner() {
    let universe = with_alive(6, 4, &[(0, 0), (3, 5)]);
    assert_eq!(universe.live_neighbor_count(0, 0), 1);
    assert_eq!(universe.live_neighbor_count(3, 5), 1);
}

#[test]
fn neighbors_wrap_on_every_side() {
    // Each of the eight cells around (0, 0) on the torus, one at a time.
    let around = [(3, 5), (3, 0), (3, 1), (0, 5), (0, 1), (1, 5), (1, 0), (1, 1)];
    for cell in around.iter() {
        let universe = with_alive(6, 4, &[*cell]);
        assert_eq!(universe.live_neighbor_count(0, 0), 1, "with {:?} alive", cell);
    }
    let universe = with_alive(6, 4, &around);
    assert_eq!(universe.live_neighbor_count(0, 0), 8);
    // The same around the last cell.
    let around = [(2, 4), (2, 5), (2, 0), (3, 4), (3, 0), (0, 4), (0, 5), (0, 0)];
    for cell in around.iter() {
        let universe = with_alive(6, 4, &[*cell]);
        assert_eq!(universe.live_neighbor_count(3, 5), 1, "with {:?} alive", cell);
    }
}

#[test]
fn cells_out_of_reach_are_not_counted() {
    let universe = with_alive(6, 4, &[(2, 2), (0, 3), (2, 0), (1, 2)]);
    assert_eq!(universe.live_neighbor_count(0, 0), 0);
}

#[test]
fn on_a_single_cell_grid_the_cell_is_its_own_neighbor() {
    let universe = with_alive(1, 1, &[(0, 0)]);
    assert_eq!(universe.live_neighbor_count(0, 0), 8);
    assert_eq!(dead(1, 1).live_neighbor_count(0, 0), 0);
}

#[test]
fn on_a_grid_two_wide_a_neighbor_counts_on_both_sides() {
    let universe = with_alive(2, 3, &[(1, 1)]);
    assert_eq!(universe.live_neighbor_count(1, 0), 2);
    assert_eq!(universe.live_neighbor_count(0, 0), 2);
    assert_eq!(universe.live_neighbor_count(0, 1), 1);
}

#[test]
fn initial_pattern_neighbor_counts() {
    let universe = Universe::new([0u8; 32]);
    // Around (0, 0): columns 63, 0, 1 of rows 63, 0, 1.
    // Row 63 holds positions 4032 + c, row 1 holds 64 + c.
    // 4095 (multiple of 7), 4032, 4033 (no), 63, 1 (no), 127 (no), 64, 65 (no).
    assert_eq!(universe.live_neighbor_count(0, 0), 4);
    // Around (1, 1), position 65: 0, 1, 2, 64, 66, 128, 129, 130.
    assert_eq!(universe.live_neighbor_count(1, 1), 6);
}

#[test]
fn well_formedness_is_checked() {
    assert!(dead(3, 2).is_well_formed());
    assert!(with_alive(3, 2, &[(1, 2)]).is_well_formed());
    let mut universe = dead(3, 2);
    universe.cells[4] = 2;
    assert!(!universe.is_well_formed());
    let mut universe = dead(3, 2);
    universe.cells.pop();
    assert!(!universe.is_well_formed());
    let mut universe = dead(3, 2);
    universe.cells.push(0);
    assert!(!universe.is_well_formed());
    let empty = Universe { width: 0, height: 5, cells: vec![], owner: [0u8; 32] };
    assert!(!empty.is_well_formed());
    let empty = Universe { width: 5, height: 0, cells: vec![], owner: [0u8; 32] };
    assert!(!empty.is_well_formed());
}

#[test]
fn neighbor_counts_add_up_to_eight_times_the_live_cells() {
    for universe in [
        Universe::new([0u8; 32]),
        with_alive(5, 4, &[(0, 0), (1, 3), (3, 4), (2, 2), (2, 3)]),
        with_alive(2, 3, &[(1, 1), (0, 0)]),
        with_alive(1, 1, &[(0, 0)]),
        dead(3, 3),
    ] {
        let live: u32 = universe.cells.iter().map(|cell| *cell as u32).sum();
        let mut counted: u32 = 0;
        for row in 0..universe.height {
            for col in 0..universe.width {
                counted += universe.live_neighbor_count(row, col) as u32;
            }
        }
        assert_eq!(counted, 8 * live);
    }
}
