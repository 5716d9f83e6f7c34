use universe_engine::cell::{next_cell, Cell};

#[test]
fn cell_bytes() {
    assert_eq!(Cell::Dead.to_byte(), 0);
    assert_eq!(Cell::Alive.to_byte(), 1);
}

#[test]
fn live_cell_dies_of_underpopulation() {
    assert_eq!(next_cell(1, 0), 0);
    assert_eq!(next_cell(1, 1), 0);
}

#[test]
fn live_cell_survives_with_two_or_three() {
    assert_eq!(next_cell(1, 2), 1);
    assert_eq!(next_cell(1, 3), 1);
}

#[test]
fn live_cell_dies_of_overpopulation() {
    for n in 4..=8u8 {
        assert_eq!(next_cell(1, n), 0, "with {} live neighbours", n);
    }
}

#[test]
fn dead_cell_is_born_with_exactly_three() {
    for n in 0..=8u8 {
        let expected = if n == 3 { 1 } else { 0 };
        assert_eq!(next_cell(0, n), expected, "with {} live neighbours", n);
    }
}

#[test]
fn other_bytes_are_left_alone() {
    for n in 0..=8u8 {
        assert_eq!(next_cell(2, n), 2);
        assert_eq!(next_cell(255, n), 255);
    }
}
