//! The two states of a cell and the rule that takes a cell from one
//! generation to the next.

use vstd::prelude::*;

verus! {

/// The state of one cell of the grid.
#[derive(Clone, Copy, Debug, PartialEq, Eq, Structural)]
pub enum Cell {
    Dead,
    Alive,
}

impl Cell {
    /// The byte that stands for this state in a grid: `0` for a dead cell,
    /// `1` for a live one.
    pub open spec fn byte(self) -> u8 {
        match self {
            Cell::Dead => 0,
            Cell::Alive => 1,
        }
    }

    /// The byte that a grid stores for this state.
    pub fn to_byte(self) -> (b: u8)
        ensures
            b == self.byte(),
    {
        match self {
            Cell::Dead => 0,
            Cell::Alive => 1,
        }
    }
}

/// The transition rule: what a cell that holds `cell` holds in the next
/// generation when `live_neighbors` of the eight cells around it are alive.
///
/// A live cell survives with two or three live neighbours and dies
/// otherwise; a dead cell comes alive with exactly three. A byte that is
/// neither `0` nor `1` is left as it is.
pub open spec fn next_state(cell: u8, live_neighbors: nat) -> u8 {
    if cell == 1 {
        if live_neighbors == 2 || live_neighbors == 3 {
            1
        } else {
            0
        }
    } else if cell == 0 && live_neighbors == 3 {
        1
    } else {
        cell
    }
}

/// Applies the transition rule to one cell.
pub fn next_cell(cell: u8, live_neighbors: u8) -> (next: u8)
    ensures
        next == next_state(cell, live_neighbors as nat),
{
    match (cell, live_neighbors) {
        // A live cell with fewer than two live neighbours dies, as if by
        // underpopulation.
        (1, x) if x < 2 => Cell::Dead.to_byte(),
        // A live cell with two or three live neighbours lives on.
        (1, 2) | (1, 3) => Cell::Alive.to_byte(),
        // A live cell with more than three live neighbours dies, as if by
        // overpopulation.
        (1, x) if x > 3 => Cell::Dead.to_byte(),
        // A dead cell with exactly three live neighbours becomes alive, as
        // if by reproduction.
        (0, 3) => Cell::Alive.to_byte(),
        // Every other cell stays as it is.
        (otherwise, _) => otherwise,
    }
}

} // verus!
