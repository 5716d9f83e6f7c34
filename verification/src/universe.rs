//! The universe: a grid of cells on a torus, with the account that owns it.

use crate::cell::Cell;
use crate::hashing::{hash_of_record, UniverseId};
use crate::model::{initial_cells, lemma_wrap_around, UniverseModel};
use vstd::prelude::*;

verus! {

/// The identity of an account: its 32 bytes.
pub type AccountId = [u8; 32];

/// The width of every universe that the engine creates.
pub const UNIVERSE_WIDTH: u32 = 64;

/// The height of every universe that the engine creates.
pub const UNIVERSE_HEIGHT: u32 = 64;

/// One simulation: the dimensions of its grid, the cells in row-major order
/// (`0` for a dead cell, `1` for a live one) and the account that created it.
#[derive(Debug, PartialEq, Eq)]
pub struct Universe {
    pub width: u32,
    pub height: u32,
    pub cells: Vec<u8>,
    pub owner: AccountId,
}

impl View for Universe {
    type V = UniverseModel;

    open spec fn view(&self) -> UniverseModel {
        UniverseModel {
            width: self.width as nat,
            height: self.height as nat,
            cells: self.cells@,
            owner: self.owner@,
        }
    }
}

impl Clone for Universe {
    fn clone(&self) -> (copy: Universe)
        ensures
            copy@ == self@,
    {
        let cells = self.cells.clone();
        assert(cells@ =~= self.cells@);
        Universe { width: self.width, height: self.height, cells, owner: self.owner }
    }
}

impl Universe {
    /// The universe that `owner` gets on creation: 64 by 64 cells, of which
    /// those at a position that is a multiple of 2 or of 7 are alive.
    pub fn new(owner: AccountId) -> (universe: Universe)
        ensures
            universe@ == UniverseModel::initial(owner@),
            universe@.wf(),
    {
        let width = UNIVERSE_WIDTH;
        let height = UNIVERSE_HEIGHT;
        let places: u32 = width * height;
        let mut cells: Vec<u8> = Vec::with_capacity(places as usize);
        let mut i: u32 = 0;
        while i < places
            invariant
                i <= places,
                places == UNIVERSE_WIDTH * UNIVERSE_HEIGHT,
                cells@.len() == i,
                forall|j: int| 0 <= j < i ==> #[trigger] cells@[j] == initial_cells()[j],
            decreases places - i,
        {
            let cell = if i % 2 == 0 || i % 7 == 0 {
                Cell::Alive
            } else {
                Cell::Dead
            };
            cells.push(cell.to_byte());
            i += 1;
        }
        assert(cells@ =~= initial_cells());
        Universe { width, height, cells, owner }
    }

    /// The identifier of the universe: the hash of its width, height, cells
    /// and owner. The record that is hashed holds the number of cells as a
    /// `u32`, so the universe may not have more.
    pub fn id(&self) -> (id: UniverseId)
        requires
            self.cells@.len() <= u32::MAX,
        ensures
            id@ == self@.id(),
    {
        hash_of_record(self.width, self.height, &self.cells, &self.owner)
    }

    /// Whether the universe meets its invariant.
    pub fn is_well_formed(&self) -> (ok: bool)
        ensures
            ok == self@.wf(),
    {
        if self.width == 0 || self.height == 0 {
            return false;
        }
        assert(self.width * self.height <= u64::MAX) by (nonlinear_arith)
            requires
                self.width <= u32::MAX,
                self.height <= u32::MAX,
        ;
        let places: u64 = (self.width as u64) * (self.height as u64);
        if self.cells.len() as u64 != places {
            return false;
        }
        let mut i: usize = 0;
        while i < self.cells.len()
            invariant
                i <= self.cells.len(),
                forall|j: int| 0 <= j < i ==> #[trigger] self.cells@[j] <= 1,
            decreases self.cells.len() - i,
        {
            if self.cells[i] > 1 {
                return false;
            }
            i += 1;
        }
        true
    }

    /// The position in `cells` of the cell at (`row`, `column`).
    pub fn get_index(&self, row: u32, column: u32) -> (idx: usize)
        requires
            self@.wf(),
            row < self.height,
            column < self.width,
        ensures
            idx == self@.index(row as nat, column as nat),
            idx < self.cells.len(),
    {
        proof {
            self@.lemma_index(row as nat, column as nat);
            assert(self.cells@.len() == self.cells.len());
        }
        (row as usize) * (self.width as usize) + (column as usize)
    }

    /// Makes each cell of `cells`, given by its row and column, alive.
    pub fn set_cells(&mut self, cells: &[(u32, u32)])
        requires
            old(self)@.wf(),
            forall|k: int|
                0 <= k < cells@.len() ==> (#[trigger] cells@[k]).0 < old(self).height
                    && cells@[k].1 < old(self).width,
        ensures
            final(self)@ == old(self)@.with_alive(cells@),
            final(self)@.wf(),
    {
        let mut k: usize = 0;
        proof {
            assert(self@.cells =~= self@.with_alive(cells@.take(0)).cells);
        }
        while k < cells.len()
            invariant
                k <= cells.len(),
                self@.wf(),
                self.width == old(self).width,
                self.height == old(self).height,
                forall|j: int|
                    0 <= j < cells@.len() ==> (#[trigger] cells@[j]).0 < self.height
                        && cells@[j].1 < self.width,
                self@ == old(self)@.with_alive(cells@.take(k as int)),
            decreases cells.len() - k,
        {
            let (row, col) = cells[k];
            let idx = self.get_index(row, col);
            self.cells.set(idx, Cell::Alive.to_byte());
            proof {
                let start = old(self)@;
                let done = cells@.take(k as int);
                let more = cells@.take(k + 1);
                assert(more[k as int] == cells@[k as int]);
                assert forall|i: int| 0 <= i < self.cells@.len() implies self.cells@[i]
                    == start.with_alive(more).cells[i] by {
                    if i != idx && start.addresses(done, i) {
                        let j = choose|j: int|
                            0 <= j < done.len() && start.index(
                                (#[trigger] done[j]).0 as nat,
                                done[j].1 as nat,
                            ) == i;
                        assert(more[j] == done[j]);
                    } else if i != idx && start.addresses(more, i) {
                        let j = choose|j: int|
                            0 <= j < more.len() && start.index(
                                (#[trigger] more[j]).0 as nat,
                                more[j].1 as nat,
                            ) == i;
                        assert(done[j] == more[j]);
                    }
                }
                assert(self@.cells =~= start.with_alive(more).cells);
            }
            k += 1;
        }
        proof {
            assert(cells@.take(cells@.len() as int) =~= cells@);
        }
    }

    /// How many of the eight cells around (`row`, `column`) are alive. The
    /// grid has no edge: the row above the first is the last, the column
    /// left of the first is the last, and the other way round.
    pub fn live_neighbor_count(&self, row: u32, column: u32) -> (count: u8)
        requires
            self@.wf(),
            row < self.height,
            column < self.width,
        ensures
            count == self@.live_neighbors(row as nat, column as nat),
            count <= 8,
    {
        let mut count: u8 = 0;

        let north = if row == 0 {
            self.height - 1
        } else {
            row - 1
        };

        let south = if row == self.height - 1 {
            0
        } else {
            row + 1
        };

        let west = if column == 0 {
            self.width - 1
        } else {
            column - 1
        };

        let east = if column == self.width - 1 {
            0
        } else {
            column + 1
        };

        proof {
            lemma_wrap_around(row as nat, column as nat, self@.height, self@.width);
        }

        let nw = self.get_index(north, west);
        count += self.cells[nw];

        let n = self.get_index(north, column);
        count += self.cells[n];

        let ne = self.get_index(north, east);
        count += self.cells[ne];

        let w = self.get_index(row, west);
        count += self.cells[w];

        let e = self.get_index(row, east);
        count += self.cells[e];

        let sw = self.get_index(south, west);
        count += self.cells[sw];

        let s = self.get_index(south, column);
        count += self.cells[s];

        let se = self.get_index(south, east);
        count += self.cells[se];

        count
    }
}

} // verus!
