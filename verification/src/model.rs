//! The mathematical model of a universe: what its cells are, which cells
//! lie around a cell on the torus, and what a tick makes of them.

use crate::cell::next_state;
use crate::hashing::content_hash;
use crate::universe::{UNIVERSE_HEIGHT, UNIVERSE_WIDTH};
use vstd::arithmetic::div_mod::lemma_fundamental_div_mod_converse;
use vstd::prelude::*;

verus! {

/// The model of a universe: the dimensions of the grid, its cells in
/// row-major order, and the bytes of the owner's identity.
pub struct UniverseModel {
    pub width: nat,
    pub height: nat,
    pub cells: Seq<u8>,
    pub owner: Seq<u8>,
}

/// The coordinate in `0..n` that `i` falls on when the axis is closed into a
/// ring of `n` places.
pub open spec fn wrap(i: int, n: nat) -> nat {
    (i % n as int) as nat
}

/// The cells of a new universe: the cell at position `i` is alive exactly
/// when `i` is a multiple of 2 or of 7.
pub open spec fn initial_cells() -> Seq<u8> {
    Seq::new(
        (UNIVERSE_WIDTH * UNIVERSE_HEIGHT) as nat,
        |i: int|
            if i % 2 == 0 || i % 7 == 0 {
                1u8
            } else {
                0u8
            },
    )
}

impl UniverseModel {
    /// The invariant of a universe: the grid is not degenerate, it holds one
    /// cell for each place, and every cell is dead or alive.
    pub open spec fn wf(self) -> bool {
        &&& self.width > 0
        &&& self.height > 0
        &&& self.cells.len() == self.width * self.height
        &&& forall|i: int| 0 <= i < self.cells.len() ==> #[trigger] self.cells[i] <= 1
    }

    /// The universe that `owner` gets on creation.
    pub open spec fn initial(owner: Seq<u8>) -> UniverseModel {
        UniverseModel {
            width: UNIVERSE_WIDTH as nat,
            height: UNIVERSE_HEIGHT as nat,
            cells: initial_cells(),
            owner,
        }
    }

    /// The identifier of the universe: the hash of its whole content.
    pub open spec fn id(self) -> Seq<u8> {
        content_hash(self.width, self.height, self.cells, self.owner)
    }

    /// The position of the cell at (`row`, `col`) in `cells`.
    pub open spec fn index(self, row: nat, col: nat) -> nat {
        row * self.width + col
    }

    /// The cell at (`row`, `col`), for coordinates inside the grid.
    pub open spec fn at(self, row: nat, col: nat) -> u8 {
        self.cells[self.index(row, col) as int]
    }

    /// The cell at (`row`, `col`) on the torus: coordinates that leave the
    /// grid on one side come back in on the opposite side.
    pub open spec fn torus(self, row: int, col: int) -> u8 {
        self.at(wrap(row, self.height), wrap(col, self.width))
    }

    /// How many of the eight cells around (`row`, `col`) are alive, the grid
    /// taken as a torus.
    pub open spec fn live_neighbors(self, row: nat, col: nat) -> nat {
        let r = row as int;
        let c = col as int;
        (self.torus(r - 1, c - 1) + self.torus(r - 1, c) + self.torus(r - 1, c + 1)
            + self.torus(r, c - 1) + self.torus(r, c + 1)
            + self.torus(r + 1, c - 1) + self.torus(r + 1, c) + self.torus(r + 1, c + 1)) as nat
    }

    /// What the cell at (`row`, `col`) holds in the next generation.
    pub open spec fn next_at(self, row: nat, col: nat) -> u8 {
        next_state(self.at(row, col), self.live_neighbors(row, col))
    }

    /// The cells of the next generation, each computed from this one.
    pub open spec fn next_generation(self) -> Seq<u8> {
        Seq::new(
            self.cells.len(),
            |i: int| self.next_at((i / self.width as int) as nat, (i % self.width as int) as nat),
        )
    }

    /// The universe one generation later: the same grid and owner, with the
    /// cells of the next generation.
    pub open spec fn tick(self) -> UniverseModel {
        UniverseModel { cells: self.next_generation(), ..self }
    }

    /// Whether one of `coords`, each a row and a column, is the cell at
    /// position `i`.
    pub open spec fn addresses(self, coords: Seq<(u32, u32)>, i: int) -> bool {
        exists|k: int|
            0 <= k < coords.len() && self.index(
                (#[trigger] coords[k]).0 as nat,
                coords[k].1 as nat,
            ) == i
    }

    /// The universe with each cell of `coords` made alive and every other
    /// cell as it was.
    pub open spec fn with_alive(self, coords: Seq<(u32, u32)>) -> UniverseModel {
        UniverseModel {
            cells: Seq::new(
                self.cells.len(),
                |i: int|
                    if self.addresses(coords, i) {
                        1u8
                    } else {
                        self.cells[i]
                    },
            ),
            ..self
        }
    }

    /// A cell inside the grid has its position inside `cells`, and the
    /// position gives the row and the column back.
    pub proof fn lemma_index(self, row: nat, col: nat)
        requires
            self.width > 0,
            row < self.height,
            col < self.width,
        ensures
            self.index(row, col) < self.width * self.height,
            self.index(row, col) / self.width == row,
            self.index(row, col) % self.width == col,
    {
        let w = self.width as int;
        let h = self.height as int;
        let r = row as int;
        assert(r * w + w <= h * w) by (nonlinear_arith)
            requires
                r + 1 <= h,
                w > 0,
        ;
        assert(h * w == w * h) by (nonlinear_arith);
        lemma_fundamental_div_mod_converse(self.index(row, col) as int, w, r, col as int);
    }

    /// Every cell inside the grid has its position inside `cells`.
    pub proof fn lemma_cells_in_grid(self)
        requires
            self.width > 0,
        ensures
            forall|row: nat, col: nat|
                row < self.height && col < self.width ==> #[trigger] self.index(row, col)
                    < self.width * self.height,
    {
        assert forall|row: nat, col: nat| row < self.height && col < self.width implies #[trigger]
            self.index(row, col) < self.width * self.height by {
            self.lemma_index(row, col);
        }
    }

    /// Each position in `cells` is the position of one cell inside the grid.
    pub proof fn lemma_position(self, i: int)
        requires
            self.width > 0,
            0 <= i < self.width * self.height,
        ensures
            0 <= (i / self.width as int) < self.height,
            0 <= (i % self.width as int) < self.width,
            self.index((i / self.width as int) as nat, (i % self.width as int) as nat) == i,
    {
        let w = self.width as int;
        let h = self.height as int;
        let q = i / w;
        let r = i % w;
        assert(i == q * w + r && 0 <= r < w) by (nonlinear_arith)
            requires
                q == i / w,
                r == i % w,
                w > 0,
        ;
        assert(0 <= q < h) by (nonlinear_arith)
            requires
                i == q * w + r,
                0 <= r < w,
                0 <= i < w * h,
                w > 0,
        ;
    }

    /// A generation later the universe still meets its invariant.
    pub proof fn lemma_tick_wf(self)
        requires
            self.wf(),
        ensures
            self.tick().wf(),
    {
        assert forall|i: int| 0 <= i < self.cells.len() implies #[trigger] self.next_generation()[i]
            <= 1 by {
            self.lemma_position(i);
        }
    }
}

/// On a ring of `n` places, the place before the first is the last, the
/// place after the last is the first, and every place inside is itself.
pub proof fn lemma_wrap(i: int, n: nat)
    requires
        n > 0,
        -1 <= i <= n,
    ensures
        wrap(i, n) == if i == -1 {
            n - 1
        } else if i == n {
            0
        } else {
            i
        },
{
    let m = n as int;
    if i == -1 {
        lemma_fundamental_div_mod_converse(i, m, -1, m - 1);
    } else if i == m {
        lemma_fundamental_div_mod_converse(i, m, 1, 0);
    } else {
        lemma_fundamental_div_mod_converse(i, m, 0, i);
    }
}

/// Around a cell of a grid of `height` rows and `width` columns the rows
/// and columns wrap: above the first row lies the last, below the last the
/// first, and likewise for the columns; the cell's own row and column are
/// themselves.
pub proof fn lemma_wrap_around(row: nat, col: nat, height: nat, width: nat)
    requires
        row < height,
        col < width,
    ensures
        wrap(row - 1, height) == if row == 0 {
            height - 1
        } else {
            row - 1
        },
        wrap(row as int, height) == row,
        wrap(row as int + 1, height) == if row + 1 == height {
            0
        } else {
            row + 1
        },
        wrap(col - 1, width) == if col == 0 {
            width - 1
        } else {
            col - 1
        },
        wrap(col as int, width) == col,
        wrap(col as int + 1, width) == if col + 1 == width {
            0
        } else {
            col + 1
        },
{
    lemma_wrap(row - 1, height);
    lemma_wrap(row as int, height);
    lemma_wrap(row as int + 1, height);
    lemma_wrap(col - 1, width);
    lemma_wrap(col as int, width);
    lemma_wrap(col as int + 1, width);
}

} // verus!
