//! What holds of every universe and of every tick.

use crate::cell::next_state;
use crate::hashing::UniverseId;
use crate::pallet::{Event, Pallet};
use crate::model::{lemma_wrap, lemma_wrap_around, wrap, UniverseModel};
use crate::universe::{AccountId, Universe};
use vstd::prelude::*;

verus! {

/// Creation is deterministic: two creations for one account give the same
/// identifier, universes with the same content, and the same event.
pub proof fn creation_is_deterministic(
    sender: AccountId,
    first: (UniverseId, Universe, Event),
    second: (UniverseId, Universe, Event),
)
    requires
        Pallet::is_creation(sender, first),
        Pallet::is_creation(sender, second),
    ensures
        first.0 == second.0,
        first.1@ == second.1@,
        first.2 == second.2,
{
    assert(first.0 =~= second.0);
}

/// Universes with the same content have the same identifier.
pub proof fn identifier_follows_content(a: UniverseModel, b: UniverseModel)
    requires
        a.width == b.width,
        a.height == b.height,
        a.cells == b.cells,
        a.owner == b.owner,
    ensures
        a.id() == b.id(),
{
}

/// A tick keeps the invariant of the grid: the next generation has one cell
/// for each place, and every cell is dead or alive.
pub proof fn tick_keeps_the_grid(u: UniverseModel)
    requires
        u.wf(),
    ensures
        u.tick().wf(),
        u.tick().width == u.width,
        u.tick().height == u.height,
        u.tick().owner == u.owner,
        u.tick().cells.len() == u.width * u.height,
        forall|i: int|
            0 <= i < u.tick().cells.len() ==> u.tick().cells[i] == 0 || u.tick().cells[i] == 1,
{
    u.lemma_tick_wf();
}

/// Every cell of the next generation is the rule applied to the cell and to
/// its neighbours as they were before the tick, whatever the tick makes of
/// the other cells.
pub proof fn tick_reads_the_old_generation(u: UniverseModel, row: nat, col: nat)
    requires
        u.wf(),
        row < u.height,
        col < u.width,
    ensures
        u.tick().at(row, col) == next_state(u.at(row, col), u.live_neighbors(row, col)),
{
    u.lemma_index(row, col);
}

/// A cell of the next generation depends on nothing but the cell and the
/// eight cells around it: two universes of the same dimensions that agree
/// there agree on that cell a tick later.
pub proof fn tick_is_local(u: UniverseModel, v: UniverseModel, row: nat, col: nat)
    requires
        u.wf(),
        v.wf(),
        u.width == v.width,
        u.height == v.height,
        row < u.height,
        col < u.width,
        forall|r: nat, c: nat|
            (r == wrap(row - 1, u.height) || r == row || r == wrap(row as int + 1, u.height)) && (c
                == wrap(col - 1, u.width) || c == col || c == wrap(col as int + 1, u.width))
                ==> #[trigger] u.at(r, c) == v.at(r, c),
    ensures
        u.tick().at(row, col) == v.tick().at(row, col),
{
    tick_reads_the_old_generation(u, row, col);
    tick_reads_the_old_generation(v, row, col);
    lemma_wrap_around(row, col, u.height, u.width);
}

/// The grid is a torus: the cell above and to the left of the first cell is
/// the last cell, and the first cell counts it among its neighbours when it
/// is alive.
pub proof fn first_cell_counts_the_last(u: UniverseModel)
    requires
        u.wf(),
    ensures
        u.torus(-1, -1) == u.at((u.height - 1) as nat, (u.width - 1) as nat),
        u.at((u.height - 1) as nat, (u.width - 1) as nat) == 1 ==> u.live_neighbors(0, 0) >= 1,
{
    lemma_wrap(-1, u.height);
    lemma_wrap(-1, u.width);
}

/// A grid of dead cells stays as it is.
pub proof fn dead_grid_stays_dead(u: UniverseModel)
    requires
        u.wf(),
        forall|i: int| 0 <= i < u.cells.len() ==> u.cells[i] == 0,
    ensures
        u.tick() == u,
{
    assert forall|i: int| 0 <= i < u.cells.len() implies u.next_generation()[i] == u.cells[i] by {
        u.lemma_position(i);
        let r = (i / u.width as int) as nat;
        let c = (i % u.width as int) as nat;
        lemma_wrap_around(r, c, u.height, u.width);
        u.lemma_cells_in_grid();
    }
    assert(u.next_generation() =~= u.cells);
}

/// A live cell with no live cell around it is dead a tick later.
pub proof fn isolated_cell_dies(u: UniverseModel, row: nat, col: nat)
    requires
        u.wf(),
        row < u.height,
        col < u.width,
        u.at(row, col) == 1,
        u.live_neighbors(row, col) == 0,
    ensures
        u.tick().at(row, col) == 0,
{
    tick_reads_the_old_generation(u, row, col);
}

/// What the cell at (`r`, `c`) holds in a grid of `h` rows and `w` columns
/// whose live cells are exactly the four of the block with its upper left
/// cell at (`row`, `col`). The block may lie across the seam of the torus:
/// its second row is the one below `row`, its second column the one right
/// of `col`.
pub open spec fn block_cell(h: nat, w: nat, row: nat, col: nat, r: nat, c: nat) -> u8 {
    if (r == row || r == wrap(row as int + 1, h)) && (c == col || c == wrap(col as int + 1, w)) {
        1
    } else {
        0
    }
}

/// Whether the live cells of `u` are exactly the four of the block whose
/// upper left cell is (`row`, `col`).
pub open spec fn is_block(u: UniverseModel, row: nat, col: nat) -> bool {
    &&& row < u.height
    &&& col < u.width
    &&& forall|r: nat, c: nat|
        r < u.height && c < u.width ==> #[trigger] u.at(r, c) == block_cell(
            u.height,
            u.width,
            row,
            col,
            r,
            c,
        )
}

/// Whether the cell at (`row`, `col`) is the one live cell of `u`.
pub open spec fn is_lone_cell(u: UniverseModel, row: nat, col: nat) -> bool {
    &&& row < u.height
    &&& col < u.width
    &&& forall|r: nat, c: nat|
        r < u.height && c < u.width ==> #[trigger] u.at(r, c) == if r == row && c == col {
            1u8
        } else {
            0u8
        }
}

/// The rule leaves each cell of a block pattern as it is: a cell of the
/// block has three live neighbours, and no other cell has exactly three.
proof fn lemma_block_cell_is_stable(h: nat, w: nat, row: nat, col: nat, r: nat, c: nat)
    requires
        h >= 3,
        w >= 3,
        row < h,
        col < w,
        r < h,
        c < w,
    ensures
        ({
            let north = wrap(r - 1, h);
            let south = wrap(r as int + 1, h);
            let west = wrap(c - 1, w);
            let east = wrap(c as int + 1, w);
            next_state(
                block_cell(h, w, row, col, r, c),
                (block_cell(h, w, row, col, north, west) + block_cell(h, w, row, col, north, c)
                    + block_cell(h, w, row, col, north, east) + block_cell(h, w, row, col, r, west)
                    + block_cell(h, w, row, col, r, east) + block_cell(h, w, row, col, south, west)
                    + block_cell(h, w, row, col, south, c) + block_cell(
                    h,
                    w,
                    row,
                    col,
                    south,
                    east,
                )) as nat,
            ) == block_cell(h, w, row, col, r, c)
        }),
{
    lemma_wrap_around(r, c, h, w);
    lemma_wrap_around(row, col, h, w);
}

/// A block of two by two live cells in a grid of dead cells is a still
/// life: on a grid of at least three rows and three columns it is unchanged
/// by a tick, wherever it lies.
pub proof fn block_is_still_life(u: UniverseModel, row: nat, col: nat)
    requires
        u.wf(),
        u.height >= 3,
        u.width >= 3,
        is_block(u, row, col),
    ensures
        u.tick() == u,
{
    assert forall|i: int| 0 <= i < u.cells.len() implies u.next_generation()[i] == u.cells[i] by {
        u.lemma_position(i);
        let r = (i / u.width as int) as nat;
        let c = (i % u.width as int) as nat;
        lemma_wrap_around(r, c, u.height, u.width);
        lemma_block_cell_is_stable(u.height, u.width, row, col, r, c);
        assert(u.cells[i] == u.at(r, c));
    }
    assert(u.next_generation() =~= u.cells);
}

/// A live cell alone in a grid of at least two rows and two columns leaves
/// a grid of dead cells.
pub proof fn lone_cell_leaves_dead_grid(u: UniverseModel, row: nat, col: nat)
    requires
        u.wf(),
        u.height >= 2,
        u.width >= 2,
        is_lone_cell(u, row, col),
    ensures
        forall|i: int| 0 <= i < u.tick().cells.len() ==> u.tick().cells[i] == 0,
        u.tick().cells.len() == u.cells.len(),
{
    assert forall|i: int| 0 <= i < u.cells.len() implies u.next_generation()[i] == 0 by {
        u.lemma_position(i);
        let r = (i / u.width as int) as nat;
        let c = (i % u.width as int) as nat;
        lemma_wrap_around(r, c, u.height, u.width);
        assert(u.cells[i] == u.at(r, c));
    }
}

} // verus!
