//! The operations of the engine: creating a universe and advancing one by a
//! generation, beside a stored counter.
//!
//! No operation touches storage or sends anything. Each one takes what was
//! read from storage and hands back what is to be written and the event to
//! announce.

use crate::cell::next_cell;
use crate::hashing::UniverseId;
use crate::model::UniverseModel;
use crate::universe::{AccountId, Universe};
use vstd::prelude::*;

verus! {

/// What an operation announces when it has succeeded.
#[derive(Clone, Copy, Debug, PartialEq, Eq)]
pub enum Event {
    /// A value was stored, by the account named.
    SomethingStored(u32, AccountId),
    /// The account created the universe with this identifier.
    Created(AccountId, UniverseId),
    /// The account advanced the universe with this identifier by one
    /// generation.
    Tick(AccountId, UniverseId),
}

/// Why an operation failed.
#[derive(Clone, Copy, Debug, PartialEq, Eq, Structural)]
pub enum Error {
    /// No value is stored.
    NoneValue,
    /// The stored value cannot be incremented: it is the largest there is.
    StorageOverflow,
    /// No universe is stored under the identifier.
    NotFound,
}

/// The engine. It holds no state of its own.
pub struct Pallet;

impl Pallet {
    /// Whether `outcome` is what creation gives `sender`: the identifier,
    /// the initial universe owned by `sender`, and the event.
    pub open spec fn is_creation(sender: AccountId, outcome: (UniverseId, Universe, Event)) -> bool {
        &&& outcome.1@ == UniverseModel::initial(sender@)
        &&& outcome.0@ == outcome.1@.id()
        &&& outcome.2 == Event::Created(sender, outcome.0)
    }

    /// Stores `something`: hands back the value to write and the event that
    /// names it and `who`.
    pub fn do_something(who: AccountId, something: u32) -> (outcome: (u32, Event))
        ensures
            outcome.0 == something,
            outcome.1 == Event::SomethingStored(something, who),
    {
        (something, Event::SomethingStored(something, who))
    }

    /// Increments the stored value: hands back the value to write, or the
    /// reason why there is none.
    pub fn cause_error(stored: Option<u32>) -> (outcome: Result<u32, Error>)
        ensures
            stored is None ==> outcome == Err::<u32, Error>(Error::NoneValue),
            stored == Some(u32::MAX) ==> outcome == Err::<u32, Error>(Error::StorageOverflow),
            stored matches Some(value) ==> value < u32::MAX ==> outcome == Ok::<u32, Error>(
                (value + 1) as u32,
            ),
    {
        match stored {
            None => Err(Error::NoneValue),
            Some(value) => {
                match value.checked_add(1) {
                    Some(new) => Ok(new),
                    None => Err(Error::StorageOverflow),
                }
            },
        }
    }

    /// Creates a universe for `sender`: hands back its identifier, the
    /// universe to store under it, and the event.
    pub fn create_universe(sender: AccountId) -> (outcome: (UniverseId, Universe, Event))
        ensures
            Self::is_creation(sender, outcome),
            outcome.1@.wf(),
    {
        let universe = Universe::new(sender);
        let universe_id = universe.id();
        (universe_id, universe, Event::Created(sender, universe_id))
    }

    /// Advances the universe `stored` under `universe_id` by one generation:
    /// hands back the universe to store in its place and the event. Every
    /// cell of the new generation is computed from the old one.
    ///
    /// Where nothing is stored under `universe_id`, the operation fails and
    /// there is nothing to store.
    pub fn tick(
        sender: AccountId,
        universe_id: UniverseId,
        stored: Option<Universe>,
    ) -> (outcome: Result<(Universe, Event), Error>)
        requires
            stored matches Some(universe) ==> universe@.wf(),
        ensures
            stored is None ==> outcome == Err::<(Universe, Event), Error>(Error::NotFound),
            stored matches Some(universe) ==> outcome is Ok,
            stored matches Some(universe) ==> outcome->Ok_0.0@ == universe@.tick(),
            stored matches Some(universe) ==> outcome->Ok_0.0@.wf(),
            stored is Some ==> outcome->Ok_0.1 == Event::Tick(sender, universe_id),
    {
        let mut universe = match stored {
            None => {
                return Err(Error::NotFound);
            },
            Some(universe) => universe,
        };

        let mut next: Vec<u8> = Vec::with_capacity(universe.cells.len());

        let mut row: u32 = 0;
        while row < universe.height
            invariant
                universe@.wf(),
                row <= universe.height,
                next@.len() == row * universe.width,
                forall|i: int|
                    0 <= i < next@.len() ==> #[trigger] next@[i] == universe@.next_generation()[i],
            decreases universe.height - row,
        {
            let mut col: u32 = 0;
            while col < universe.width
                invariant
                    universe@.wf(),
                    row < universe.height,
                    col <= universe.width,
                    next@.len() == row * universe.width + col,
                    forall|i: int|
                        0 <= i < next@.len() ==> #[trigger] next@[i]
                            == universe@.next_generation()[i],
                decreases universe.width - col,
            {
                let idx = universe.get_index(row, col);
                let cell = universe.cells[idx];
                let live_neighbors = universe.live_neighbor_count(row, col);

                let next_cell = next_cell(cell, live_neighbors);

                proof {
                    universe@.lemma_index(row as nat, col as nat);
                }
                next.push(next_cell);
                col += 1;
            }
            proof {
                assert((row + 1) * universe.width == row * universe.width + universe.width)
                    by (nonlinear_arith);
            }
            row += 1;
        }

        proof {
            assert(universe.height * universe.width == universe.width * universe.height)
                by (nonlinear_arith);
            assert(next@ =~= universe@.next_generation());
            universe@.lemma_tick_wf();
        }
        universe.cells = next;
        Ok((universe, Event::Tick(sender, universe_id)))
    }
}

} // verus!
