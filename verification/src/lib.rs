//! A toroidal cellular-automaton engine whose universes are addressed by
//! the hash of their content.

pub mod cell;
pub mod census;
pub mod hashing;
pub mod laws;
pub mod model;
pub mod pallet;
pub mod universe;

pub use crate::cell::Cell;
pub use crate::hashing::UniverseId;
pub use crate::model::UniverseModel;
pub use crate::pallet::{Error, Event, Pallet};
pub use crate::universe::{AccountId, Universe};
