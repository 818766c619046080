//! Simulation core of a grid-based farming economy: an item catalogue, an
//! inventory ledger, a plot grid with crop growth, a money balance and a
//! deferred event queue applied once per simulation step.

pub mod catalogue;
pub mod error;
pub mod inventory;
pub mod grid;
pub mod game;
