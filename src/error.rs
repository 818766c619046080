use vstd::prelude::*;

verus! {

/// The local, recoverable conditions that an operation of the core reports.
#[derive(Debug, Clone, Copy, PartialEq, Eq, Structural)]
pub enum GameError {
    /// A coordinate lies outside the grid.
    OutOfBounds,
    /// No catalogue entry of that name.
    UnknownItem,
    /// The name is not that of a seed in the catalogue.
    NotASeed,
    /// The name is not that of a crop in the catalogue.
    NotACrop,
    /// The inventory holds fewer units of the item than asked for.
    InsufficientQuantity,
    /// The plot already holds a crop.
    PlotOccupied,
    /// The money balance is below the price.
    InsufficientFunds,
    /// A quantity or the balance would leave the range of `u32`.
    Overflow,
}

impl GameError {
    /// A short human-readable description of the error.
    pub fn describe(&self) -> (r: &'static str) {
        match self {
            GameError::OutOfBounds => "coordinate outside the grid",
            GameError::UnknownItem => "unknown item",
            GameError::NotASeed => "item is not a seed",
            GameError::NotACrop => "item is not a crop",
            GameError::InsufficientQuantity => "not enough of the item in the inventory",
            GameError::PlotOccupied => "plot already holds a crop",
            GameError::InsufficientFunds => "not enough money",
            GameError::Overflow => "quantity out of range",
        }
    }
}

} // verus!
