use vstd::prelude::*;

verus! {

/// A typed failure returned by the engine.
///
/// Every engine operation returns one of these instead of panicking or
/// aborting; the caller decides how to present it.
#[derive(Debug, Clone, Copy, PartialEq, Eq, Structural)]
pub enum GameError {
    /// A draw requested more cards than remain in the deck.
    InsufficientCards,
    /// A pile identifier did not match one of the four recognized piles.
    UnknownPile,
    /// A play referenced a card absent from its source collection.
    CardNotInHand,
    /// A card failed the target pile's direction-or-jump rule.
    IllegalMove,
    /// An operation was attempted after the game reached a terminal state.
    GameOver,
}

} // verus!
