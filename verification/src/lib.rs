//! Rule engine for a single-player cooperative card-placement game.
//!
//! A shuffled deck of uniquely numbered cards is drawn into a hand, and cards
//! are played onto four ordered piles (two ascending, two descending) under a
//! placement rule with a "back-jump" exception.  The game is won when deck and
//! hand are both empty.

pub mod errors;
pub mod game;
pub mod pile;

pub use errors::GameError;
pub use game::Game;
pub use pile::Direction;
pub use pile::Pile;
