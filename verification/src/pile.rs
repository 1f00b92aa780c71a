use vstd::prelude::*;

use crate::errors::GameError;

verus! {

/// The value an empty ascending pile logically starts at: any card strictly
/// above it may open the pile.
pub const ASCENDING_START: u8 = 0;

/// The value an empty descending pile logically starts at: any card strictly
/// below it may open the pile.
pub const DESCENDING_START: u8 = 100;

/// How far below (ascending) or above (descending) the current top a card may
/// jump back to, overriding the normal direction requirement.
pub const JUMP_DISTANCE: u8 = 10;

/// The fixed direction of a pile, assigned at creation and never changed.
#[derive(Debug, Clone, Copy, PartialEq, Eq, Structural)]
pub enum Direction {
    /// Each played card must be greater than the current top, or jump back.
    Ascending,
    /// Each played card must be smaller than the current top, or jump back.
    Descending,
}

/// One of the four ordered stacks that cards are played onto.
///
/// A pile only ever grows, and only through [`Pile::place`], so every card in
/// it was legal against the card below it when it was placed.
#[derive(Debug, Clone, PartialEq, Eq)]
pub struct Pile {
    /// The cards played so far, oldest first; the last element is the top.
    pub cards: Vec<u8>,
    /// The pile's fixed direction.
    pub dir: Direction,
}

impl Pile {
    /// The current top card, or `None` while the pile is empty.
    pub open spec fn spec_top(self) -> Option<u8> {
        if self.cards@.len() == 0 {
            None
        } else {
            Some(self.cards@.last())
        }
    }

    /// The direction-or-jump rule against a concrete top card `t`.
    ///
    /// Ascending: `card > t` or `card == t - 10`; descending: `card < t` or
    /// `card == t + 10` (arithmetic over the unbounded integers, so the jump
    /// case is vacuous where `t - 10` would be negative).
    pub open spec fn placeable_on(dir: Direction, t: u8, card: u8) -> bool {
        match dir {
            Direction::Ascending => card > t || card + JUMP_DISTANCE == t,
            Direction::Descending => card < t || card == t + JUMP_DISTANCE,
        }
    }

    /// Whether `card` may legally be placed on this pile now.
    ///
    /// While the pile is empty the card is compared against the start value
    /// alone: the jump exception applies only once at least one card has been
    /// placed.
    pub open spec fn spec_can_place(self, card: u8) -> bool {
        match self.spec_top() {
            None => match self.dir {
                Direction::Ascending => card > ASCENDING_START,
                Direction::Descending => card < DESCENDING_START,
            },
            Some(t) => Self::placeable_on(self.dir, t, card),
        }
    }

    /// Every card in the pile was legal at the moment it was placed.
    pub open spec fn wf(self) -> bool {
        &&& (self.cards@.len() > 0 ==> match self.dir {
            Direction::Ascending => self.cards@[0] > ASCENDING_START,
            Direction::Descending => self.cards@[0] < DESCENDING_START,
        })
        &&& forall|i: int|
            1 <= i < self.cards@.len() ==> Self::placeable_on(
                self.dir,
                self.cards@[i - 1],
                #[trigger] self.cards@[i],
            )
    }

    /// A fresh, empty pile of the given direction.
    pub fn empty(dir: Direction) -> (p: Pile)
        ensures
            p.cards@ == Seq::<u8>::empty(),
            p.dir == dir,
            p.wf(),
    {
        Pile { cards: Vec::new(), dir }
    }

    /// The current top card, or `None` if no card has been played.
    pub fn top(&self) -> (t: Option<u8>)
        ensures
            t == self.spec_top(),
    {
        if self.cards.len() == 0 {
            None
        } else {
            Some(self.cards[self.cards.len() - 1])
        }
    }

    /// Decide whether `card` may be placed on this pile; pure, no side effects.
    pub fn can_place(&self, card: u8) -> (r: bool)
        ensures
            r == self.spec_can_place(card),
    {
        let n = self.cards.len();
        if n == 0 {
            match self.dir {
                Direction::Ascending => card > ASCENDING_START,
                Direction::Descending => card < DESCENDING_START,
            }
        } else {
            let t = self.cards[n - 1];
            match self.dir {
                Direction::Ascending => card > t || card as u16 + JUMP_DISTANCE as u16
                    == t as u16,
                Direction::Descending => card < t || card as u16 == t as u16
                    + JUMP_DISTANCE as u16,
            }
        }
    }

    /// Push `card` onto the pile, or fail with `IllegalMove` if it violates
    /// the direction-or-jump rule; on failure the pile is unchanged.
    pub fn place(&mut self, card: u8) -> (r: Result<(), GameError>)
        requires
            old(self).wf(),
        ensures
            final(self).wf(),
            final(self).dir == old(self).dir,
            old(self).spec_can_place(card) ==> r == Ok::<(), GameError>(())
                && final(self).cards@ == old(self).cards@.push(card),
            !old(self).spec_can_place(card) ==> r == Err::<(), GameError>(GameError::IllegalMove)
                && *final(self) == *old(self),
    {
        if self.can_place(card) {
            self.cards.push(card);
            Ok(())
        } else {
            Err(GameError::IllegalMove)
        }
    }
}

} // verus!
