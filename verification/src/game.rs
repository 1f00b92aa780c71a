use vstd::prelude::*;

use vstd::multiset::Multiset;

use crate::errors::GameError;
use crate::pile::Direction;
use crate::pile::Pile;

verus! {

/// The smallest card value dealt into the deck.
pub const MIN_CARD: u8 = 2;

/// The largest card value dealt into the deck.
pub const MAX_CARD: u8 = 99;

/// How many cards the player is expected to hold; the engine does not hard-cap
/// the hand, but [`Game::turn_end_check`] replenishes it back up to this.
pub const HAND_CAPACITY: usize = 6;

/// The minimum number of plays owed per turn while the deck still has cards.
pub const REQUIRED_PLAYS_WITH_DECK: usize = 2;

/// The minimum number of plays owed per turn once the deck is empty.
pub const REQUIRED_PLAYS_EMPTY_DECK: usize = 1;

/// Whether `c` is one of the dealt card values.
pub open spec fn card_in_range(c: u8) -> bool {
    MIN_CARD <= c && c <= MAX_CARD
}

/// One of the four recognized piles, by name.
#[derive(Debug, Clone, Copy, PartialEq, Eq, Structural)]
pub enum PileId {
    /// The pile named `up1`.
    Up1,
    /// The pile named `up2`.
    Up2,
    /// The pile named `down1`.
    Down1,
    /// The pile named `down2`.
    Down2,
}

/// The pile identifier a name resolves to, or `None` for any other text.
pub open spec fn spec_parse_pile(s: Seq<char>) -> Option<PileId> {
    if s == "up1"@ {
        Some(PileId::Up1)
    } else if s == "up2"@ {
        Some(PileId::Up2)
    } else if s == "down1"@ {
        Some(PileId::Down1)
    } else if s == "down2"@ {
        Some(PileId::Down2)
    } else {
        None
    }
}

/// Resolve a pile name to one of the four recognized piles.
pub fn parse_pile(s: &str) -> (r: Option<PileId>)
    ensures
        r == spec_parse_pile(s@),
{
    proof {
        reveal_strlit("up1");
        reveal_strlit("up2");
        reveal_strlit("down1");
        reveal_strlit("down2");
    }
    let n = s.unicode_len();
    if n == 3 {
        let c0 = s.get_char(0);
        let c1 = s.get_char(1);
        let c2 = s.get_char(2);
        if c0 == 'u' && c1 == 'p' && c2 == '1' {
            proof {
                assert(s@ =~= "up1"@);
            }
            Some(PileId::Up1)
        } else if c0 == 'u' && c1 == 'p' && c2 == '2' {
            proof {
                assert(s@ =~= "up2"@);
            }
            Some(PileId::Up2)
        } else {
            None
        }
    } else if n == 5 {
        let c0 = s.get_char(0);
        let c1 = s.get_char(1);
        let c2 = s.get_char(2);
        let c3 = s.get_char(3);
        let c4 = s.get_char(4);
        if c0 == 'd' && c1 == 'o' && c2 == 'w' && c3 == 'n' && c4 == '1' {
            proof {
                assert(s@ =~= "down1"@);
            }
            Some(PileId::Down1)
        } else if c0 == 'd' && c1 == 'o' && c2 == 'w' && c3 == 'n' && c4 == '2' {
            proof {
                assert(s@ =~= "down2"@);
            }
            Some(PileId::Down2)
        } else {
            None
        }
    } else {
        None
    }
}

/// Position of the first occurrence of `x` in `v`, if any.
fn index_of(v: &Vec<u8>, x: u8) -> (r: Option<usize>)
    ensures
        match r {
            Some(i) => i < v@.len() && v@[i as int] == x,
            None => !v@.contains(x),
        },
{
    let mut i: usize = 0;
    while i < v.len()
        invariant
            i <= v@.len(),
            forall|j: int| 0 <= j < i ==> v@[j] != x,
        decreases v@.len() - i,
    {
        if v[i] == x {
            return Some(i);
        }
        i = i + 1;
    }
    None
}

/// The full data for one game: the shuffled deck, the player's hand, and the
/// four piles (two ascending, two descending).
///
/// Every card lives in exactly one of these six places at every observable
/// point; [`Game::wf`] states that invariant and every engine operation
/// preserves it.
#[derive(Debug, Clone, PartialEq, Eq)]
pub struct Game {
    /// The undrawn cards; draws consume them from the end.
    pub deck: Vec<u8>,
    /// The cards currently held by the player, unordered.
    pub hand: Vec<u8>,
    /// First ascending pile.
    pub up1: Pile,
    /// Second ascending pile.
    pub up2: Pile,
    /// First descending pile.
    pub down1: Pile,
    /// Second descending pile.
    pub down2: Pile,
}

impl Game {
    /// Every card in the game, over all six places, with multiplicity.
    pub open spec fn all_cards(self) -> Multiset<u8> {
        self.deck@.to_multiset().add(self.hand@.to_multiset()).add(
            self.up1.cards@.to_multiset(),
        ).add(self.up2.cards@.to_multiset()).add(self.down1.cards@.to_multiset()).add(
            self.down2.cards@.to_multiset(),
        )
    }

    /// Well-formedness: no card occurs twice anywhere in the game, every card
    /// is a dealt value, the four piles keep their fixed directions, and each
    /// pile's stack respects the placement rule.
    pub open spec fn wf(self) -> bool {
        &&& forall|c: u8| #[trigger] self.all_cards().count(c) <= 1
        &&& forall|c: u8| #[trigger] self.all_cards().count(c) > 0 ==> card_in_range(c)
        &&& self.up1.dir == Direction::Ascending
        &&& self.up2.dir == Direction::Ascending
        &&& self.down1.dir == Direction::Descending
        &&& self.down2.dir == Direction::Descending
        &&& self.up1.wf()
        &&& self.up2.wf()
        &&& self.down1.wf()
        &&& self.down2.wf()
    }

    /// The game is won when all cards have been placed: deck and hand empty.
    pub open spec fn spec_is_won(self) -> bool {
        self.deck@.len() == 0 && self.hand@.len() == 0
    }

    /// How many plays the player owes this turn.
    pub open spec fn min_required_plays(self) -> nat {
        if self.deck@.len() > 0 {
            REQUIRED_PLAYS_WITH_DECK as nat
        } else {
            REQUIRED_PLAYS_EMPTY_DECK as nat
        }
    }

    /// Some card in the hand has a legal placement on some pile.
    pub open spec fn any_play_possible(self) -> bool {
        exists|i: int|
            0 <= i < self.hand@.len() && (self.up1.spec_can_place(#[trigger] self.hand@[i])
                || self.up2.spec_can_place(self.hand@[i]) || self.down1.spec_can_place(
                self.hand@[i],
            ) || self.down2.spec_can_place(self.hand@[i]))
    }

    /// The game is lost when the player still owes plays this turn and none of
    /// the held cards has a legal placement anywhere: forward progress is
    /// structurally impossible.
    pub open spec fn spec_is_lost(self) -> bool {
        self.hand@.len() >= self.min_required_plays() && !self.any_play_possible()
    }

    /// The game has reached a terminal state, won or lost.
    pub open spec fn spec_game_over(self) -> bool {
        self.spec_is_won() || self.spec_is_lost()
    }

    /// Start a fresh game: a shuffled deck holding each dealt card value
    /// exactly once, an empty hand, and four empty piles with their fixed
    /// direction assignment.
    pub fn new() -> (g: Game)
        ensures
            g.wf(),
            g.deck@.len() == MAX_CARD - MIN_CARD + 1,
            g.deck@.no_duplicates(),
            forall|c: u8| #[trigger] g.deck@.contains(c) <==> card_in_range(c),
            g.hand@ == Seq::<u8>::empty(),
            g.up1.cards@ == Seq::<u8>::empty(),
            g.up2.cards@ == Seq::<u8>::empty(),
            g.down1.cards@ == Seq::<u8>::empty(),
            g.down2.cards@ == Seq::<u8>::empty(),
    {
        let mut deck: Vec<u8> = Vec::new();
        let mut c: u8 = MIN_CARD;
        while c <= MAX_CARD
            invariant
                MIN_CARD <= c && c <= MAX_CARD + 1,
                deck@.len() == c - MIN_CARD,
                forall|i: int| 0 <= i < deck@.len() ==> #[trigger] deck@[i] == MIN_CARD + i,
            decreases MAX_CARD + 1 - c,
        {
            deck.push(c);
            c = c + 1;
        }
        proof {
            lemma_fresh_deck_distinct(deck@);
        }
        let ghost ordered = deck@;
        shuffle(&mut deck);
        proof {
            lemma_shuffled_deck_ensures(ordered, deck@);
        }
        let g = Game {
            deck,
            hand: Vec::new(),
            up1: Pile::empty(Direction::Ascending),
            up2: Pile::empty(Direction::Ascending),
            down1: Pile::empty(Direction::Descending),
            down2: Pile::empty(Direction::Descending),
        };
        proof {
            broadcast use vstd::seq_lib::group_to_multiset_ensures;
            broadcast use vstd::multiset::group_multiset_axioms;

            assert(forall|x: u8| #[trigger]
                g.all_cards().count(x) == g.deck@.to_multiset().count(x));
        }
        g
    }

    /// The outcome a draw owes for a given pre-state and amount: `GameOver`
    /// once the game is terminal, `InsufficientCards` when the deck is too
    /// small, success otherwise.
    pub open spec fn spec_draw_result(pre: Game, amount: u8) -> Result<(), GameError> {
        if pre.spec_game_over() {
            Err(GameError::GameOver)
        } else if amount > pre.deck@.len() {
            Err(GameError::InsufficientCards)
        } else {
            Ok(())
        }
    }

    /// Draw the topmost `amount` cards from the deck into the hand.
    ///
    /// Fails with `GameOver` once the game is terminal and with
    /// `InsufficientCards` when `amount` exceeds the remaining deck; on
    /// failure deck and hand are left unchanged (no partial draw).  An
    /// `amount` of zero is a no-op success.
    pub fn draw(&mut self, amount: u8) -> (r: Result<(), GameError>)
        requires
            old(self).wf(),
        ensures
            final(self).wf(),
            r == Self::spec_draw_result(*old(self), amount),
            r is Err ==> *final(self) == *old(self),
            r is Ok ==> final(self).deck@ == old(self).deck@.take(
                old(self).deck@.len() - amount,
            ),
            r is Ok ==> final(self).hand@ == old(self).hand@ + old(self).deck@.skip(
                old(self).deck@.len() - amount,
            ),
            r is Ok ==> final(self).hand@.to_multiset() == old(self).hand@.to_multiset().add(
                old(self).deck@.skip(old(self).deck@.len() - amount).to_multiset(),
            ),
            r is Ok ==> final(self).hand@.len() == old(self).hand@.len() + amount
                && final(self).deck@.len() == old(self).deck@.len() - amount,
            final(self).up1 == old(self).up1,
            final(self).up2 == old(self).up2,
            final(self).down1 == old(self).down1,
            final(self).down2 == old(self).down2,
    {
        if self.is_over() {
            return Err(GameError::GameOver);
        }
        let amt = amount as usize;
        if amt > self.deck.len() {
            return Err(GameError::InsufficientCards);
        }
        let new_len = self.deck.len() - amt;
        let mut i: usize = new_len;
        while i < self.deck.len()
            invariant
                new_len <= i <= self.deck@.len(),
                self.deck@ == old(self).deck@,
                self.hand@ == old(self).hand@ + self.deck@.subrange(new_len as int, i as int),
                self.up1 == old(self).up1,
                self.up2 == old(self).up2,
                self.down1 == old(self).down1,
                self.down2 == old(self).down2,
            decreases self.deck@.len() - i,
        {
            let card = self.deck[i];
            proof {
                assert(self.deck@.subrange(new_len as int, i + 1)
                    =~= self.deck@.subrange(new_len as int, i as int).push(self.deck@[i as int]));
            }
            self.hand.push(card);
            i = i + 1;
        }
        self.deck.truncate(new_len);
        proof {
            broadcast use vstd::seq_lib::group_to_multiset_ensures;
            broadcast use vstd::multiset::group_multiset_axioms;

            let pre = *old(self);
            let k = pre.deck@.len() - amt;
            let kept = pre.deck@.take(k as int);
            let moved = pre.deck@.skip(k as int);
            assert(pre.deck@ =~= kept + moved);
            vstd::seq_lib::lemma_multiset_commutative(kept, moved);
            vstd::seq_lib::lemma_multiset_commutative(pre.hand@, moved);
            assert(self.deck@ == kept);
            assert(self.hand@ == pre.hand@ + moved);
            assert forall|c: u8| #[trigger]
                self.all_cards().count(c) == pre.all_cards().count(c) by {}
        }
        Ok(())
    }

    /// How many cards a turn-end replenishment draws: back up to the hand
    /// capacity, limited by what remains in the deck.
    pub open spec fn spec_refill_amount(pre: Game) -> int {
        vstd::math::min(
            if pre.hand@.len() < HAND_CAPACITY {
                HAND_CAPACITY - pre.hand@.len()
            } else {
                0
            },
            pre.deck@.len() as int,
        )
    }

    /// Replenish the hand at the end of a turn, drawing back up to
    /// [`HAND_CAPACITY`] cards, limited by the remaining deck; drawing fewer
    /// than capacity when the deck is insufficient is not an error.
    pub fn turn_end_check(&mut self) -> (r: Result<(), GameError>)
        requires
            old(self).wf(),
        ensures
            final(self).wf(),
            old(self).spec_game_over() ==> r == Err::<(), GameError>(GameError::GameOver)
                && *final(self) == *old(self),
            !old(self).spec_game_over() ==> r == Ok::<(), GameError>(())
                && final(self).deck@ == old(self).deck@.take(
                old(self).deck@.len() - Self::spec_refill_amount(*old(self)),
            ) && final(self).hand@ == old(self).hand@ + old(self).deck@.skip(
                old(self).deck@.len() - Self::spec_refill_amount(*old(self)),
            ),
            final(self).up1 == old(self).up1,
            final(self).up2 == old(self).up2,
            final(self).down1 == old(self).down1,
            final(self).down2 == old(self).down2,
    {
        if self.is_over() {
            return Err(GameError::GameOver);
        }
        let need = if self.hand.len() < HAND_CAPACITY {
            HAND_CAPACITY - self.hand.len()
        } else {
            0
        };
        let n = if need <= self.deck.len() {
            need
        } else {
            self.deck.len()
        };
        self.draw(n as u8)
    }

    /// The pile a recognized identifier selects.
    pub open spec fn spec_pile(self, id: PileId) -> Pile {
        match id {
            PileId::Up1 => self.up1,
            PileId::Up2 => self.up2,
            PileId::Down1 => self.down1,
            PileId::Down2 => self.down2,
        }
    }

    /// The outcome a play owes for a given pre-state, card and pile name, in
    /// check order: `GameOver` once the game is terminal, `UnknownPile` for an
    /// unrecognized name, `CardNotInHand` when the hand lacks the card,
    /// `IllegalMove` when the card fails the pile's rule, success otherwise.
    pub open spec fn spec_play_result(pre: Game, card: u8, pile: Seq<char>) -> Result<
        (),
        GameError,
    > {
        if pre.spec_game_over() {
            Err(GameError::GameOver)
        } else {
            match spec_parse_pile(pile) {
                None => Err(GameError::UnknownPile),
                Some(id) => if !pre.hand@.contains(card) {
                    Err(GameError::CardNotInHand)
                } else if !pre.spec_pile(id).spec_can_place(card) {
                    Err(GameError::IllegalMove)
                } else {
                    Ok(())
                },
            }
        }
    }

    /// Play `card` from the hand onto the pile named `pile`.
    ///
    /// All checks happen before any mutation, so either the card moves from
    /// the hand onto the pile, or the game is left exactly as it was: a card
    /// is never in two places and never in neither.
    pub fn play(&mut self, card: u8, pile: &str) -> (r: Result<(), GameError>)
        requires
            old(self).wf(),
        ensures
            final(self).wf(),
            r == Self::spec_play_result(*old(self), card, pile@),
            r is Err ==> *final(self) == *old(self),
            r is Ok ==> (spec_parse_pile(pile@) matches Some(id)
                && final(self).spec_pile(id).cards@ == old(self).spec_pile(id).cards@.push(card)
                && (forall|j: PileId|
                j != id ==> #[trigger] final(self).spec_pile(j) == old(self).spec_pile(j))),
            r is Ok ==> final(self).deck@ == old(self).deck@,
            r is Ok ==> final(self).hand@.to_multiset() == old(self).hand@.to_multiset().remove(
                card,
            ),
            r is Ok ==> final(self).hand@.len() + 1 == old(self).hand@.len(),
    {
        if self.is_over() {
            return Err(GameError::GameOver);
        }
        let id = match parse_pile(pile) {
            Some(id) => id,
            None => {
                return Err(GameError::UnknownPile);
            },
        };
        let idx = match index_of(&self.hand, card) {
            Some(i) => i,
            None => {
                return Err(GameError::CardNotInHand);
            },
        };
        let can = match id {
            PileId::Up1 => self.up1.can_place(card),
            PileId::Up2 => self.up2.can_place(card),
            PileId::Down1 => self.down1.can_place(card),
            PileId::Down2 => self.down2.can_place(card),
        };
        if !can {
            return Err(GameError::IllegalMove);
        }
        let removed = self.hand.remove(idx);
        let res = match id {
            PileId::Up1 => self.up1.place(removed),
            PileId::Up2 => self.up2.place(removed),
            PileId::Down1 => self.down1.place(removed),
            PileId::Down2 => self.down2.place(removed),
        };
        proof {
            broadcast use vstd::seq_lib::group_to_multiset_ensures;
            broadcast use vstd::multiset::group_multiset_axioms;

            let pre = *old(self);
            assert(self.hand@.to_multiset() =~= pre.hand@.to_multiset().remove(card));
            assert(pre.hand@.to_multiset().count(card) > 0);
            assert forall|c: u8| #[trigger]
                self.all_cards().count(c) == pre.all_cards().count(c) by {}
        }
        res
    }

    /// The outcome of playing a card straight from the deck, in the same
    /// check order as [`Game::spec_play_result`] but with the deck as the
    /// card's source.
    pub open spec fn spec_dedeck_result(pre: Game, card: u8, pile: Seq<char>) -> Result<
        (),
        GameError,
    > {
        if pre.spec_game_over() {
            Err(GameError::GameOver)
        } else {
            match spec_parse_pile(pile) {
                None => Err(GameError::UnknownPile),
                Some(id) => if !pre.deck@.contains(card) {
                    Err(GameError::CardNotInHand)
                } else if !pre.spec_pile(id).spec_can_place(card) {
                    Err(GameError::IllegalMove)
                } else {
                    Ok(())
                },
            }
        }
    }

    /// Play `card` straight from the deck onto the pile named `pile`, under
    /// the same checks as [`Game::play`]; the hand is untouched.
    pub fn dedeck(&mut self, card: u8, pile: &str) -> (r: Result<(), GameError>)
        requires
            old(self).wf(),
        ensures
            final(self).wf(),
            r == Self::spec_dedeck_result(*old(self), card, pile@),
            r is Err ==> *final(self) == *old(self),
            r is Ok ==> (spec_parse_pile(pile@) matches Some(id)
                && final(self).spec_pile(id).cards@ == old(self).spec_pile(id).cards@.push(card)
                && (forall|j: PileId|
                j != id ==> #[trigger] final(self).spec_pile(j) == old(self).spec_pile(j))),
            r is Ok ==> final(self).hand@ == old(self).hand@,
            r is Ok ==> final(self).deck@.to_multiset() == old(self).deck@.to_multiset().remove(
                card,
            ),
            r is Ok ==> (exists|i: int|
                0 <= i < old(self).deck@.len() && old(self).deck@[i] == card && final(self).deck@
                    == #[trigger] old(self).deck@.remove(i)),
            r is Ok ==> final(self).deck@.len() + 1 == old(self).deck@.len(),
    {
        if self.is_over() {
            return Err(GameError::GameOver);
        }
        let id = match parse_pile(pile) {
            Some(id) => id,
            None => {
                return Err(GameError::UnknownPile);
            },
        };
        let idx = match index_of(&self.deck, card) {
            Some(i) => i,
            None => {
                return Err(GameError::CardNotInHand);
            },
        };
        let can = match id {
            PileId::Up1 => self.up1.can_place(card),
            PileId::Up2 => self.up2.can_place(card),
            PileId::Down1 => self.down1.can_place(card),
            PileId::Down2 => self.down2.can_place(card),
        };
        if !can {
            return Err(GameError::IllegalMove);
        }
        let removed = self.deck.remove(idx);
        let res = match id {
            PileId::Up1 => self.up1.place(removed),
            PileId::Up2 => self.up2.place(removed),
            PileId::Down1 => self.down1.place(removed),
            PileId::Down2 => self.down2.place(removed),
        };
        proof {
            broadcast use vstd::seq_lib::group_to_multiset_ensures;
            broadcast use vstd::multiset::group_multiset_axioms;

            let pre = *old(self);
            assert(self.deck@ == pre.deck@.remove(idx as int));
            assert(self.deck@.to_multiset() =~= pre.deck@.to_multiset().remove(card));
            assert(pre.deck@.to_multiset().count(card) > 0);
            assert forall|c: u8| #[trigger]
                self.all_cards().count(c) == pre.all_cards().count(c) by {}
        }
        res
    }

    /// True exactly when the game is won: deck and hand are both empty.
    pub fn is_won(&self) -> (r: bool)
        ensures
            r == self.spec_is_won(),
    {
        self.deck.len() == 0 && self.hand.len() == 0
    }

    /// True exactly when the game is lost: the player still owes plays this
    /// turn and no held card has a legal placement on any of the four piles.
    pub fn is_lost(&self) -> (r: bool)
        ensures
            r == self.spec_is_lost(),
    {
        let min_required: usize = if self.deck.len() > 0 {
            REQUIRED_PLAYS_WITH_DECK
        } else {
            REQUIRED_PLAYS_EMPTY_DECK
        };
        if self.hand.len() < min_required {
            return false;
        }
        let mut i: usize = 0;
        while i < self.hand.len()
            invariant
                i <= self.hand@.len(),
                forall|j: int|
                    0 <= j < i ==> !(self.up1.spec_can_place(#[trigger] self.hand@[j])
                        || self.up2.spec_can_place(self.hand@[j]) || self.down1.spec_can_place(
                        self.hand@[j],
                    ) || self.down2.spec_can_place(self.hand@[j])),
            decreases self.hand@.len() - i,
        {
            let card = self.hand[i];
            if self.up1.can_place(card) || self.up2.can_place(card) || self.down1.can_place(card)
                || self.down2.can_place(card) {
                return false;
            }
            i = i + 1;
        }
        true
    }

    /// True exactly when the game has reached a terminal state, won or lost.
    pub fn is_over(&self) -> (r: bool)
        ensures
            r == self.spec_game_over(),
    {
        self.is_won() || self.is_lost()
    }

    /// How many cards remain undrawn, for rendering.
    pub fn deck_size(&self) -> (n: usize)
        ensures
            n == self.deck@.len(),
    {
        self.deck.len()
    }

    /// The cards currently held, for rendering.
    pub fn hand_cards(&self) -> (h: &Vec<u8>)
        ensures
            h@ == self.hand@,
    {
        &self.hand
    }

    /// The top card of the pile named by `id`, or `None` while it is empty.
    pub fn pile_top(&self, id: PileId) -> (t: Option<u8>)
        ensures
            t == self.spec_pile(id).spec_top(),
    {
        match id {
            PileId::Up1 => self.up1.top(),
            PileId::Up2 => self.up2.top(),
            PileId::Down1 => self.down1.top(),
            PileId::Down2 => self.down2.top(),
        }
    }
}

/// No card exists in two places at once: in any well-formed game a card held
/// in the hand is on no pile and still in the deck nowhere, and no card sits
/// on two piles.  Every engine operation keeps the game well-formed, so this
/// holds at every observable point.
pub proof fn lemma_card_in_one_place(g: Game, c: u8)
    requires
        g.wf(),
    ensures
        g.deck@.contains(c) ==> !g.hand@.contains(c) && !g.up1.cards@.contains(c)
            && !g.up2.cards@.contains(c) && !g.down1.cards@.contains(c)
            && !g.down2.cards@.contains(c),
        g.hand@.contains(c) ==> !g.up1.cards@.contains(c) && !g.up2.cards@.contains(c)
            && !g.down1.cards@.contains(c) && !g.down2.cards@.contains(c),
        g.up1.cards@.contains(c) ==> !g.up2.cards@.contains(c) && !g.down1.cards@.contains(c)
            && !g.down2.cards@.contains(c),
        g.up2.cards@.contains(c) ==> !g.down1.cards@.contains(c) && !g.down2.cards@.contains(c),
        g.down1.cards@.contains(c) ==> !g.down2.cards@.contains(c),
{
    broadcast use vstd::seq_lib::group_to_multiset_ensures;
    broadcast use vstd::multiset::group_multiset_axioms;

    assert(g.all_cards().count(c) <= 1);
}

/// The deck holding each dealt value once, in ascending order, has no
/// duplicate and contains exactly the dealt range.
proof fn lemma_fresh_deck_distinct(s: Seq<u8>)
    requires
        s.len() == MAX_CARD - MIN_CARD + 1,
        forall|i: int| 0 <= i < s.len() ==> #[trigger] s[i] == MIN_CARD + i,
    ensures
        s.no_duplicates(),
        forall|c: u8| #[trigger] s.contains(c) <==> card_in_range(c),
{
    assert forall|c: u8| card_in_range(c) implies s.contains(c) by {
        assert(s[c - MIN_CARD] == c);
    }
}

/// Carry distinctness and the contained range across a permutation of the
/// deck, and restate them as multiset counts.
proof fn lemma_shuffled_deck_ensures(pre: Seq<u8>, post: Seq<u8>)
    requires
        pre.no_duplicates(),
        forall|c: u8| #[trigger] pre.contains(c) <==> card_in_range(c),
        post.to_multiset() == pre.to_multiset(),
    ensures
        post.len() == pre.len(),
        post.no_duplicates(),
        forall|c: u8| #[trigger] post.contains(c) <==> card_in_range(c),
        forall|c: u8| #[trigger] post.to_multiset().count(c) <= 1,
        forall|c: u8| #[trigger] post.to_multiset().count(c) > 0 ==> card_in_range(c),
{
    broadcast use vstd::seq_lib::group_to_multiset_ensures;
    broadcast use vstd::multiset::group_multiset_axioms;

    pre.lemma_multiset_has_no_duplicates();
    assert(post.to_multiset().len() == post.len());
    assert(pre.to_multiset().len() == pre.len());
    assert forall|c: u8| #[trigger] post.contains(c) <==> pre.contains(c) by {
        assert(post.contains(c) <==> post.to_multiset().count(c) > 0);
        assert(pre.contains(c) <==> pre.to_multiset().count(c) > 0);
    }
    assert forall|c: u8| #[trigger] post.to_multiset().count(c) <= 1 by {
        if post.to_multiset().count(c) > 0 {
            assert(pre.contains(c));
        }
    }
    post.lemma_multiset_has_no_duplicates_conv();
}

/// Relies on `rand::seq::SliceRandom::shuffle` (through `rand::thread_rng`):
/// a Fisher-Yates shuffle that reorders the slice in place by swaps, so the
/// result holds exactly the same cards with the same multiplicities.
#[verifier::external_body]
fn shuffle(cards: &mut Vec<u8>)
    ensures
        final(cards)@.to_multiset() == old(cards)@.to_multiset(),
{
    rand::seq::SliceRandom::shuffle(cards.as_mut_slice(), &mut rand::thread_rng());
}

} // verus!
