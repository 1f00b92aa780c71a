use the_game::errors::GameError;
use the_game::game::Game;
use the_game::game::parse_pile;
use the_game::game::PileId;
use the_game::game::HAND_CAPACITY;
use the_game::pile::Direction;
use the_game::pile::Pile;

/// A game with chosen deck, hand and `up1` pile, the other piles empty.
fn game_with(deck: Vec<u8>, hand: Vec<u8>, up1_cards: Vec<u8>) -> Game {
    Game {
        deck,
        hand,
        up1: Pile { cards: up1_cards, dir: Direction::Ascending },
        up2: Pile { cards: Vec::new(), dir: Direction::Ascending },
        down1: Pile { cards: Vec::new(), dir: Direction::Descending },
        down2: Pile { cards: Vec::new(), dir: Direction::Descending },
    }
}

#[test]
fn draw_test() {
    let mut game = Game::new();
    game.draw(8).unwrap();
    assert_eq!(game.hand.len(), 8);
}

#[test]
fn play_test() {
    let mut game = Game::new();
    game.draw(8).unwrap();
    let card = game.hand.last().unwrap().to_owned();
    game.play(card, "up1").unwrap();
    assert_eq!(game.up1.cards.len(), 1);
    assert_eq!(game.hand.len(), 7);
}

#[test]
fn new_game_deals_full_range_once() {
    let game = Game::new();
    assert_eq!(game.deck.len(), 98);
    let mut sorted = game.deck.clone();
    sorted.sort();
    let expected: Vec<u8> = (2..=99).collect();
    assert_eq!(sorted, expected);
    assert!(game.hand.is_empty());
    assert!(game.up1.cards.is_empty());
    assert!(game.up2.cards.is_empty());
    assert!(game.down1.cards.is_empty());
    assert!(game.down2.cards.is_empty());
    assert_eq!(game.up1.dir, Direction::Ascending);
    assert_eq!(game.up2.dir, Direction::Ascending);
    assert_eq!(game.down1.dir, Direction::Descending);
    assert_eq!(game.down2.dir, Direction::Descending);
}

#[test]
fn draw_zero_is_noop_success() {
    let mut game = Game::new();
    assert_eq!(game.draw(0), Ok(()));
    assert_eq!(game.deck.len(), 98);
    assert!(game.hand.is_empty());
}

#[test]
fn draw_more_than_deck_fails_unchanged() {
    let mut game = Game::new();
    assert_eq!(game.draw(99), Err(GameError::InsufficientCards));
    assert_eq!(game.deck.len(), 98);
    assert!(game.hand.is_empty());
    game.draw(8).unwrap();
    assert_eq!(game.draw(91), Err(GameError::InsufficientCards));
    assert_eq!(game.deck.len(), 90);
    assert_eq!(game.hand.len(), 8);
}

#[test]
fn draw_moves_cards_from_deck_to_hand() {
    let mut game = game_with(vec![10, 20, 30, 40], Vec::new(), Vec::new());
    assert_eq!(game.draw(3), Ok(()));
    assert_eq!(game.deck, vec![10]);
    let mut hand = game.hand.clone();
    hand.sort();
    assert_eq!(hand, vec![20, 30, 40]);
}

#[test]
fn fresh_draw_then_open_ascending_with_five() {
    // Fresh game whose top six deck cards include the value 5.
    let mut game = game_with(vec![90, 91, 10, 20, 5, 30, 40, 50], Vec::new(), Vec::new());
    assert_eq!(game.draw(6), Ok(()));
    assert_eq!(game.hand.len(), 6);
    assert!(game.hand.contains(&5));
    assert_eq!(game.play(5, "up1"), Ok(()));
    assert_eq!(game.pile_top(PileId::Up1), Some(5));
    assert_eq!(game.hand.len(), 5);
}

#[test]
fn ascending_back_jump_succeeds() {
    let mut game = game_with(vec![60, 61], vec![32, 41], vec![42]);
    assert_eq!(game.play(32, "up1"), Ok(()));
    assert_eq!(game.pile_top(PileId::Up1), Some(32));
    assert_eq!(game.hand, vec![41]);
}

#[test]
fn ascending_below_top_fails_with_illegal_move() {
    let mut game = game_with(vec![60, 61], vec![32, 41], vec![42]);
    assert_eq!(game.play(41, "up1"), Err(GameError::IllegalMove));
    assert_eq!(game.pile_top(PileId::Up1), Some(42));
    assert_eq!(game.hand, vec![32, 41]);
}

#[test]
fn ascending_above_top_succeeds() {
    let mut game = game_with(vec![60, 61], vec![43, 50], vec![42]);
    assert_eq!(game.play(43, "up1"), Ok(()));
    assert_eq!(game.pile_top(PileId::Up1), Some(43));
}

#[test]
fn descending_rules() {
    let down = |cards: Vec<u8>| Pile { cards, dir: Direction::Descending };
    let mut game = Game {
        deck: vec![60, 61],
        hand: vec![52, 43, 30],
        up1: Pile { cards: Vec::new(), dir: Direction::Ascending },
        up2: Pile { cards: Vec::new(), dir: Direction::Ascending },
        down1: down(vec![42]),
        down2: down(Vec::new()),
    };
    // Back-jump: 52 == 42 + 10.
    assert_eq!(game.play(52, "down1"), Ok(()));
    assert_eq!(game.pile_top(PileId::Down1), Some(52));
    // 43 < 52: legal.
    assert_eq!(game.play(43, "down1"), Ok(()));
    // Any card under 100 opens an empty descending pile.
    assert_eq!(game.play(30, "down2"), Ok(()));
}

#[test]
fn descending_above_top_fails() {
    let mut game = Game {
        deck: vec![60, 61],
        hand: vec![43, 20],
        up1: Pile { cards: Vec::new(), dir: Direction::Ascending },
        up2: Pile { cards: Vec::new(), dir: Direction::Ascending },
        down1: Pile { cards: vec![42], dir: Direction::Descending },
        down2: Pile { cards: Vec::new(), dir: Direction::Descending },
    };
    assert_eq!(game.play(43, "down1"), Err(GameError::IllegalMove));
    assert_eq!(game.pile_top(PileId::Down1), Some(42));
}

#[test]
fn unknown_pile_rejected_unchanged() {
    let mut game = game_with(vec![60, 61], vec![7, 8], vec![42]);
    assert_eq!(game.play(7, "nonexistent"), Err(GameError::UnknownPile));
    assert_eq!(game.hand, vec![7, 8]);
    assert_eq!(game.up1.cards, vec![42]);
    assert!(game.up2.cards.is_empty());
    assert!(game.down1.cards.is_empty());
    assert!(game.down2.cards.is_empty());
}

#[test]
fn card_not_in_hand_rejected() {
    let mut game = game_with(vec![60, 61], vec![7, 8], Vec::new());
    assert_eq!(game.play(9, "up1"), Err(GameError::CardNotInHand));
    assert_eq!(game.hand, vec![7, 8]);
    assert!(game.up1.cards.is_empty());
}

#[test]
fn won_game_is_terminal() {
    let mut game = game_with(Vec::new(), Vec::new(), vec![42]);
    assert!(game.is_won());
    assert!(game.is_over());
    assert_eq!(game.play(5, "up1"), Err(GameError::GameOver));
    assert_eq!(game.draw(1), Err(GameError::GameOver));
    assert_eq!(game.draw(0), Err(GameError::GameOver));
    assert!(game.up1.cards == vec![42] && game.hand.is_empty() && game.deck.is_empty());
}

#[test]
fn is_won_false_while_cards_remain() {
    let game = game_with(vec![60], Vec::new(), Vec::new());
    assert!(!game.is_won());
    let game2 = game_with(Vec::new(), vec![60], Vec::new());
    assert!(!game2.is_won());
}

#[test]
fn lost_game_is_terminal() {
    // Two cards in hand, deck non-empty, and no legal placement anywhere.
    let mut game = Game {
        deck: vec![70],
        hand: vec![50, 60],
        up1: Pile { cards: vec![98], dir: Direction::Ascending },
        up2: Pile { cards: vec![97], dir: Direction::Ascending },
        down1: Pile { cards: vec![3], dir: Direction::Descending },
        down2: Pile { cards: vec![4], dir: Direction::Descending },
    };
    assert!(game.is_lost());
    assert!(!game.is_won());
    assert!(game.is_over());
    assert_eq!(game.draw(1), Err(GameError::GameOver));
    assert_eq!(game.play(50, "up1"), Err(GameError::GameOver));
}

#[test]
fn not_lost_while_a_play_remains() {
    // 88 back-jumps onto the ascending top 98, so the game is still open.
    let game = Game {
        deck: vec![70],
        hand: vec![88, 60],
        up1: Pile { cards: vec![98], dir: Direction::Ascending },
        up2: Pile { cards: vec![97], dir: Direction::Ascending },
        down1: Pile { cards: vec![3], dir: Direction::Descending },
        down2: Pile { cards: vec![4], dir: Direction::Descending },
    };
    assert!(!game.is_lost());
    assert!(!game.is_over());
}

#[test]
fn not_lost_with_fewer_cards_than_required() {
    // Deck non-empty requires two plays, but only one card is held.
    let game = Game {
        deck: vec![70],
        hand: vec![50],
        up1: Pile { cards: vec![98], dir: Direction::Ascending },
        up2: Pile { cards: vec![97], dir: Direction::Ascending },
        down1: Pile { cards: vec![3], dir: Direction::Descending },
        down2: Pile { cards: vec![4], dir: Direction::Descending },
    };
    assert!(!game.is_lost());
}

#[test]
fn turn_end_check_refills_to_capacity() {
    let mut game = game_with(vec![20, 30, 40, 50, 60, 70], vec![10], Vec::new());
    assert_eq!(game.turn_end_check(), Ok(()));
    assert_eq!(game.hand.len(), HAND_CAPACITY);
    assert_eq!(game.deck, vec![20]);
}

#[test]
fn turn_end_check_limited_by_deck() {
    let mut game = game_with(vec![20, 30], vec![10], Vec::new());
    assert_eq!(game.turn_end_check(), Ok(()));
    assert_eq!(game.hand.len(), 3);
    assert!(game.deck.is_empty());
}

#[test]
fn turn_end_check_full_hand_draws_nothing() {
    let mut game = game_with(vec![70, 71], vec![10, 11, 12, 13, 14, 15], Vec::new());
    assert_eq!(game.turn_end_check(), Ok(()));
    assert_eq!(game.hand.len(), HAND_CAPACITY);
    assert_eq!(game.deck.len(), 2);
}

#[test]
fn dedeck_plays_straight_from_deck() {
    let mut game = game_with(vec![42, 50], vec![7, 8], Vec::new());
    assert_eq!(game.dedeck(50, "up1"), Ok(()));
    assert_eq!(game.pile_top(PileId::Up1), Some(50));
    assert_eq!(game.deck, vec![42]);
    assert_eq!(game.hand, vec![7, 8]);
    assert_eq!(game.dedeck(60, "up1"), Err(GameError::CardNotInHand));
    assert_eq!(game.dedeck(42, "nowhere"), Err(GameError::UnknownPile));
    assert_eq!(game.dedeck(42, "up1"), Err(GameError::IllegalMove));
}

#[test]
fn pile_place_and_top() {
    let mut pile = Pile::empty(Direction::Ascending);
    assert_eq!(pile.top(), None);
    assert!(pile.can_place(2));
    assert_eq!(pile.place(42), Ok(()));
    assert_eq!(pile.top(), Some(42));
    assert_eq!(pile.place(41), Err(GameError::IllegalMove));
    assert_eq!(pile.top(), Some(42));
    assert_eq!(pile.place(32), Ok(()));
    assert_eq!(pile.top(), Some(32));
}

#[test]
fn snapshot_getters() {
    let game = game_with(vec![60, 61], vec![7, 8], vec![42]);
    assert_eq!(game.deck_size(), 2);
    assert_eq!(game.hand_cards(), &vec![7, 8]);
    assert_eq!(game.pile_top(PileId::Up1), Some(42));
    assert_eq!(game.pile_top(PileId::Up2), None);
    assert_eq!(game.pile_top(PileId::Down1), None);
    assert_eq!(game.pile_top(PileId::Down2), None);
}

#[test]
fn parse_pile_recognizes_the_four_names() {
    assert_eq!(parse_pile("up1"), Some(PileId::Up1));
    assert_eq!(parse_pile("up2"), Some(PileId::Up2));
    assert_eq!(parse_pile("down1"), Some(PileId::Down1));
    assert_eq!(parse_pile("down2"), Some(PileId::Down2));
    assert_eq!(parse_pile("up3"), None);
    assert_eq!(parse_pile("down3"), None);
    assert_eq!(parse_pile(""), None);
    assert_eq!(parse_pile("deck"), None);
}
