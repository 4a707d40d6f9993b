use macau::cards::hand::{Hand, HasHand};
use macau::cards::pile::{Pile, PileEmptyError};
use macau::cards::{Card, JokerColor, Rank, Suit};
use macau::macau::MacauPlayer;

fn sorted_codes(cards: &[Card]) -> Vec<u8> {
    let mut codes: Vec<u8> = cards.iter().map(|card| card.code()).collect();
    codes.sort();
    codes
}

#[allow(unused_variables)]
#[test]
fn pile_test() {
    let a = Card::new(Suit::Hearts, Rank::Ace);
    let b = Card::new(Suit::Hearts, Rank::Two);
    let c = Card::new(Suit::Hearts, Rank::Three);
    let d = Card::new(Suit::Hearts, Rank::Four);
    let e = Card::new(Suit::Hearts, Rank::Five);
    let f = Card::new(Suit::Hearts, Rank::Six);

    let mut pile = Pile::of(vec![a, b, c, d]);
    assert_eq!(pile.count_total(), 4);
    assert_eq!(pile.count_accessible(), 0);
    // Shuffle the pile
    pile.shuffle();
    assert_eq!(pile.count_total(), 4);
    assert_eq!(pile.count_accessible(), 4);

    let (a, b, c, d) = (pile.cards()[0], pile.cards()[1], pile.cards()[2], pile.cards()[3]);
    assert_eq!(pile.seek(), Some(d));
    let popped = pile.pop();
    assert_eq!(popped, Some(d));
    assert_eq!(pile.count_total(), 3);
    assert_eq!(pile.count_accessible(), 3);
    assert_eq!(pile.seek(), Some(c));

    pile.add_card(e);
    assert_eq!(pile.count_total(), 4);
    assert_eq!(pile.count_accessible(), 3);
    assert_eq!(pile.seek(), Some(c));

    pile.add_on_top(f);
    assert_eq!(pile.count_total(), 5);
    assert_eq!(pile.count_accessible(), 4);
    assert_eq!(pile.seek(), Some(f));
}

#[test]
fn new_piles_have_no_accessible_card() {
    let empty = Pile::new_empty();
    assert!(empty.is_empty());
    assert_eq!(empty.count_total(), 0);
    assert_eq!(empty.count_accessible(), 0);
    assert_eq!(empty.try_seek(), None);
    let roomy = Pile::with_capacity(16);
    assert!(roomy.is_empty());
    assert_eq!(roomy.count_accessible(), 0);
    let two = Pile::of(vec![Card::new(Suit::Clubs, Rank::Two), Card::new(Suit::Clubs, Rank::Ten)]);
    assert!(!two.is_empty());
    assert_eq!(two.count_total(), 2);
    assert_eq!(two.count_accessible(), 0);
    assert_eq!(two.try_seek(), None);
    assert_eq!(two.cards().len(), 2);
}

#[test]
fn an_empty_pile_gives_nothing() {
    let mut pile = Pile::new_empty();
    assert_eq!(pile.pop(), None);
    assert_eq!(pile.seek(), None);
    assert_eq!(pile.try_seek(), None);
    assert_eq!(pile.count_total(), 0);
    assert_eq!(pile.count_accessible(), 0);
}

#[test]
fn pop_reshuffles_when_nothing_is_accessible() {
    let cards = vec![
        Card::new(Suit::Spades, Rank::Five),
        Card::new(Suit::Hearts, Rank::Six),
        Card::new_joker(JokerColor::Red),
    ];
    let mut pile = Pile::of(cards.clone());
    assert_eq!(pile.count_accessible(), 0);
    let card = pile.pop().unwrap();
    assert_eq!(pile.count_total(), 2);
    assert_eq!(pile.count_accessible(), 2);
    let mut all = pile.cards().clone();
    all.push(card);
    assert_eq!(sorted_codes(&all), sorted_codes(&cards));
}

#[test]
fn seek_reshuffles_when_nothing_is_accessible() {
    let cards = vec![
        Card::new(Suit::Spades, Rank::Five),
        Card::new(Suit::Hearts, Rank::Six),
        Card::new_joker(JokerColor::Red),
    ];
    let mut pile = Pile::of(cards.clone());
    let card = pile.seek().unwrap();
    assert_eq!(pile.count_total(), 3);
    assert_eq!(pile.count_accessible(), 3);
    assert_eq!(card, pile.cards()[2]);
    assert_eq!(sorted_codes(pile.cards()), sorted_codes(&cards));
    // with cards accessible, seeking again changes nothing
    let order = pile.cards().clone();
    assert_eq!(pile.seek(), Some(card));
    assert_eq!(pile.cards(), &order);
}

#[test]
fn try_seek_gives_the_same_answer_twice() {
    let mut pile = Pile::of(vec![Card::new(Suit::Spades, Rank::Five)]);
    assert_eq!(pile.try_seek(), None);
    assert_eq!(pile.try_seek(), None);
    assert_eq!(pile.count_accessible(), 0);
    pile.add_on_top(Card::new(Suit::Hearts, Rank::Nine));
    let first = pile.try_seek();
    let second = pile.try_seek();
    assert_eq!(first, Some(Card::new(Suit::Hearts, Rank::Nine)));
    assert_eq!(first, second);
    assert_eq!(pile.count_accessible(), 1);
    assert_eq!(pile.count_total(), 2);
}

#[test]
fn add_on_top_moves_the_waiting_card_to_the_end() {
    let five = Card::new(Suit::Spades, Rank::Five);
    let six = Card::new(Suit::Spades, Rank::Six);
    let nine = Card::new(Suit::Hearts, Rank::Nine);
    let mut pile = Pile::of(vec![five, six]);
    pile.add_on_top(nine);
    assert_eq!(pile.cards(), &vec![nine, six, five]);
    assert_eq!(pile.count_accessible(), 1);
    assert_eq!(pile.pop(), Some(nine));
    // the last card filled the gap
    assert_eq!(pile.cards(), &vec![five, six]);
    assert_eq!(pile.count_accessible(), 0);
}

#[test]
fn add_cards_appends_in_order() {
    let five = Card::new(Suit::Spades, Rank::Five);
    let six = Card::new(Suit::Spades, Rank::Six);
    let nine = Card::new(Suit::Hearts, Rank::Nine);
    let mut pile = Pile::of(vec![five]);
    pile.add_cards(vec![six, nine]);
    assert_eq!(pile.cards(), &vec![five, six, nine]);
    assert_eq!(pile.count_accessible(), 0);
    assert_eq!(pile.count_total(), 3);
}

#[test]
fn accessible_never_exceeds_total() {
    let mut pile = Pile::of(macau::cards::deck::generate_deck(3).unwrap());
    for round in 0..200 {
        match round % 5 {
            0 => {
                pile.pop();
            },
            1 => {
                pile.seek();
            },
            2 => pile.add_card(Card::new(Suit::Clubs, Rank::Two)),
            3 => pile.add_on_top(Card::new(Suit::Clubs, Rank::Three)),
            _ => {
                pile.pop();
                pile.pop();
                pile.pop();
                if round % 35 == 4 {
                    pile.shuffle();
                }
            },
        }
        assert!(pile.count_accessible() <= pile.count_total());
        assert_eq!(pile.cards().len(), pile.count_total());
    }
}

#[test]
fn shuffle_keeps_the_cards() {
    let deck = macau::cards::deck::generate_deck(3).unwrap();
    let mut pile = Pile::of(deck.clone());
    pile.shuffle();
    assert_eq!(pile.count_accessible(), 55);
    assert_eq!(sorted_codes(pile.cards()), sorted_codes(&deck));
}

#[test]
fn deal_to_hands_over_the_top_card() {
    let five = Card::new(Suit::Spades, Rank::Five);
    let nine = Card::new(Suit::Hearts, Rank::Nine);
    let mut pile = Pile::new_empty();
    pile.add_on_top(five);
    pile.add_on_top(nine);
    let mut player = MacauPlayer { id: 1, name: "Alice".to_string(), hand: Hand::new() };
    assert_eq!(pile.deal_to(&mut player), Ok(()));
    assert_eq!(player.hand().iter(), vec![nine]);
    assert_eq!(pile.count_total(), 1);
    assert_eq!(pile.deal_to(&mut player), Ok(()));
    assert_eq!(player.hand().iter(), vec![nine, five]);
    assert_eq!(pile.deal_to(&mut player), Err(PileEmptyError));
    assert_eq!(player.hand().iter(), vec![nine, five]);
    assert!(pile.is_empty());
    assert_eq!(PileEmptyError.to_string(), "Pile is empty.");
}

#[test]
fn piles_in_words() {
    let mut pile = Pile::new_empty();
    assert_eq!(pile.to_string(), "Empty pile");
    pile.add_card(Card::new(Suit::Spades, Rank::Five));
    assert_eq!(pile.to_string(), "Pile with 1 cards, unknown on top");
    pile.add_on_top(Card::new(Suit::Diamonds, Rank::King));
    assert_eq!(pile.to_string(), "Pile with 2 cards, ♦K on top");
    for _ in 0..10 {
        pile.add_card(Card::new(Suit::Spades, Rank::Five));
    }
    assert_eq!(pile.to_string(), "Pile with 12 cards, ♦K on top");
    let mut large = Pile::of(macau::cards::deck::generate_n_decks(2, 0).unwrap());
    large.add_on_top(Card::new_joker(JokerColor::White));
    assert_eq!(large.to_string(), "Pile with 105 cards, 🃏3 on top");
}

#[test]
fn shuffle_changes_the_order() {
    let deck = macau::cards::deck::generate_n_decks(2, 3).unwrap();
    let mut pile = Pile::of(deck.clone());
    pile.shuffle();
    assert_ne!(pile.cards(), &deck);
    let once = pile.cards().clone();
    pile.shuffle();
    assert_ne!(pile.cards(), &once);
}
