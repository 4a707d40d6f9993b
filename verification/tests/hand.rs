use macau::cards::hand::{Hand, HasHand, SortedCard};
use macau::cards::{Card, JokerColor, Rank, Suit};
use macau::macau::MacauPlayer;
use std::cmp::Ordering;

#[test]
fn a_hand_keeps_its_cards_in_order() {
    let mut hand = Hand::new();
    assert!(hand.iter().is_empty());
    let king_of_spades = Card::new(Suit::Spades, Rank::King);
    let ace_of_spades = Card::new(Suit::Spades, Rank::Ace);
    let two_of_clubs = Card::new(Suit::Clubs, Rank::Two);
    let ten_of_hearts = Card::new(Suit::Hearts, Rank::Ten);
    let four_of_diamonds = Card::new(Suit::Diamonds, Rank::Four);
    let black = Card::new_joker(JokerColor::Black);
    let red = Card::new_joker(JokerColor::Red);
    for card in [black, king_of_spades, ten_of_hearts, two_of_clubs, red, ace_of_spades, four_of_diamonds]
    {
        hand.add_card(card);
    }
    assert_eq!(
        hand.iter(),
        vec![
            two_of_clubs,
            four_of_diamonds,
            ten_of_hearts,
            ace_of_spades,
            king_of_spades,
            red,
            black
        ]
    );
    assert_eq!(hand.to_string(), "♣2, ♦4, ♥10, ♠A, ♠K, 🃏1, 🃏2");
    let shown: Vec<Card> = hand.cards().iter().map(|sorted| sorted.0).collect();
    assert_eq!(shown, hand.iter());
}

#[test]
fn a_hand_holds_equal_cards_side_by_side() {
    let mut hand = Hand::with_capacity(4);
    let nine = Card::new(Suit::Hearts, Rank::Nine);
    let two = Card::new(Suit::Hearts, Rank::Two);
    hand.add_card(nine);
    hand.add_card(two);
    hand.add_card(nine);
    assert_eq!(hand.iter(), vec![two, nine, nine]);
    hand.remove_card(nine);
    assert_eq!(hand.iter(), vec![two, nine]);
    // a card that is not there
    hand.remove_card(Card::new(Suit::Clubs, Rank::Nine));
    assert_eq!(hand.iter(), vec![two, nine]);
    hand.remove_card(two);
    hand.remove_card(nine);
    assert!(hand.iter().is_empty());
    assert_eq!(hand.to_string(), "");
    hand.remove_card(nine);
    assert!(hand.iter().is_empty());
}

#[test]
fn one_card_in_words() {
    let mut hand = Hand::new();
    hand.add_card(Card::new_joker(JokerColor::White));
    assert_eq!(hand.to_string(), "🃏3");
}

#[test]
fn sorted_cards_compare_by_suit_then_rank_jokers_last() {
    let sorted = |card: Card| SortedCard::from(card);
    let ace_of_clubs = sorted(Card::new(Suit::Clubs, Rank::Ace));
    let king_of_clubs = sorted(Card::new(Suit::Clubs, Rank::King));
    let ace_of_diamonds = sorted(Card::new(Suit::Diamonds, Rank::Ace));
    let ace_of_hearts = sorted(Card::new(Suit::Hearts, Rank::Ace));
    let king_of_spades = sorted(Card::new(Suit::Spades, Rank::King));
    let red = sorted(Card::new_joker(JokerColor::Red));
    let black = sorted(Card::new_joker(JokerColor::Black));
    let white = sorted(Card::new_joker(JokerColor::White));
    assert!(ace_of_clubs < king_of_clubs);
    assert!(king_of_clubs < ace_of_diamonds);
    assert!(ace_of_diamonds < ace_of_hearts);
    assert!(ace_of_hearts < king_of_spades);
    assert!(king_of_spades < red);
    assert!(red < black);
    assert!(black < white);
    assert!(white > ace_of_clubs);
    assert_eq!(red.partial_cmp(&red), Some(Ordering::Equal));
    assert_eq!(ace_of_hearts.partial_cmp(&ace_of_hearts), Some(Ordering::Equal));
    assert_eq!(white.partial_cmp(&black), Some(Ordering::Greater));
    assert_eq!(ace_of_clubs.partial_cmp(&white), Some(Ordering::Less));
}

#[test]
fn places_in_the_order_of_a_hand() {
    assert_eq!(SortedCard(Card::new(Suit::Clubs, Rank::Ace)).key(), 0);
    assert_eq!(SortedCard(Card::new(Suit::Clubs, Rank::King)).key(), 12);
    assert_eq!(SortedCard(Card::new(Suit::Diamonds, Rank::Ace)).key(), 13);
    assert_eq!(SortedCard(Card::new(Suit::Hearts, Rank::Five)).key(), 30);
    assert_eq!(SortedCard(Card::new(Suit::Spades, Rank::King)).key(), 51);
    assert_eq!(SortedCard(Card::new_joker(JokerColor::Red)).key(), 52);
    assert_eq!(SortedCard(Card::new_joker(JokerColor::White)).key(), 54);
    for key in 0..55u8 {
        let sorted = SortedCard::from_key(key).unwrap();
        assert_eq!(sorted.key(), key);
        let card: Card = sorted.into();
        assert_eq!(SortedCard::from(card), sorted);
        if key > 0 {
            assert!(SortedCard::from_key(key - 1).unwrap() < sorted);
        }
    }
    assert_eq!(SortedCard::from_key(55), None);
    assert_eq!(SortedCard::from_key(255), None);
}

#[test]
fn dealing_to_a_player_fills_the_hand() {
    let mut player = MacauPlayer { id: 7, name: "Bob".to_string(), hand: Hand::new() };
    player.deal(Card::new(Suit::Spades, Rank::Two));
    player.deal(Card::new(Suit::Clubs, Rank::Two));
    assert_eq!(
        player.hand().iter(),
        vec![Card::new(Suit::Clubs, Rank::Two), Card::new(Suit::Spades, Rank::Two)]
    );
    player.hand_mut().remove_card(Card::new(Suit::Clubs, Rank::Two));
    assert_eq!(player.hand.iter(), vec![Card::new(Suit::Spades, Rank::Two)]);
    assert_eq!(player.id, 7);
    assert_eq!(player.name, "Bob");
}

#[test]
fn players_are_equal_by_id_alone() {
    let mut alice = MacauPlayer { id: 1, name: "Alice".to_string(), hand: Hand::new() };
    let namesake = MacauPlayer { id: 2, name: "Alice".to_string(), hand: Hand::new() };
    let renamed = MacauPlayer { id: 1, name: "Alicia".to_string(), hand: Hand::new() };
    alice.deal(Card::new(Suit::Spades, Rank::Two));
    assert!(alice == renamed);
    assert!(alice != namesake);
}
