use macau::cards::{Card, JokerColor, Rank, Suit};
use macau::macau::variant::MacauVariant;

#[test]
fn default_rules() {
    let variant = MacauVariant::default();
    assert_eq!(variant.initial_hand, 5);
    assert!(variant.cumulate_war);
    assert_eq!(variant.war_king_of_spades, 5);
    assert_eq!(variant.war_king_of_hearts, 5);
    assert_eq!(variant.war_king_of_diamonds, 0);
    assert_eq!(variant.war_king_of_clubs, 0);
    assert!(variant.cumulate_blocks);
    assert!(variant.queen_of_spades_on_everything);
    assert!(variant.queen_of_hearts_on_everything);
    assert!(!variant.queen_of_diamonds_on_everything);
    assert!(!variant.queen_of_clubs_on_everything);
    assert!(variant.override_jack);
    assert!(variant.override_ace);
}

#[test]
fn kings_and_queens_by_the_default_rules() {
    let variant = MacauVariant::default();
    let king_of_spades = Card::new(Suit::Spades, Rank::King);
    assert!(variant.is_war_card(king_of_spades));
    assert_eq!(variant.get_war_value(king_of_spades), 5);
    assert!(variant.is_action_card(king_of_spades));
    let king_of_clubs = Card::new(Suit::Clubs, Rank::King);
    assert_eq!(variant.get_war_value(king_of_clubs), 0);
    assert!(!variant.is_war_card(king_of_clubs));
    assert!(!variant.is_action_card(king_of_clubs));
    assert!(!variant.is_action_card(Card::new(Suit::Diamonds, Rank::Queen)));
    assert!(variant.is_action_card(Card::new(Suit::Spades, Rank::Queen)));
    assert!(variant.is_action_card(Card::new(Suit::Hearts, Rank::Queen)));
    assert!(!variant.is_action_card(Card::new(Suit::Clubs, Rank::Queen)));
    assert_eq!(variant.get_war_value(Card::new(Suit::Hearts, Rank::King)), 5);
    assert_eq!(variant.get_war_value(Card::new(Suit::Diamonds, Rank::King)), 0);
}

#[test]
fn war_values_of_twos_and_threes() {
    let variant = MacauVariant::default();
    for suit in Suit::iter() {
        assert_eq!(variant.get_war_value(Card::new(suit, Rank::Two)), 2);
        assert_eq!(variant.get_war_value(Card::new(suit, Rank::Three)), 3);
        assert!(variant.is_war_card(Card::new(suit, Rank::Two)));
        assert_eq!(variant.get_war_value(Card::new(suit, Rank::Ace)), 0);
        assert_eq!(variant.get_war_value(Card::new(suit, Rank::Queen)), 0);
    }
    assert_eq!(variant.get_war_value(Card::new_joker(JokerColor::Red)), 0);
    assert!(!variant.is_war_card(Card::new_joker(JokerColor::Red)));
}

#[test]
fn action_cards_whatever_the_rules() {
    let mut variant = MacauVariant::default();
    variant.war_king_of_clubs = 7;
    variant.war_king_of_spades = 0;
    variant.queen_of_clubs_on_everything = true;
    variant.queen_of_spades_on_everything = false;
    assert_eq!(variant.get_war_value(Card::new(Suit::Clubs, Rank::King)), 7);
    assert!(variant.is_action_card(Card::new(Suit::Clubs, Rank::King)));
    assert!(!variant.is_action_card(Card::new(Suit::Spades, Rank::King)));
    assert!(variant.is_action_card(Card::new(Suit::Clubs, Rank::Queen)));
    assert!(!variant.is_action_card(Card::new(Suit::Spades, Rank::Queen)));
    for suit in Suit::iter() {
        for rank in [Rank::Ace, Rank::Two, Rank::Three, Rank::Four, Rank::Jack] {
            assert!(variant.is_action_card(Card::new(suit, rank)));
            assert!(!variant.can_start_game(Card::new(suit, rank)));
        }
        for rank in [Rank::Five, Rank::Six, Rank::Seven, Rank::Eight, Rank::Nine, Rank::Ten] {
            assert!(!variant.is_action_card(Card::new(suit, rank)));
            assert!(!variant.is_war_card(Card::new(suit, rank)));
            assert!(variant.can_start_game(Card::new(suit, rank)));
        }
    }
    for color in [JokerColor::Red, JokerColor::Black, JokerColor::White] {
        assert!(variant.is_action_card(Card::new_joker(color)));
        assert!(!variant.can_start_game(Card::new_joker(color)));
    }
}

#[test]
fn every_war_card_is_an_action_card() {
    let variant = MacauVariant::default();
    for code in 0..=255u8 {
        if let Ok(card) = Card::try_from(code) {
            assert_eq!(variant.is_war_card(card), variant.get_war_value(card) > 0);
            if variant.is_war_card(card) {
                assert!(variant.is_action_card(card));
            }
            assert_eq!(
                variant.can_start_game(card),
                card.is_standard_card() && !variant.is_action_card(card)
            );
        }
    }
}
