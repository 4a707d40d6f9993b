//! The rule set of a game, and how it classifies cards.

use crate::cards::{Card, CardFace, Rank, Suit};
use vstd::prelude::*;

verus! {

/// The rules that one game is played by. They are set when the game starts
/// and only read afterwards.
#[derive(Debug, Clone, Copy)]
pub struct MacauVariant {
    pub initial_hand: u8,
    pub cumulate_war: bool,
    pub war_king_of_spades: u8,
    pub war_king_of_hearts: u8,
    pub war_king_of_diamonds: u8,
    pub war_king_of_clubs: u8,
    pub cumulate_blocks: bool,
    pub queen_of_spades_on_everything: bool,
    pub queen_of_hearts_on_everything: bool,
    pub queen_of_diamonds_on_everything: bool,
    pub queen_of_clubs_on_everything: bool,
    pub override_jack: bool,
    pub override_ace: bool,
}

impl Default for MacauVariant {
    fn default() -> (variant: MacauVariant)
        ensures
            variant == (MacauVariant {
                initial_hand: 5,
                cumulate_war: true,
                war_king_of_spades: 5,
                war_king_of_hearts: 5,
                war_king_of_diamonds: 0,
                war_king_of_clubs: 0,
                cumulate_blocks: true,
                queen_of_spades_on_everything: true,
                queen_of_hearts_on_everything: true,
                queen_of_diamonds_on_everything: false,
                queen_of_clubs_on_everything: false,
                override_jack: true,
                override_ace: true,
            }),
    {
        MacauVariant {
            initial_hand: 5,
            cumulate_war: true,
            war_king_of_spades: 5,
            war_king_of_hearts: 5,
            war_king_of_diamonds: 0,
            war_king_of_clubs: 0,
            cumulate_blocks: true,
            queen_of_spades_on_everything: true,
            queen_of_hearts_on_everything: true,
            queen_of_diamonds_on_everything: false,
            queen_of_clubs_on_everything: false,
            override_jack: true,
            override_ace: true,
        }
    }
}

impl MacauVariant {
    /// What the king of a suit adds to a war; 0 where that king starts none.
    pub open spec fn war_king(&self, suit: Suit) -> u8 {
        match suit {
            Suit::Spades => self.war_king_of_spades,
            Suit::Hearts => self.war_king_of_hearts,
            Suit::Diamonds => self.war_king_of_diamonds,
            Suit::Clubs => self.war_king_of_clubs,
        }
    }

    /// Whether the queen of a suit may be played on everything.
    pub open spec fn queen_on_everything(&self, suit: Suit) -> bool {
        match suit {
            Suit::Spades => self.queen_of_spades_on_everything,
            Suit::Hearts => self.queen_of_hearts_on_everything,
            Suit::Diamonds => self.queen_of_diamonds_on_everything,
            Suit::Clubs => self.queen_of_clubs_on_everything,
        }
    }

    /// The number of cards that a card adds to a war: 2 for a two, 3 for a
    /// three, for a king what the rules set for its suit, 0 for all others.
    pub open spec fn spec_get_war_value(&self, card: Card) -> u8 {
        match card@ {
            CardFace::Standard { suit, rank: Rank::Two } => 2,
            CardFace::Standard { suit, rank: Rank::Three } => 3,
            CardFace::Standard { suit, rank: Rank::King } => self.war_king(suit),
            _ => 0,
        }
    }

    /// Whether the card adds to a war.
    pub open spec fn spec_is_war_card(&self, card: Card) -> bool {
        self.get_war_value(card) > 0
    }

    /// Whether playing the card has an effect of its own: every joker; ace,
    /// two, three, four and jack; a queen whose suit the rules let be played
    /// on everything; a king that is a war card.
    pub open spec fn spec_is_action_card(&self, card: Card) -> bool {
        match card@ {
            CardFace::Joker { .. } => true,
            CardFace::Standard { suit, rank } => match rank {
                Rank::Ace | Rank::Two | Rank::Three | Rank::Four | Rank::Jack => true,
                Rank::Queen => self.queen_on_everything(suit),
                Rank::King => self.war_king(suit) > 0,
                _ => false,
            },
        }
    }

    /// Whether a game can start with the card on top: a standard card that
    /// is no action card.
    pub open spec fn spec_can_start_game(&self, card: Card) -> bool {
        card.is_standard_card() && !self.is_action_card(card)
    }

    /// The number of cards that the card adds to a war.
    #[verifier::when_used_as_spec(spec_get_war_value)]
    pub fn get_war_value(&self, card: Card) -> (value: u8)
        ensures
            value == self.spec_get_war_value(card),
    {
        match card.rank() {
            Some(Rank::Two) => 2,
            Some(Rank::Three) => 3,
            Some(Rank::King) => match card.suit() {
                Some(Suit::Spades) => self.war_king_of_spades,
                Some(Suit::Hearts) => self.war_king_of_hearts,
                Some(Suit::Diamonds) => self.war_king_of_diamonds,
                Some(Suit::Clubs) => self.war_king_of_clubs,
                _ => 0,
            },
            _ => 0,
        }
    }

    /// Whether the card adds to a war.
    #[verifier::when_used_as_spec(spec_is_war_card)]
    pub fn is_war_card(&self, card: Card) -> (b: bool)
        ensures
            b == self.spec_is_war_card(card),
    {
        self.get_war_value(card) > 0
    }

    /// Whether playing the card has an effect of its own.
    #[verifier::when_used_as_spec(spec_is_action_card)]
    pub fn is_action_card(&self, card: Card) -> (b: bool)
        ensures
            b == self.spec_is_action_card(card),
    {
        match card.rank() {
            Some(Rank::Ace) => true,
            Some(Rank::Two) => true,
            Some(Rank::Three) => true,
            Some(Rank::Four) => true,
            Some(Rank::Jack) => true,
            Some(Rank::Queen) => match card.suit() {
                Some(Suit::Spades) => self.queen_of_spades_on_everything,
                Some(Suit::Hearts) => self.queen_of_hearts_on_everything,
                Some(Suit::Diamonds) => self.queen_of_diamonds_on_everything,
                Some(Suit::Clubs) => self.queen_of_clubs_on_everything,
                _ => false,
            },
            Some(Rank::King) => self.get_war_value(card) > 0,
            _ => card.is_joker(),
        }
    }

    /// Whether a game can start with the card on top.
    #[verifier::when_used_as_spec(spec_can_start_game)]
    pub fn can_start_game(&self, card: Card) -> (b: bool)
        ensures
            b == self.spec_can_start_game(card),
    {
        card.is_standard_card() && !self.is_action_card(card)
    }

    /// Every war card is an action card, and cards of the ranks five to ten
    /// are neither, whatever the rules.
    pub proof fn lemma_war_cards_are_action_cards(&self, card: Card)
        ensures
            self.is_war_card(card) ==> self.is_action_card(card),
            card@ is Standard && Rank::Five.ordinal() <= card@->rank.ordinal()
                <= Rank::Ten.ordinal() ==> self.can_start_game(card) && !self.is_war_card(card),
    {
    }
}

} // verus!
