use macau::cards::hand::{Hand, HasHand};
use macau::cards::pile::Pile;
use macau::cards::{Card, JokerColor, Rank, Suit};
use macau::macau::events::{EventHandler, EventManager};
use macau::macau::variant::MacauVariant;
use macau::macau::{
    find_player, GameEndReason, GameState, MacauAction, MacauEvent, MacauGame, MacauPlayer,
    SetupError,
};
use std::cell::RefCell;
use std::rc::Rc;

/// What a handler was told, in plain values.
#[derive(Debug, Clone, PartialEq)]
enum Told {
    Start { recipient: u32, players: Vec<u32>, top_card: Card, your_cards: Vec<Card> },
    Other { recipient: u32, event: String },
}

struct Recorder {
    log: Rc<RefCell<Vec<Told>>>,
}

impl EventHandler for Recorder {
    fn handle(&self, recipient: u32, _game: &GameState, event: &MacauEvent) {
        let told = match event {
            MacauEvent::GameStart { players, top_card, your_cards } => Told::Start {
                recipient,
                players: players.iter().map(|player| player.id).collect(),
                top_card: *top_card,
                your_cards: your_cards.iter(),
            },
            other => Told::Other { recipient, event: format!("{:?}", other) },
        };
        self.log.borrow_mut().push(told);
    }
}

fn names(list: &[&str]) -> Vec<String> {
    list.iter().map(|name| name.to_string()).collect()
}

fn sorted_codes(cards: &[Card]) -> Vec<u8> {
    let mut codes: Vec<u8> = cards.iter().map(|card| card.code()).collect();
    codes.sort();
    codes
}

#[test]
fn a_new_game_is_ready_for_the_first_turn() {
    for _ in 0..50 {
        let variant = MacauVariant::default();
        let game = MacauGame::<Recorder>::new(variant, names(&["Alice", "Bob"])).unwrap();
        let state = game.state();
        assert_eq!(state.players.len(), 2);
        assert_eq!(state.players[0].name, "Alice");
        assert_eq!(state.players[1].name, "Bob");
        assert_ne!(state.players[0].id, state.players[1].id);
        assert_eq!(state.players[0].hand.iter().len(), 5);
        assert_eq!(state.players[1].hand.iter().len(), 5);
        assert_eq!(state.pile.count_total(), 45);
        let top = state.pile.try_seek().unwrap();
        assert!(top.is_standard_card());
        assert!(!variant.is_action_card(top));
        assert!(game.can_start_game(top));
        // the cards of the deck are all still there, each once
        let mut all = state.pile.cards().clone();
        all.extend(state.players[0].hand.iter());
        all.extend(state.players[1].hand.iter());
        let deck = macau::cards::deck::generate_deck(3).unwrap();
        assert_eq!(sorted_codes(&all), sorted_codes(&deck));
    }
}

#[test]
fn a_game_needs_cards_for_every_hand() {
    let mut variant = MacauVariant::default();
    variant.initial_hand = 5;
    let twelve: Vec<String> = (0..12).map(|i| format!("player {}", i)).collect();
    assert_eq!(MacauGame::<Recorder>::new(variant, twelve).err(), Some(SetupError::PileEmpty));
    // all 55 cards dealt: nothing is left to start with
    let eleven: Vec<String> = (0..11).map(|i| format!("player {}", i)).collect();
    assert_eq!(MacauGame::<Recorder>::new(variant, eleven).err(), Some(SetupError::NoStartingCard));
    variant.initial_hand = 56;
    assert_eq!(
        MacauGame::<Recorder>::new(variant, names(&["Alice"])).err(),
        Some(SetupError::PileEmpty)
    );
}

#[test]
fn a_game_without_hands_or_players_starts() {
    let mut variant = MacauVariant::default();
    variant.initial_hand = 0;
    let game = MacauGame::<Recorder>::new(variant, names(&["Alice", "Bob", "Carol"])).unwrap();
    assert_eq!(game.state().pile.count_total(), 55);
    assert!(game.state().players.iter().all(|player| player.hand.iter().is_empty()));
    assert!(variant.can_start_game(game.state().pile.try_seek().unwrap()));
    let lonely = MacauGame::<Recorder>::new(MacauVariant::default(), Vec::new()).unwrap();
    assert!(lonely.state().players.is_empty());
    assert_eq!(lonely.state().pile.count_total(), 55);
}

#[test]
fn four_players_with_five_cards_always_start() {
    // 20 cards are fewer than the 24 plain cards of a deck
    for _ in 0..100 {
        let game =
            MacauGame::<Recorder>::new(MacauVariant::default(), names(&["a", "b", "c", "d"]))
                .unwrap();
        let top = game.state().pile.try_seek().unwrap();
        assert!(game.can_start_game(top));
        assert_eq!(game.state().pile.count_total(), 35);
    }
}

#[test]
fn many_players_get_ids_of_their_own() {
    let mut variant = MacauVariant::default();
    variant.initial_hand = 0;
    let crowd: Vec<String> = (0..300).map(|i| format!("player {}", i)).collect();
    let game = MacauGame::<Recorder>::new(variant, crowd).unwrap();
    let mut ids: Vec<u32> = game.state().players.iter().map(|player| player.id).collect();
    ids.sort();
    ids.dedup();
    assert_eq!(ids.len(), 300);
}

#[test]
fn the_top_card_already_fits() {
    let mut game = MacauGame::<Recorder>::new(MacauVariant::default(), names(&["Alice"])).unwrap();
    let before = game.state().pile.cards().clone();
    assert!(!game.requires_pop_back());
    assert_eq!(game.state().pile.cards(), &before);
}

#[test]
fn each_handler_learns_of_its_own_hand_only() {
    let mut game =
        MacauGame::<Recorder>::new(MacauVariant::default(), names(&["Alice", "Bob"])).unwrap();
    let alice = game.state().players[0].id;
    let bob = game.state().players[1].id;
    let alice_log = Rc::new(RefCell::new(Vec::new()));
    let bob_log = Rc::new(RefCell::new(Vec::new()));
    assert!(game.subscribe(alice, Recorder { log: alice_log.clone() }).is_ok());
    assert!(game.subscribe(bob, Recorder { log: bob_log.clone() }).is_ok());
    game.notify_game_start();

    let alice_hand = game.state().players[0].hand.iter();
    let bob_hand = game.state().players[1].hand.iter();
    let top = game.state().pile.try_seek().unwrap();
    assert_eq!(
        *alice_log.borrow(),
        vec![Told::Start {
            recipient: alice,
            players: vec![alice, bob],
            top_card: top,
            your_cards: alice_hand.clone(),
        }]
    );
    assert_eq!(
        *bob_log.borrow(),
        vec![Told::Start {
            recipient: bob,
            players: vec![alice, bob],
            top_card: top,
            your_cards: bob_hand.clone(),
        }]
    );
    // no card of one hand only is shown to the other
    for card in &bob_hand {
        assert!(!alice_hand.contains(card));
    }
}

#[test]
fn a_stranger_cannot_follow_the_game() {
    let mut game = MacauGame::<Recorder>::new(MacauVariant::default(), names(&["Alice"])).unwrap();
    let alice = game.state().players[0].id;
    let log = Rc::new(RefCell::new(Vec::new()));
    let refused = game.subscribe(alice.wrapping_add(1), Recorder { log: log.clone() });
    assert!(refused.is_err());
    game.notify_game_start();
    assert!(log.borrow().is_empty());
}

#[test]
fn handlers_are_told_in_the_order_they_subscribed() {
    let two = Card::new(Suit::Hearts, Rank::Two);
    let nine = Card::new(Suit::Hearts, Rank::Nine);
    let mut pile = Pile::new_empty();
    pile.add_on_top(nine);
    let mut alice = MacauPlayer { id: 10, name: "Alice".to_string(), hand: Hand::new() };
    alice.deal(two);
    let bob = MacauPlayer { id: 20, name: "Bob".to_string(), hand: Hand::new() };
    let state = GameState { variant: MacauVariant::default(), pile, players: vec![alice, bob] };

    let log = Rc::new(RefCell::new(Vec::new()));
    let mut manager = EventManager::new();
    manager.subscribe(20, Recorder { log: log.clone() });
    manager.subscribe(10, Recorder { log: log.clone() });
    manager.subscribe(20, Recorder { log: log.clone() });

    manager.notify_customized(&state, GameState::game_start_event);
    let start = |recipient: u32, your_cards: Vec<Card>| Told::Start {
        recipient,
        players: vec![10, 20],
        top_card: nine,
        your_cards,
    };
    assert_eq!(*log.borrow(), vec![start(20, vec![]), start(10, vec![two]), start(20, vec![])]);

    log.borrow_mut().clear();
    let player = &state.players[0];
    let event = MacauEvent::PlayerAction { player, action: MacauAction::Play(two) };
    manager.notify_common(&state, &event);
    let recipients: Vec<u32> = log
        .borrow()
        .iter()
        .map(|told| match told {
            Told::Other { recipient, .. } => *recipient,
            Told::Start { recipient, .. } => *recipient,
        })
        .collect();
    assert_eq!(recipients, vec![20, 10, 20]);
    assert!(matches!(&log.borrow()[0], Told::Other { event, .. } if event.contains("PlayerAction")));
}

#[test]
fn events_compare_by_what_they_hold() {
    let alice = MacauPlayer { id: 1, name: "Alice".to_string(), hand: Hand::new() };
    let bob = MacauPlayer { id: 2, name: "Bob".to_string(), hand: Hand::new() };
    assert_eq!(MacauEvent::TurnStart { player: &alice }, MacauEvent::TurnStart { player: &alice });
    assert_ne!(MacauEvent::TurnStart { player: &alice }, MacauEvent::TurnStart { player: &bob });
    assert_ne!(MacauEvent::TurnStart { player: &alice }, MacauEvent::TurnEnd { player: &alice });
    assert_eq!(
        MacauEvent::GameEnd { reason: GameEndReason::PlayerWon(&bob) },
        MacauEvent::GameEnd { reason: GameEndReason::PlayerWon(&bob) }
    );
    assert_ne!(MacauAction::Draw, MacauAction::Pass);
    let cards = [Card::new_joker(JokerColor::Red)];
    assert_eq!(MacauAction::PlayMultiple(&cards), MacauAction::PlayMultiple(&cards));
}

#[test]
fn players_are_found_by_id() {
    let players = vec![
        MacauPlayer { id: 5, name: "Alice".to_string(), hand: Hand::new() },
        MacauPlayer { id: 9, name: "Bob".to_string(), hand: Hand::new() },
    ];
    assert_eq!(find_player(&players, 9), Some(1));
    assert_eq!(find_player(&players, 5), Some(0));
    assert_eq!(find_player(&players, 6), None);
    let mut pile = Pile::new_empty();
    pile.add_on_top(Card::new(Suit::Hearts, Rank::Nine));
    let state = GameState { variant: MacauVariant::default(), pile, players };
    assert_eq!(state.get_player_by_id(9).unwrap().name, "Bob");
    assert!(state.get_player_by_id(1).is_none());
    assert!(state.can_start_game(Card::new(Suit::Hearts, Rank::Nine)));
    assert!(!state.can_start_game(Card::new(Suit::Hearts, Rank::Two)));
}

#[test]
fn a_game_in_words() {
    let mut pile = Pile::new_empty();
    pile.add_on_top(Card::new(Suit::Hearts, Rank::Nine));
    let mut alice = MacauPlayer { id: 10, name: "Alice".to_string(), hand: Hand::new() };
    alice.deal(Card::new(Suit::Spades, Rank::Two));
    alice.deal(Card::new(Suit::Clubs, Rank::Ten));
    let bob = MacauPlayer { id: 20, name: "Bob".to_string(), hand: Hand::new() };
    let state = GameState { variant: MacauVariant::default(), pile, players: vec![alice, bob] };
    assert_eq!(
        state.to_string(),
        "MacauGame {\nPile with 1 cards, ♥9 on top\nAlice: ♣10, ♠2\nBob: \n}"
    );
}
