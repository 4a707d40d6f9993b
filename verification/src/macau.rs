//! The game of Macau: its rules, its players and its setup.

use crate::cards::deck::{deck_card, generate_deck, single_deck};
use crate::cards::hand::{cards_text, Hand, HasHand};
use crate::cards::pile::{Pile, PileEmptyError};
use crate::cards::{Card, CardFace, Rank, Suit};
use crate::macau::events::{EventHandler, EventManager};
use crate::macau::variant::MacauVariant;
use vstd::multiset::Multiset;
use vstd::prelude::*;
use vstd::seq_lib::{
    to_multiset_build, to_multiset_contains, to_multiset_len, to_multiset_remove, to_multiset_update,
};
use vstd::set_lib::{lemma_int_range, lemma_len_subset, set_int_range};
use vstd::std_specs::cmp::PartialEqSpecImpl;

pub mod events;
pub mod variant;

verus! {

/// One who plays: known by an id, called by a name, holding a hand.
#[derive(Debug)]
pub struct MacauPlayer {
    pub id: u32,
    pub name: String,
    pub hand: Hand,
}

impl PartialEq for MacauPlayer {
    /// Players are the same where their ids are: name and hand change.
    fn eq(&self, other: &Self) -> (b: bool) {
        self.id == other.id
    }
}

impl PartialEqSpecImpl for MacauPlayer {
    open spec fn obeys_eq_spec() -> bool {
        true
    }

    open spec fn eq_spec(&self, other: &MacauPlayer) -> bool {
        self.id == other.id
    }
}

impl Eq for MacauPlayer {

}

impl HasHand for MacauPlayer {
    open spec fn spec_hand(&self) -> Hand {
        self.hand
    }

    fn hand(&self) -> (hand: &Hand) {
        &self.hand
    }

    fn hand_mut(&mut self) -> (hand: &mut Hand)
        ensures
            final(self).id == old(self).id,
            final(self).name == old(self).name,
    {
        &mut self.hand
    }

    fn deal(&mut self, card: Card)
        ensures
            final(self).id == old(self).id,
            final(self).name == old(self).name,
    {
        self.hand.add_card(card);
    }
}

/// What a player does in a turn.
#[derive(Debug, Clone, Copy, Eq, PartialEq)]
pub enum MacauAction<'a> {
    Play(Card),
    PlayMultiple(&'a [Card]),
    Draw,
    DeclareMacau,
    Pass,
}

/// Why a game ended.
#[derive(Debug, Clone, Copy, Eq, PartialEq)]
pub enum GameEndReason<'a> {
    PlayerWon(&'a MacauPlayer),
    NotEnoughPlayers,
}

/// A milestone of a game, as one who follows the game is told of it.
#[derive(Debug, Clone, Copy, Eq, PartialEq)]
pub enum MacauEvent<'a> {
    GameStart { players: &'a [MacauPlayer], top_card: Card, your_cards: &'a Hand },
    TurnStart { player: &'a MacauPlayer },
    TurnBlocked { player: &'a MacauPlayer },
    PlayerAction { player: &'a MacauPlayer, action: MacauAction<'a> },
    TurnEnd { player: &'a MacauPlayer },
    AddCards { player: &'a MacauPlayer, cards: &'a [Card] },
    GameEnd { reason: GameEndReason<'a> },
}

/// Whether one of the players has the id.
pub open spec fn has_player(players: Seq<MacauPlayer>, id: u32) -> bool {
    exists|i: int| 0 <= i < players.len() && (#[trigger] players[i]).id == id
}

/// Whether no two of the players have one id.
pub open spec fn distinct_ids(players: Seq<MacauPlayer>) -> bool {
    forall|i: int, j: int|
        0 <= i < j < players.len() ==> (#[trigger] players[i]).id != (#[trigger] players[j]).id
}

/// `rand::random` for `u32`, fed by the thread's generator. Any number may
/// come back, so nothing is said of it.
#[verifier::external_body]
fn random_id() -> (id: u32) {
    rand::random()
}

/// The first player with the id, if any has it.
pub fn find_player(players: &Vec<MacauPlayer>, id: u32) -> (found: Option<usize>)
    ensures
        found is None <==> !has_player(players@, id),
        found matches Some(i) ==> i < players@.len() && players@[i as int].id == id && forall|
            k: int,
        | 0 <= k < i ==> (#[trigger] players@[k]).id != id,
{
    let mut i: usize = 0;
    while i < players.len()
        invariant
            i <= players.len(),
            forall|k: int| 0 <= k < i ==> (#[trigger] players@[k]).id != id,
        decreases players.len() - i,
    {
        if players[i].id == id {
            return Some(i);
        }
        i += 1;
    }
    None
}

/// As many players as have the ids `0` up to `count - 1` among them are at
/// least `count`.
proof fn lemma_ids_in_use(players: Seq<MacauPlayer>, count: int)
    requires
        0 <= count,
        forall|id: int| 0 <= id < count ==> has_player(players, #[trigger] (id as u32)),
        count <= u32::MAX + 1,
    ensures
        count <= players.len(),
{
    let ids = Seq::new(players.len(), |i: int| players[i].id as int);
    let low = set_int_range(0, count);
    lemma_int_range(0, count);
    ids.lemma_cardinality_of_set();
    assert forall|id: int| low.contains(id) implies ids.to_set().contains(id) by {
        assert(has_player(players, id as u32));
        let i = choose|i: int| 0 <= i < players.len() && (#[trigger] players[i]).id == id as u32;
        assert(ids[i] == id);
    }
    lemma_len_subset(low, ids.to_set());
}

/// An id for a new player: a random number, or, where a player has that
/// number already, the smallest number that no player has.
fn fresh_id(players: &Vec<MacauPlayer>) -> (id: u32)
    requires
        players@.len() <= u32::MAX,
    ensures
        !has_player(players@, id),
{
    let candidate: u32 = random_id();
    if find_player(players, candidate).is_none() {
        return candidate;
    }
    let mut id: u32 = 0;
    while find_player(players, id).is_some()
        invariant
            players@.len() <= u32::MAX,
            forall|used: int| 0 <= used < id ==> has_player(players@, #[trigger] (used as u32)),
        decreases players@.len() - id,
    {
        proof {
            assert forall|used: int| 0 <= used < id + 1 implies has_player(
                players@,
                #[trigger] (used as u32),
            ) by {
                if used == id {
                    assert(used as u32 == id);
                }
            }
            lemma_ids_in_use(players@, id + 1);
        }
        id += 1;
    }
    id
}

/// How many of the cards a game can start with, by the rules.
pub open spec fn startable_count(cards: Seq<Card>, variant: MacauVariant) -> nat
    decreases cards.len(),
{
    if cards.len() == 0 {
        0
    } else {
        startable_count(cards.drop_last(), variant) + if variant.can_start_game(cards.last()) {
            1nat
        } else {
            0nat
        }
    }
}

/// No more cards are counted than there are.
pub proof fn lemma_startable_count_bound(cards: Seq<Card>, variant: MacauVariant)
    ensures
        startable_count(cards, variant) <= cards.len(),
    decreases cards.len(),
{
    if cards.len() > 0 {
        lemma_startable_count_bound(cards.drop_last(), variant);
    }
}

/// Taking one card out lowers the count by one if a game can start with that
/// card, and else leaves it.
pub proof fn lemma_startable_count_remove(cards: Seq<Card>, variant: MacauVariant, i: int)
    requires
        0 <= i < cards.len(),
    ensures
        startable_count(cards, variant) == startable_count(cards.remove(i), variant)
            + if variant.can_start_game(cards[i]) {
            1nat
        } else {
            0nat
        },
    decreases cards.len(),
{
    if i == cards.len() - 1 {
        assert(cards.remove(i) == cards.drop_last());
    } else {
        lemma_startable_count_remove(cards.drop_last(), variant, i);
        assert(cards.remove(i).drop_last() == cards.drop_last().remove(i));
        assert(cards.remove(i).last() == cards.last());
    }
}

/// The count goes by which cards there are and how often, not by their
/// order: a shuffle keeps it.
pub proof fn lemma_startable_count_shuffled(a: Seq<Card>, b: Seq<Card>, variant: MacauVariant)
    requires
        a.to_multiset() == b.to_multiset(),
    ensures
        startable_count(a, variant) == startable_count(b, variant),
    decreases a.len(),
{
    to_multiset_len(a);
    to_multiset_len(b);
    if a.len() > 0 {
        let card = a.last();
        assert(a == a.drop_last().push(card));
        to_multiset_build(a.drop_last(), card);
        assert(b.to_multiset().count(card) > 0);
        to_multiset_contains(b, card);
        let j = choose|j: int| 0 <= j < b.len() && b[j] == card;
        to_multiset_remove(b, j);
        assert(a.drop_last().to_multiset() =~= b.remove(j).to_multiset());
        lemma_startable_count_shuffled(a.drop_last(), b.remove(j), variant);
        lemma_startable_count_remove(b, variant, j);
    }
}

/// Where the count is above zero, a game can start with one of the cards.
pub proof fn lemma_startable_card_exists(cards: Seq<Card>, variant: MacauVariant)
    requires
        startable_count(cards, variant) > 0,
    ensures
        exists|i: int| 0 <= i < cards.len() && variant.can_start_game(#[trigger] cards[i]),
    decreases cards.len(),
{
    if !variant.can_start_game(cards.last()) {
        lemma_startable_card_exists(cards.drop_last(), variant);
        let i = choose|i: int|
            0 <= i < cards.drop_last().len() && variant.can_start_game(
                #[trigger] cards.drop_last()[i],
            );
        assert(cards[i] == cards.drop_last()[i]);
    } else {
        assert(variant.can_start_game(cards[cards.len() - 1]));
    }
}

/// The number of cards of the ranks five to ten among the first cards of a
/// deck.
pub open spec fn plain_cards_before(place: int) -> int {
    if place >= 52 {
        24
    } else {
        6 * (place / 13) + if place % 13 <= 4 {
            0
        } else if place % 13 >= 10 {
            6
        } else {
            place % 13 - 4
        }
    }
}

/// Among the first cards of a deck a game can start with each card of the
/// ranks five to ten, whatever the rules.
proof fn lemma_startable_in_deck_prefix(variant: MacauVariant, place: int)
    requires
        0 <= place <= 55,
    ensures
        startable_count(single_deck(3).take(place), variant) >= plain_cards_before(place),
    decreases place,
{
    if place > 0 {
        let prefix = single_deck(3).take(place);
        lemma_startable_in_deck_prefix(variant, place - 1);
        assert(prefix.drop_last() == single_deck(3).take(place - 1));
        assert(prefix.last() == deck_card(place - 1));
        if place - 1 < 52 {
            let suit = Suit::from_ordinal((place - 1) / 13);
            let rank = Rank::from_ordinal((place - 1) % 13 + 1);
            Card::lemma_of_face(CardFace::Standard { suit, rank });
            variant.lemma_war_cards_are_action_cards(deck_card(place - 1));
        }
    }
}

/// A game can start with at least 24 cards of a deck, whatever the rules:
/// the cards of the ranks five to ten.
pub proof fn lemma_startable_in_deck(variant: MacauVariant)
    ensures
        startable_count(single_deck(3), variant) >= 24,
{
    lemma_startable_in_deck_prefix(variant, 55);
    assert(single_deck(3).take(55) == single_deck(3));
}

/// The cards that the players hold, each as often as it is held.
pub open spec fn cards_in_hands(players: Seq<MacauPlayer>) -> Multiset<Card>
    decreases players.len(),
{
    if players.len() == 0 {
        Multiset::empty()
    } else {
        cards_in_hands(players.drop_last()).add(players.last().hand@.to_multiset())
    }
}

/// Whether a game can start with one of the cards, by the rules.
pub open spec fn has_startable(cards: Seq<Card>, variant: MacauVariant) -> bool {
    exists|i: int| 0 <= i < cards.len() && variant.can_start_game(#[trigger] cards[i])
}

/// Whether a game can start with one of the cards goes by which cards there
/// are, not by their order.
proof fn lemma_has_startable_shuffled(a: Seq<Card>, b: Seq<Card>, variant: MacauVariant)
    requires
        a.to_multiset() == b.to_multiset(),
        has_startable(a, variant),
    ensures
        has_startable(b, variant),
{
    let i = choose|i: int| 0 <= i < a.len() && variant.can_start_game(#[trigger] a[i]);
    assert(a.contains(a[i]));
    to_multiset_contains(a, a[i]);
    to_multiset_contains(b, a[i]);
    let j = choose|j: int| 0 <= j < b.len() && b[j] == a[i];
    assert(variant.can_start_game(b[j]));
}

/// Drawing the card on top and putting it back at the end keeps the cards
/// of a pile.
proof fn lemma_pop_back_keeps_cards(cards: Seq<Card>, at: int)
    requires
        0 <= at < cards.len(),
    ensures
        cards.update(at, cards.last()).drop_last().push(cards[at]).to_multiset()
            == cards.to_multiset(),
{
    broadcast use vstd::multiset::group_multiset_axioms;

    let moved = cards.update(at, cards.last());
    if at == cards.len() - 1 {
        assert(moved.drop_last().push(cards[at]) == cards);
    } else {
        let all = cards.to_multiset();
        let card = cards[at];
        let last = cards.last();
        to_multiset_update(cards, at, last);
        assert(moved.drop_last() == moved.remove(moved.len() - 1));
        to_multiset_remove(moved, moved.len() - 1);
        to_multiset_build(moved.drop_last(), card);
        assert(cards.contains(card) && cards.contains(last));
        to_multiset_contains(cards, card);
        to_multiset_contains(cards, last);
        let after = moved.drop_last().push(card).to_multiset();
        assert(after == all.insert(last).remove(card).remove(last).insert(card));
        assert forall|c: Card| after.count(c) == all.count(c) by {
            assert(all.insert(last).count(c) == all.count(c) + if c == last {
                1int
            } else {
                0int
            });
        }
        assert(after =~= all);
    }
}

/// Makes one player for each name, each with an id that no other has, and
/// deals each of them a full hand from the pile, player after player. Fails
/// where the pile has fewer cards than the hands take.
fn deal_hands(pile: &mut Pile, player_names: &Vec<String>, variant: &MacauVariant) -> (r: Result<
    Vec<MacauPlayer>,
    PileEmptyError,
>)
    requires
        old(pile).wf(),
        old(pile).count_accessible() == old(pile)@.len(),
        player_names@.len() <= u32::MAX,
    ensures
        final(pile).wf(),
        final(pile).count_accessible() == final(pile)@.len(),
        r is Err <==> player_names@.len() * variant.initial_hand > old(pile)@.len(),
        r matches Ok(players) ==> {
            &&& final(pile)@.len() + player_names@.len() * variant.initial_hand == old(pile)@.len()
            &&& startable_count(final(pile)@, *variant) + player_names@.len()
                * variant.initial_hand >= startable_count(old(pile)@, *variant)
            &&& final(pile)@.to_multiset().add(cards_in_hands(players@)) == old(
                pile,
            )@.to_multiset()
            &&& players@.len() == player_names@.len()
            &&& distinct_ids(players@)
            &&& forall|k: int|
                0 <= k < players@.len() ==> {
                    &&& (#[trigger] players@[k]).name == player_names@[k]
                    &&& players@[k].hand.wf()
                    &&& players@[k].hand@.len() == variant.initial_hand
                }
        },
{
    let ghost cards_at_first = pile@.len();
    let ghost count_at_first = startable_count(pile@, *variant);
    let ghost hand_size = variant.initial_hand as int;
    let mut players: Vec<MacauPlayer> = Vec::with_capacity(player_names.len());
    let mut i: usize = 0;
    while i < player_names.len()
        invariant
            i <= player_names@.len() <= u32::MAX,
            hand_size == variant.initial_hand,
            cards_at_first == old(pile)@.len(),
            count_at_first == startable_count(old(pile)@, *variant),
            pile.wf(),
            pile.count_accessible() == pile@.len(),
            pile@.len() + i * hand_size == cards_at_first,
            startable_count(pile@, *variant) + i * hand_size >= count_at_first,
            pile@.to_multiset().add(cards_in_hands(players@)) == old(pile)@.to_multiset(),
            players@.len() == i,
            distinct_ids(players@),
            forall|k: int|
                0 <= k < i ==> {
                    &&& (#[trigger] players@[k]).name == player_names@[k]
                    &&& players@[k].hand.wf()
                    &&& players@[k].hand@.len() == hand_size
                },
        decreases player_names@.len() - i,
    {
        let mut player = MacauPlayer {
            id: fresh_id(&players),
            name: player_names[i].clone(),
            hand: Hand::new(),
        };
        proof {
            to_multiset_len(player.hand@);
            assert(player.hand@.to_multiset() =~= Multiset::empty());
            assert(pile@.to_multiset().add(cards_in_hands(players@)).add(Multiset::empty())
                =~= pile@.to_multiset().add(cards_in_hands(players@)));
        }
        let mut dealt: u8 = 0;
        while dealt < variant.initial_hand
            invariant
                i < player_names@.len(),
                dealt <= variant.initial_hand,
                hand_size == variant.initial_hand,
                cards_at_first == old(pile)@.len(),
                pile.wf(),
                pile.count_accessible() == pile@.len(),
                pile@.len() + i * hand_size + dealt == cards_at_first,
                startable_count(pile@, *variant) + i * hand_size + dealt >= count_at_first,
                pile@.to_multiset().add(cards_in_hands(players@)).add(player.hand@.to_multiset())
                    == old(pile)@.to_multiset(),
                player.name == player_names@[i as int],
                !has_player(players@, player.id),
                player.hand.wf(),
                player.hand@.len() == dealt,
            decreases variant.initial_hand - dealt,
        {
            let ghost before = pile@;
            match pile.pop() {
                Some(card) => {
                    let ghost held = player.hand@.to_multiset();
                    assert(before.update(before.len() - 1, before.last()) == before);
                    assert(pile@ == before.drop_last());
                    player.deal(card);
                    proof {
                        assert(before == pile@.push(card));
                        to_multiset_build(pile@, card);
                        assert(pile@.to_multiset().add(cards_in_hands(players@)).add(
                            held.insert(card),
                        ) =~= pile@.to_multiset().insert(card).add(cards_in_hands(players@)).add(
                            held,
                        ));
                    }
                },
                None => {
                    proof {
                        assert(i * hand_size + dealt < player_names@.len() * hand_size)
                            by (nonlinear_arith)
                            requires
                                0 <= i < player_names@.len(),
                                0 <= dealt < hand_size,
                        ;
                    }
                    return Err(PileEmptyError);
                },
            }
            dealt += 1;
        }
        proof {
            assert((i + 1) * hand_size == i * hand_size + hand_size) by (nonlinear_arith);
            assert(players@.push(player).drop_last() == players@);
            assert(pile@.to_multiset().add(cards_in_hands(players@.push(player)))
                =~= pile@.to_multiset().add(cards_in_hands(players@)).add(
                player.hand@.to_multiset(),
            ));
            assert forall|a: int, b: int| 0 <= a < b < players@.push(player).len() implies (
            #[trigger] players@.push(player)[a]).id != (#[trigger] players@.push(player)[b]).id by {
                if b == players@.len() {
                    assert(players@.push(player)[a] == players@[a]);
                }
            }
        }
        players.push(player);
        i += 1;
    }
    Ok(players)
}

/// Looks for a card to start the game with, from the top of the pile down.
/// A card on top that no game can start with is drawn and put back at the
/// end of the pile, where it waits for the next shuffle. Says whether such a
/// card was found; it is then on top.
fn turn_up_starting_card(pile: &mut Pile, variant: &MacauVariant) -> (found: bool)
    requires
        old(pile).wf(),
        old(pile).count_accessible() == old(pile)@.len(),
    ensures
        final(pile).wf(),
        final(pile)@.to_multiset() == old(pile)@.to_multiset(),
        final(pile)@.len() == old(pile)@.len(),
        found <==> has_startable(old(pile)@, *variant),
        found ==> final(pile).top() is Some && variant.can_start_game(final(pile).top()->0),
{
    while pile.count_accessible() > 0
        invariant
            pile.wf(),
            pile@.to_multiset() == old(pile)@.to_multiset(),
            pile@.len() == old(pile)@.len(),
            forall|k: int|
                pile.count_accessible() <= k < pile@.len() ==> !variant.can_start_game(
                    #[trigger] pile@[k],
                ),
        decreases pile.count_accessible(),
    {
        let ghost before = pile@;
        let ghost boundary = pile.count_accessible() as int;
        let card = pile.seek().unwrap();
        if variant.can_start_game(card) {
            proof {
                assert(variant.can_start_game(pile@[boundary - 1]));
                lemma_has_startable_shuffled(pile@, old(pile)@, *variant);
            }
            return true;
        }
        pile.pop();
        pile.add_card(card);
        proof {
            lemma_pop_back_keeps_cards(before, boundary - 1);
            assert forall|k: int| boundary - 1 <= k < pile@.len() implies !variant.can_start_game(
                #[trigger] pile@[k],
            ) by {
                if k == pile@.len() - 1 {
                    assert(pile@[k] == card);
                } else if k == boundary - 1 {
                    assert(pile@[k] == before.last());
                } else {
                    assert(pile@[k] == before[k]);
                }
            }
        }
    }
    proof {
        if has_startable(old(pile)@, *variant) {
            lemma_has_startable_shuffled(old(pile)@, pile@, *variant);
        }
    }
    false
}

/// What a game holds of itself, for all to read: its rules, its pile and its
/// players in their order.
pub struct GameState {
    pub variant: MacauVariant,
    pub pile: Pile,
    pub players: Vec<MacauPlayer>,
}

/// A game: its state, and those who follow it.
pub struct MacauGame<H: EventHandler> {
    state: GameState,
    event_manager: EventManager<H>,
}

/// Why a game could not be set up.
#[derive(Debug, Clone, Copy, PartialEq, Eq, Structural)]
pub enum SetupError {
    /// There are more players than ids to tell them apart.
    TooManyPlayers,
    /// The pile had no card left before every hand was dealt.
    PileEmpty,
    /// None of the cards left in the pile can start the game.
    NoStartingCard,
}

impl<'a> MacauEvent<'a> {
    /// Whether the event may be told to the one who follows the game for the
    /// player `recipient`: what it holds is what the game holds, and of the
    /// hands it shows only that player's own. The start of a game shows all
    /// players, the card on top of the pile, and as `your_cards` the hand of
    /// the player `recipient`.
    pub open spec fn meant_for(&self, game: &GameState, recipient: u32) -> bool {
        match *self {
            MacauEvent::GameStart { players, top_card, your_cards } => {
                &&& players@ == game.players@
                &&& Some(top_card) == game.pile.top()
                &&& exists|i: int|
                    0 <= i < game.players@.len() && (#[trigger] game.players@[i]).id == recipient
                        && *your_cards == game.players@[i].hand
            },
            _ => true,
        }
    }
}

/// The start of a game, as it is told to the one who follows the game for a
/// player, shows as `your_cards` the hand of that player, and so no card that
/// only another player holds.
pub proof fn lemma_game_start_shows_own_hand(event: MacauEvent, game: &GameState, player: int)
    requires
        game.wf(),
        0 <= player < game.players@.len(),
        event is GameStart,
        event.meant_for(game, game.players@[player].id),
    ensures
        *event->your_cards == game.players@[player].hand,
        event->players@ == game.players@,
        Some(event->top_card) == game.pile.top(),
{
}

impl GameState {
    /// The pile has a card on top, the players' hands are well formed, and no
    /// two players have one id.
    pub open spec fn wf(&self) -> bool {
        &&& self.pile.wf()
        &&& self.pile.top() is Some
        &&& forall|i: int| 0 <= i < self.players@.len() ==> (#[trigger] self.players@[i]).hand.wf()
        &&& distinct_ids(self.players@)
    }

    /// All cards of the game: those of the pile and those that the players
    /// hold, each as often as it is there.
    pub open spec fn all_cards(&self) -> Multiset<Card> {
        self.pile@.to_multiset().add(cards_in_hands(self.players@))
    }

    /// The first player with the id, if any has it.
    pub fn get_player_by_id(&self, id: u32) -> (player: Option<&MacauPlayer>)
        ensures
            player is None <==> !has_player(self.players@, id),
            player matches Some(p) ==> p.id == id && exists|i: int|
                0 <= i < self.players@.len() && *p == #[trigger] self.players@[i],
    {
        match find_player(&self.players, id) {
            Some(i) => Some(&self.players[i]),
            None => None,
        }
    }

    /// Whether the game can start with the card on top: a standard card that
    /// is no action card by the rules of this game.
    pub fn can_start_game(&self, card: Card) -> (b: bool)
        ensures
            b == self.variant.can_start_game(card),
    {
        card.is_standard_card() && !self.variant.is_action_card(card)
    }

    /// The start of the game as the player with the id is told of it: all
    /// players, the card on top of the pile, and that player's own hand.
    pub fn game_start_event(&self, id: u32) -> (event: MacauEvent<'_>)
        requires
            self.wf(),
            has_player(self.players@, id),
        ensures
            event is GameStart,
            event.meant_for(self, id),
    {
        MacauEvent::GameStart {
            players: self.players.as_slice(),
            top_card: self.pile.try_seek().unwrap(),
            your_cards: self.get_player_by_id(id).unwrap().hand(),
        }
    }
}

impl<H: EventHandler> MacauGame<H> {
    /// What the game holds of itself.
    pub closed spec fn spec_state(&self) -> &GameState {
        &self.state
    }

    /// The ids that those who follow the game follow it for, in the order in
    /// which they subscribed.
    pub closed spec fn spec_subscribers(&self) -> Seq<u32> {
        self.event_manager.ids()
    }

    /// The state of the game is well formed, and whoever follows the game
    /// follows it for one of its players.
    pub open spec fn wf(&self) -> bool {
        &&& self.spec_state().wf()
        &&& forall|i: int|
            0 <= i < self.spec_subscribers().len() ==> has_player(
                self.spec_state().players@,
                #[trigger] self.spec_subscribers()[i],
            )
    }

    /// What the game holds of itself.
    #[verifier::when_used_as_spec(spec_state)]
    pub fn state(&self) -> (state: &GameState)
        ensures
            state == self.spec_state(),
    {
        &self.state
    }

    /// Sets up a game: one player for each name, each with an id of its own;
    /// a shuffled pile of one deck with three jokers; a hand of
    /// `variant.initial_hand` cards for each player, dealt player after
    /// player; and on top of the pile a card that the game can start with,
    /// each card found there before it having been put back into the pile.
    /// Those who follow the game are then told of its start.
    ///
    /// The setup succeeds whenever the hands take fewer cards than the deck
    /// has cards to start a game with, and that is so whenever they take
    /// fewer than 24. Where they take more, it is up to the shuffle whether
    /// such a card is left.
    pub fn new(variant: MacauVariant, player_names: Vec<String>) -> (r: Result<
        MacauGame<H>,
        SetupError,
    >)
        ensures
            r matches Ok(game) ==> {
                &&& game.wf()
                &&& game.state().variant == variant
                &&& variant.can_start_game(game.state().pile.top()->0)
                &&& game.state().pile@.len() + player_names@.len() * variant.initial_hand == 55
                &&& game.state().all_cards() == single_deck(3).to_multiset()
                &&& game.state().players@.len() == player_names@.len()
                &&& forall|k: int|
                    0 <= k < player_names@.len() ==> {
                        &&& (#[trigger] game.state().players@[k]).name == player_names@[k]
                        &&& game.state().players@[k].hand@.len() == variant.initial_hand
                    }
                &&& game.spec_subscribers() == Seq::<u32>::empty()
            },
            player_names@.len() <= u32::MAX && player_names@.len() * variant.initial_hand
                < startable_count(single_deck(3), variant) ==> r is Ok,
            player_names@.len() <= u32::MAX && player_names@.len() * variant.initial_hand < 24
                ==> r is Ok,
            r matches Err(error) ==> {
                &&& error == SetupError::TooManyPlayers <==> player_names@.len() > u32::MAX
                &&& error == SetupError::PileEmpty <==> player_names@.len() <= u32::MAX
                    && player_names@.len() * variant.initial_hand > 55
            },
    {
        proof {
            lemma_startable_in_deck(variant);
        }
        if player_names.len() > u32::MAX as usize {
            return Err(SetupError::TooManyPlayers);
        }
        let mut pile = Pile::of(generate_deck(3).unwrap());
        pile.shuffle();
        proof {
            lemma_startable_count_shuffled(single_deck(3), pile@, variant);
            lemma_startable_count_bound(single_deck(3), variant);
        }
        let players = match deal_hands(&mut pile, &player_names, &variant) {
            Ok(players) => players,
            Err(_) => {
                return Err(SetupError::PileEmpty);
            },
        };
        proof {
            if startable_count(pile@, variant) > 0 {
                lemma_startable_card_exists(pile@, variant);
            }
        }
        if !turn_up_starting_card(&mut pile, &variant) {
            return Err(SetupError::NoStartingCard);
        }
        let game = MacauGame { state: GameState { variant, pile, players }, event_manager: EventManager::new() };
        game.notify_game_start();
        Ok(game)
    }

    /// Looks at the card on top of the pile, as [`Pile::seek`] does, and says
    /// whether it has to leave the top because no game can start with it.
    pub fn requires_pop_back(&mut self) -> (b: bool)
        requires
            old(self).wf(),
        ensures
            final(self).wf(),
            final(self).state() == old(self).state(),
            final(self).spec_subscribers() == old(self).spec_subscribers(),
            b == !old(self).state().variant.can_start_game(old(self).state().pile.top()->0),
    {
        let card = self.state.pile.seek();
        !self.can_start_game(card.unwrap())
    }

    /// Whether the game can start with the card on top: a standard card that
    /// is no action card by the rules of this game.
    pub fn can_start_game(&self, card: Card) -> (b: bool)
        ensures
            b == self.state().variant.can_start_game(card),
    {
        self.state.can_start_game(card)
    }

    /// The game in words: its pile in one line, then its players, each in a
    /// line.
    pub fn to_string(&self) -> (text: String)
        requires
            self.wf(),
        ensures
            text@ == self.state().text(),
    {
        self.state.to_string()
    }

    /// Lets a handler follow the game for one of its players. An id that no
    /// player has is refused, and the handler comes back.
    pub fn subscribe(&mut self, player_id: u32, subscriber: H) -> (r: Result<(), H>)
        requires
            old(self).wf(),
        ensures
            final(self).wf(),
            final(self).state() == old(self).state(),
            r is Ok <==> has_player(old(self).state().players@, player_id),
            r is Ok ==> final(self).spec_subscribers() == old(self).spec_subscribers().push(
                player_id,
            ),
            r is Err ==> final(self).spec_subscribers() == old(self).spec_subscribers(),
    {
        if find_player(&self.state.players, player_id).is_some() {
            self.event_manager.subscribe(player_id, subscriber);
            proof {
                let before = old(self).spec_subscribers();
                assert forall|i: int| 0 <= i < self.spec_subscribers().len() implies has_player(
                    self.spec_state().players@,
                    #[trigger] self.spec_subscribers()[i],
                ) by {
                    if i < before.len() {
                        assert(self.spec_subscribers()[i] == before[i]);
                    }
                }
            }
            Ok(())
        } else {
            Err(subscriber)
        }
    }

    /// Tells everyone who follows the game that it starts: each handler
    /// learns of all players, of the card on top of the pile, and of the hand
    /// of the player that it follows the game for, and of no other hand.
    pub fn notify_game_start(&self)
        requires
            self.wf(),
    {
        proof {
            assert forall|i: int| 0 <= i < self.event_manager.ids().len() implies has_player(
                self.state.players@,
                #[trigger] self.event_manager.ids()[i],
            ) by {
                assert(self.spec_subscribers()[i] == self.event_manager.ids()[i]);
            }
        }
        self.event_manager.notify_customized(&self.state, GameState::game_start_event);
    }
}

/// Players in words, each in a line of its own: the name, and the hand.
pub open spec fn players_text(players: Seq<MacauPlayer>) -> Seq<char>
    decreases players.len(),
{
    if players.len() == 0 {
        Seq::empty()
    } else {
        players_text(players.drop_last()) + players.last().name@ + ": "@ + cards_text(
            players.last().hand@,
        ) + "\n"@
    }
}

impl GameState {
    /// The state of the game in words: the pile in one line, then the
    /// players, each in a line.
    pub open spec fn text(&self) -> Seq<char> {
        "MacauGame {\n"@ + self.pile.text() + "\n"@ + players_text(self.players@) + "}"@
    }

    /// The state of the game in words.
    pub fn to_string(&self) -> (text: String)
        requires
            self.wf(),
        ensures
            text@ == self.text(),
    {
        let mut text = String::new();
        text.push_str("MacauGame {\n");
        text.push_str(self.pile.to_string().as_str());
        text.push_str("\n");
        let ghost head = text@;
        let mut i: usize = 0;
        while i < self.players.len()
            invariant
                i <= self.players.len(),
                self.wf(),
                text@ == head + players_text(self.players@.take(i as int)),
            decreases self.players.len() - i,
        {
            let player = &self.players[i];
            text.push_str(player.name.as_str());
            text.push_str(": ");
            text.push_str(player.hand.to_string().as_str());
            text.push_str("\n");
            proof {
                assert(self.players@.take(i + 1).drop_last() == self.players@.take(i as int));
                assert(self.players@.take(i + 1).last() == self.players@[i as int]);
            }
            i += 1;
        }
        assert(self.players@.take(i as int) == self.players@);
        text.push_str("}");
        text
    }
}

} // verus!
