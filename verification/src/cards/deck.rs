//! Generation of full decks.

use crate::cards::{Card, CardFace, JokerColor, Rank, Suit};
use vstd::prelude::*;
use vstd::seq_lib::{lemma_multiset_commutative, to_multiset_contains};

verus! {

/// The error of asking for more jokers than a deck has colours for.
#[derive(Debug, Clone, Copy, PartialEq, Eq, Structural)]
pub struct UnsupportedJokerCount;

/// The face of the card at a place of one deck: the 52 standard cards suit
/// by suit, each suit from ace to king, then the jokers red, black, white.
pub open spec fn deck_face(place: int) -> CardFace {
    if place < 52 {
        CardFace::Standard {
            suit: Suit::from_ordinal(place / 13),
            rank: Rank::from_ordinal(place % 13 + 1),
        }
    } else {
        CardFace::Joker { color: JokerColor::from_ordinal(place - 51) }
    }
}

/// The card at a place of one deck.
pub open spec fn deck_card(place: int) -> Card {
    Card::of_face(deck_face(place))
}

/// One deck with the given number of jokers.
pub open spec fn single_deck(jokers: nat) -> Seq<Card> {
    Seq::new(52 + jokers, |place: int| deck_card(place))
}

/// `n` decks, one after the other.
pub open spec fn decks(n: nat, jokers: nat) -> Seq<Card>
    decreases n,
{
    if n == 0 {
        Seq::empty()
    } else {
        decks((n - 1) as nat, jokers) + single_deck(jokers)
    }
}

/// `n` decks hold `n` times the cards of one.
pub proof fn lemma_decks_len(n: nat, jokers: nat)
    ensures
        decks(n, jokers).len() == n * (52 + jokers),
    decreases n,
{
    if n > 0 {
        lemma_decks_len((n - 1) as nat, jokers);
        assert(n * (52 + jokers) == (n - 1) * (52 + jokers) + (52 + jokers)) by (nonlinear_arith);
    } else {
        assert(0 * (52 + jokers) == 0) by (nonlinear_arith);
    }
}

/// Whether one deck with the given number of jokers holds a card of the
/// face: every standard card, and the jokers of the first colours.
pub open spec fn in_deck(face: CardFace, jokers: nat) -> bool {
    match face {
        CardFace::Standard { .. } => true,
        CardFace::Joker { color } => color.ordinal() <= jokers,
    }
}

/// One deck holds each of its cards once: every standard card, and the
/// jokers of the first colours.
pub proof fn lemma_single_deck_composition(jokers: nat, card: Card)
    requires
        jokers <= 3,
        card.wf(),
    ensures
        single_deck(jokers).to_multiset().count(card) == if in_deck(card@, jokers) {
            1nat
        } else {
            0nat
        },
{
    let deck = single_deck(jokers);
    assert forall|place: int| 0 <= place < deck.len() implies (#[trigger] deck[place])@
        == deck_face(place) by {
        Card::lemma_of_face(deck_face(place));
    }
    assert forall|i: int, j: int| 0 <= i < deck.len() && 0 <= j < deck.len() && i != j implies deck[i]
        != deck[j] by {
        assert(deck[i]@ == deck_face(i) && deck[j]@ == deck_face(j));
    }
    deck.lemma_multiset_has_no_duplicates();
    to_multiset_contains(deck, card);
    if in_deck(card@, jokers) {
        let place = match card@ {
            CardFace::Standard { suit, rank } => suit.ordinal() * 13 + rank.ordinal() - 1,
            CardFace::Joker { color } => 51 + color.ordinal(),
        };
        assert(deck[place]@ == deck_face(place));
        Card::lemma_face_determines_card(card);
        assert(deck[place] == card);
        assert(deck.to_multiset().contains(card));
    } else {
        if deck.contains(card) {
            let place = choose|place: int| 0 <= place < deck.len() && deck[place] == card;
            assert(deck[place]@ == deck_face(place));
        }
    }
}

/// `n` decks hold each card of one deck `n` times, and no other card.
pub proof fn lemma_decks_composition(n: nat, jokers: nat, card: Card)
    requires
        jokers <= 3,
        card.wf(),
    ensures
        decks(n, jokers).to_multiset().count(card) == if in_deck(card@, jokers) {
            n
        } else {
            0nat
        },
    decreases n,
{
    if n == 0 {
        to_multiset_contains(decks(0, jokers), card);
    } else {
        lemma_decks_composition((n - 1) as nat, jokers, card);
        lemma_single_deck_composition(jokers, card);
        lemma_multiset_commutative(decks((n - 1) as nat, jokers), single_deck(jokers));
    }
}

/// Generates `n` decks of 52 cards and `jokers` jokers each. More than three
/// jokers in a deck are rejected.
pub fn generate_n_decks(n: usize, jokers: usize) -> (r: Result<Vec<Card>, UnsupportedJokerCount>)
    requires
        jokers <= 3 ==> n * (52 + jokers) <= usize::MAX,
    ensures
        jokers > 3 ==> r is Err,
        jokers <= 3 ==> r is Ok && r->Ok_0@ == decks(n as nat, jokers as nat),
{
    if jokers > 3 {
        return Err(UnsupportedJokerCount);
    }
    let mut vec: Vec<Card> = Vec::with_capacity(n * (52 + jokers));
    let suits: [Suit; 4] = Suit::iter();
    let ranks: [Rank; 13] = Rank::iter();

    let mut deck: usize = 0;
    while deck < n
        invariant
            deck <= n,
            jokers <= 3,
            vec@ == decks(deck as nat, jokers as nat),
            suits@.len() == 4,
            forall|i: int| 0 <= i < 4 ==> suits@[i] == Suit::from_ordinal(i),
            ranks@.len() == 13,
            forall|i: int| 0 <= i < 13 ==> ranks@[i] == Rank::from_ordinal(i + 1),
        decreases n - deck,
    {
        let ghost before = vec@;
        let mut s: usize = 0;
        while s < 4
            invariant
                s <= 4,
                suits@.len() == 4,
                forall|i: int| 0 <= i < 4 ==> suits@[i] == Suit::from_ordinal(i),
                ranks@.len() == 13,
                forall|i: int| 0 <= i < 13 ==> ranks@[i] == Rank::from_ordinal(i + 1),
                vec@ == before + single_deck(jokers as nat).subrange(0, s * 13),
            decreases 4 - s,
        {
            let mut r: usize = 0;
            while r < 13
                invariant
                    s < 4,
                    r <= 13,
                    suits@.len() == 4,
                    forall|i: int| 0 <= i < 4 ==> suits@[i] == Suit::from_ordinal(i),
                    ranks@.len() == 13,
                    forall|i: int| 0 <= i < 13 ==> ranks@[i] == Rank::from_ordinal(i + 1),
                    vec@ == before + single_deck(jokers as nat).subrange(0, s * 13 + r),
                decreases 13 - r,
            {
                vec.push(Card::new(suits[s], ranks[r]));
                r += 1;
            }
            s += 1;
        }

        if jokers >= 1 {
            vec.push(Card::new_joker(JokerColor::Red));

            if jokers >= 2 {
                vec.push(Card::new_joker(JokerColor::Black));

                if jokers >= 3 {
                    vec.push(Card::new_joker(JokerColor::White));
                }
            }
        }
        assert(vec@ == before + single_deck(jokers as nat));
        deck += 1;
    }

    Ok(vec)
}

/// Generates one deck of 52 cards and `jokers` jokers.
pub fn generate_deck(jokers: usize) -> (r: Result<Vec<Card>, UnsupportedJokerCount>)
    ensures
        jokers > 3 ==> r is Err,
        jokers <= 3 ==> r is Ok && r->Ok_0@ == single_deck(jokers as nat),
{
    assert(decks(1, jokers as nat) == single_deck(jokers as nat)) by {
        reveal_with_fuel(decks, 2);
    }
    generate_n_decks(1, jokers)
}

} // verus!
