//! The draw pile: cards that can be drawn, and played cards that wait for the
//! next shuffle to come back into play.

use crate::cards::hand::HasHand;
use crate::cards::{decimal_text, number_text, suit_rank_text, Card};
use rand::seq::SliceRandom;
use vstd::prelude::*;

verus! {

/// An ordered pile of cards with a boundary. The cards before the boundary
/// are accessible: shuffled, and drawn from the boundary downwards. The cards
/// from the boundary on were played since the last shuffle and wait for the
/// next one.
pub struct Pile {
    cards: Vec<Card>,
    accessible: usize,
}

/// The error of asking an empty pile for a card.
#[derive(Debug, Clone, Copy, PartialEq, Eq, Structural)]
pub struct PileEmptyError;

/// A sequence with the items at two places exchanged.
pub open spec fn swapped<A>(s: Seq<A>, i: int, j: int) -> Seq<A> {
    s.update(i, s[j]).update(j, s[i])
}

/// `SliceRandom::shuffle` of rand, fed by `rand::thread_rng`: it exchanges
/// items of the slice in place, so the vector afterwards holds the items it
/// held before, each as often as before. The order depends on chance, and
/// nothing is said of it.
#[verifier::external_body]
fn shuffle_cards(cards: &mut Vec<Card>)
    ensures
        final(cards)@.len() == old(cards)@.len(),
        final(cards)@.to_multiset() == old(cards)@.to_multiset(),
{
    cards.shuffle(&mut rand::thread_rng());
}

impl View for Pile {
    type V = Seq<Card>;

    /// All cards of the pile, the accessible ones first.
    closed spec fn view(&self) -> Seq<Card> {
        self.cards@
    }
}

impl Pile {
    /// The boundary lies within the pile. Every pile that this module hands
    /// out is well formed, and its methods keep it so.
    pub open spec fn wf(&self) -> bool {
        self.count_accessible() <= self@.len()
    }

    /// The number of accessible cards: the place of the boundary.
    pub closed spec fn spec_count_accessible(&self) -> usize {
        self.accessible
    }

    /// The number of all cards of the pile.
    pub open spec fn spec_count_total(&self) -> usize {
        self@.len() as usize
    }

    /// Whether the pile has no card at all.
    pub open spec fn spec_is_empty(&self) -> bool {
        self@.len() == 0
    }

    /// The card on top: the last accessible one, if there is any.
    pub open spec fn top(&self) -> Option<Card> {
        if 0 < self.count_accessible() <= self@.len() {
            Some(self@[self.count_accessible() - 1])
        } else {
            None
        }
    }

    /// Whether drawing `card` from this pile can leave the pile `after`.
    ///
    /// While a card is accessible, the card on top is drawn, the boundary
    /// moves down by one, and the last card of the pile fills the gap. With
    /// no accessible card the pile is shuffled first, so that any of its
    /// cards may be the one drawn; all the others are accessible afterwards.
    pub open spec fn draws(&self, card: Card, after: Pile) -> bool {
        &&& self@.len() > 0
        &&& after@.len() == self@.len() - 1
        &&& after.count_accessible() == (if self.count_accessible() > 0 {
            self.count_accessible() - 1
        } else {
            self@.len() - 1
        })
        &&& self.count_accessible() > 0 ==> {
            &&& Some(card) == self.top()
            &&& after@ == self@.update(self.count_accessible() - 1, self@.last()).drop_last()
        }
        &&& self.count_accessible() == 0 ==> after@.push(card).to_multiset()
            == self@.to_multiset()
    }

    /// An empty pile.
    pub fn new_empty() -> (pile: Pile)
        ensures
            pile@ == Seq::<Card>::empty(),
            pile.count_accessible() == 0,
            pile.wf(),
    {
        Pile { cards: Vec::new(), accessible: 0 }
    }

    /// An empty pile with room for `capacity` cards.
    pub fn with_capacity(capacity: usize) -> (pile: Pile)
        ensures
            pile@ == Seq::<Card>::empty(),
            pile.count_accessible() == 0,
            pile.wf(),
    {
        Pile { cards: Vec::with_capacity(capacity), accessible: 0 }
    }

    /// A pile of the given cards, none of them accessible before a shuffle.
    pub fn of(cards: Vec<Card>) -> (pile: Pile)
        ensures
            pile@ == cards@,
            pile.count_accessible() == 0,
            pile.wf(),
    {
        Pile { cards, accessible: 0 }
    }

    /// Puts a played card at the end of the pile, where it waits for the next
    /// shuffle.
    pub fn add_card(&mut self, card: Card)
        requires
            old(self).wf(),
        ensures
            final(self)@ == old(self)@.push(card),
            final(self)@.len() == old(self)@.len() + 1,
            final(self).count_accessible() == old(self).count_accessible(),
            final(self).wf(),
    {
        self.cards.push(card);
    }

    /// Puts played cards at the end of the pile, in their order.
    pub fn add_cards(&mut self, cards: Vec<Card>)
        requires
            old(self).wf(),
        ensures
            final(self)@ == old(self)@ + cards@,
            final(self)@.len() == old(self)@.len() + cards@.len(),
            final(self).count_accessible() == old(self).count_accessible(),
            final(self).wf(),
    {
        let mut cards = cards;
        self.cards.append(&mut cards);
    }

    /// Puts a card on top: at the boundary, which moves up by one, so that
    /// the card is the next one seen and drawn. The waiting card that stood
    /// at the boundary, if any, goes to the end.
    pub fn add_on_top(&mut self, card: Card)
        requires
            old(self).wf(),
        ensures
            final(self)@ == swapped(
                old(self)@.push(card),
                old(self).count_accessible() as int,
                old(self)@.len() as int,
            ),
            final(self)@.len() == old(self)@.len() + 1,
            final(self).count_accessible() == old(self).count_accessible() + 1,
            final(self).wf(),
            final(self).top() == Some(card),
    {
        self.cards.push(card);
        let last: usize = self.cards.len() - 1;
        let at_boundary: Card = self.cards[self.accessible];
        self.cards.set(self.accessible, card);
        self.cards.set(last, at_boundary);
        self.accessible += 1;
    }

    /// Draws the card on top. With no accessible card left, the pile is
    /// shuffled first, which brings every waiting card back into play. Only
    /// a pile without any card gives nothing.
    pub fn pop(&mut self) -> (card: Option<Card>)
        requires
            old(self).wf(),
        ensures
            old(self)@.len() == 0 ==> card is None && final(self)@ == old(self)@
                && final(self).count_accessible() == old(self).count_accessible(),
            old(self)@.len() > 0 ==> card is Some && old(self).draws(card->0, *final(self)),
            final(self).wf(),
    {
        if self.cards.is_empty() {
            return None;
        }
        if self.accessible == 0 {
            self.shuffle();
        }
        self.accessible -= 1;
        let ghost before = self.cards@;
        let card = self.cards.swap_remove(self.accessible);
        proof {
            if old(self).count_accessible() == 0 {
                assert(before.update(self.accessible as int, before.last()) == before);
                assert(self.cards@.push(card) == before);
            }
        }
        Some(card)
    }

    /// Shows the card on top without drawing it. With no accessible card
    /// left, the pile is shuffled first, as for [`Pile::pop`]. Only a pile
    /// without any card gives nothing.
    pub fn seek(&mut self) -> (card: Option<Card>)
        requires
            old(self).wf(),
        ensures
            old(self)@.len() == 0 ==> card is None,
            old(self)@.len() > 0 ==> card is Some && card == final(self).top(),
            old(self)@.len() == 0 || old(self).count_accessible() > 0 ==> *final(self) == *old(
                self,
            ),
            old(self)@.len() > 0 && old(self).count_accessible() == 0 ==> {
                &&& final(self).count_accessible() == old(self)@.len()
                &&& final(self)@.to_multiset() == old(self)@.to_multiset()
            },
            final(self)@.len() == old(self)@.len(),
            final(self).wf(),
    {
        if self.cards.is_empty() {
            return None;
        }
        if self.accessible == 0 {
            self.shuffle();
        }
        Some(self.cards[self.accessible - 1])
    }

    /// Shows the card on top, if a card is accessible. The pile is never
    /// shuffled and stays as it is, so that asking again gives the same
    /// answer.
    pub fn try_seek(&self) -> (card: Option<Card>)
        requires
            self.wf(),
        ensures
            card == self.top(),
    {
        if self.cards.is_empty() {
            return None;
        }
        if self.accessible == 0 {
            return None;
        }
        Some(self.cards[self.accessible - 1])
    }

    /// Asking twice for the card on top, with nothing done to the pile in
    /// between, gives the same answer both times.
    pub proof fn lemma_try_seek_idempotent(pile: &Pile, first: Option<Card>, second: Option<Card>)
        requires
            pile.wf(),
            call_ensures(Pile::try_seek, (pile,), first),
            call_ensures(Pile::try_seek, (pile,), second),
        ensures
            first == second,
    {
    }

    /// Puts all cards of the pile into a random order and makes all of them
    /// accessible. Nothing else brings waiting cards back into play.
    pub fn shuffle(&mut self)
        requires
            old(self).wf(),
        ensures
            final(self)@.to_multiset() == old(self)@.to_multiset(),
            final(self)@.len() == old(self)@.len(),
            final(self).count_accessible() == final(self)@.len(),
            final(self).wf(),
    {
        shuffle_cards(&mut self.cards);
        self.accessible = self.cards.len();
    }

    /// Draws a card and deals it to someone who holds a hand. Only a pile
    /// without any card fails, and then nothing changes.
    pub fn deal_to<H: HasHand>(&mut self, other: &mut H) -> (r: Result<(), PileEmptyError>)
        requires
            old(self).wf(),
            old(other).spec_hand().wf(),
        ensures
            final(self).wf(),
            final(other).spec_hand().wf(),
            r is Err <==> old(self)@.len() == 0,
            r is Err ==> final(self)@ == old(self)@ && final(self).count_accessible() == old(
                self,
            ).count_accessible() && *final(other) == *old(other),
            r is Ok ==> exists|card: Card, at: int|
                {
                    &&& #[trigger] old(self).draws(card, *final(self))
                    &&& 0 <= at <= old(other).spec_hand()@.len()
                    &&& final(other).spec_hand()@ == #[trigger] old(other).spec_hand()@.insert(
                        at,
                        card,
                    )
                },
    {
        if let Some(card) = self.pop() {
            other.deal(card);
            Ok(())
        } else {
            Err(PileEmptyError)
        }
    }

    /// Whether the pile has no card at all, accessible or waiting.
    #[verifier::when_used_as_spec(spec_is_empty)]
    pub fn is_empty(&self) -> (b: bool)
        ensures
            b == self.spec_is_empty(),
    {
        self.cards.is_empty()
    }

    /// The number of accessible cards.
    #[verifier::when_used_as_spec(spec_count_accessible)]
    pub fn count_accessible(&self) -> (n: usize)
        ensures
            n == self.spec_count_accessible(),
    {
        self.accessible
    }

    /// The number of all cards of the pile, accessible and waiting.
    #[verifier::when_used_as_spec(spec_count_total)]
    pub fn count_total(&self) -> (n: usize)
        ensures
            n == self.spec_count_total(),
            n == self@.len(),
    {
        self.cards.len()
    }

    /// All cards of the pile in their order, the accessible ones first.
    pub fn cards(&self) -> (cards: &Vec<Card>)
        ensures
            cards@ == self@,
    {
        &self.cards
    }
}

impl PileEmptyError {
    /// The error in words.
    pub fn to_string(&self) -> (text: String)
        ensures
            text@ == "Pile is empty."@,
    {
        let mut text = String::new();
        text.push_str("Pile is empty.");
        text
    }
}

impl Pile {
    /// The pile in words: how many cards it has and which one is on top.
    pub open spec fn text(&self) -> Seq<char> {
        if self@.len() == 0 {
            "Empty pile"@
        } else {
            "Pile with "@ + decimal_text(self@.len()) + " cards, "@ + (match self.top() {
                Some(card) => suit_rank_text(card@),
                None => "unknown"@,
            }) + " on top"@
        }
    }

    /// The pile in words, such as `Pile with 3 cards, ♦K on top`.
    pub fn to_string(&self) -> (text: String)
        requires
            self.wf(),
        ensures
            text@ == self.text(),
    {
        let mut text = String::new();
        if self.cards.is_empty() {
            text.push_str("Empty pile");
            return text;
        }
        text.push_str("Pile with ");
        text.push_str(number_text(self.cards.len()).as_str());
        text.push_str(" cards, ");
        match self.try_seek() {
            Some(card) => text.push_str(card.to_suit_rank().unwrap().as_str()),
            None => text.push_str("unknown"),
        }
        text.push_str(" on top");
        text
    }
}

} // verus!
