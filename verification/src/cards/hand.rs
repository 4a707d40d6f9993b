//! Hands of cards, kept in sorted order.

use crate::cards::{suit_rank_text, Card, CardFace, JokerColor, Rank, Suit};
use core::cmp::Ordering;
use sorted_vec::SortedVec;
use vstd::prelude::*;
use vstd::std_specs::cmp::PartialOrdSpecImpl;
use vstd::std_specs::convert::FromSpecImpl;

verus! {

/// The place of a face in the order of a hand, from 0 to 54:
/// 1. aces to kings of clubs,
/// 2. aces to kings of diamonds,
/// 3. aces to kings of hearts,
/// 4. aces to kings of spades,
/// 5. the jokers red, black, white.
pub open spec fn sort_key(face: CardFace) -> int {
    match face {
        CardFace::Standard { suit, rank } => (3 - suit.ordinal()) * 13 + rank.ordinal() - 1,
        CardFace::Joker { color } => 51 + color.ordinal(),
    }
}

/// The face at a place of the order of a hand.
pub open spec fn face_of_key(key: int) -> CardFace {
    if key < 52 {
        CardFace::Standard {
            suit: Suit::from_ordinal(3 - key / 13),
            rank: Rank::from_ordinal(key % 13 + 1),
        }
    } else {
        CardFace::Joker { color: JokerColor::from_ordinal(key - 51) }
    }
}

/// How two places compare.
pub open spec fn key_order(a: int, b: int) -> Ordering {
    if a < b {
        Ordering::Less
    } else if a == b {
        Ordering::Equal
    } else {
        Ordering::Greater
    }
}

/// Every face has a place from 0 to 54, and is the face at its place.
pub proof fn lemma_sort_key(face: CardFace)
    ensures
        0 <= sort_key(face) < 55,
        face_of_key(sort_key(face)) == face,
{
}

/// Every place from 0 to 54 is the place of the face at it.
pub proof fn lemma_face_of_key(key: int)
    requires
        0 <= key < 55,
    ensures
        sort_key(face_of_key(key)) == key,
{
}

/// Standard cards come before jokers; standard cards go by suit, clubs
/// first, then diamonds, hearts and spades, and within a suit by rank, ace
/// low; jokers go red, black, white.
pub proof fn lemma_sort_order(a: CardFace, b: CardFace)
    ensures
        a is Standard && b is Joker ==> sort_key(a) < sort_key(b),
        a is Standard && b is Standard ==> (sort_key(a) < sort_key(b) <==> a->suit.ordinal()
            > b->suit.ordinal() || (a->suit == b->suit && a->rank.ordinal() < b->rank.ordinal())),
        a is Joker && b is Joker ==> (sort_key(a) < sort_key(b) <==> a->color.ordinal()
            < b->color.ordinal()),
        sort_key(a) == sort_key(b) <==> a == b,
{
}

/// A card with the order in which a hand shows its cards.
///
/// This isn't necessarily the only way to sort cards, which is why this is a
/// separate type, and [`Card`] itself has no order.
#[derive(Debug, Clone, Copy, PartialEq, Eq, Structural)]
pub struct SortedCard(pub Card);

impl From<Card> for SortedCard {
    fn from(card: Card) -> (sorted: SortedCard)
        ensures
            sorted == SortedCard(card),
    {
        SortedCard(card)
    }
}

impl FromSpecImpl<Card> for SortedCard {
    open spec fn obeys_from_spec() -> bool {
        true
    }

    open spec fn from_spec(card: Card) -> SortedCard {
        SortedCard(card)
    }
}

impl From<SortedCard> for Card {
    fn from(sorted: SortedCard) -> (card: Card)
        ensures
            card == sorted.0,
    {
        sorted.0
    }
}

impl FromSpecImpl<SortedCard> for Card {
    open spec fn obeys_from_spec() -> bool {
        true
    }

    open spec fn from_spec(sorted: SortedCard) -> Card {
        sorted.0
    }
}

/// How two numbers compare.
fn order_of(a: u8, b: u8) -> (order: Ordering)
    ensures
        a < b ==> order == Ordering::Less,
        a == b ==> order == Ordering::Equal,
        a > b ==> order == Ordering::Greater,
{
    if a < b {
        Ordering::Less
    } else if a == b {
        Ordering::Equal
    } else {
        Ordering::Greater
    }
}

impl PartialOrd for SortedCard {
    /// Compares two cards by their places in the order of a hand. Any two
    /// cards compare.
    fn partial_cmp(&self, other: &Self) -> (order: Option<Ordering>) {
        proof {
            use_type_invariant(&self.0);
            use_type_invariant(&other.0);
            Card::lemma_face_determines_card(self.0);
            Card::lemma_face_determines_card(other.0);
            lemma_sort_order(self.0@, other.0@);
        }
        if self.0 == other.0 {
            return Some(Ordering::Equal);
        }
        // Two jokers

        if self.0.is_joker() && other.0.is_joker() {
            return Some(
                order_of(
                    self.0.joker_color().unwrap().number(),
                    other.0.joker_color().unwrap().number(),
                ),
            );
        }
        // One joker

        if self.0.is_joker() {
            return Some(Ordering::Greater);
        } else if other.0.is_joker() {
            return Some(Ordering::Less);
        }
        // Standard cards

        let self_suit = self.0.suit().unwrap();
        let other_suit = other.0.suit().unwrap();
        let self_rank = self.0.rank().unwrap();
        let other_rank = other.0.rank().unwrap();

        if self_suit == other_suit {
            Some(order_of(self_rank.number(), other_rank.number()))
        } else {
            // clubs, the suit of the highest number, come first
            Some(order_of(other_suit.number(), self_suit.number()))
        }
    }
}

impl PartialOrdSpecImpl for SortedCard {
    open spec fn obeys_partial_cmp_spec() -> bool {
        true
    }

    open spec fn partial_cmp_spec(&self, other: &SortedCard) -> Option<Ordering> {
        Some(key_order(sort_key(self.0@), sort_key(other.0@)))
    }
}

impl SortedCard {
    /// The place of the card in the order of a hand.
    pub fn key(&self) -> (key: u8)
        ensures
            key == sort_key(self.0@),
            key < 55,
    {
        if self.0.is_joker() {
            51 + self.0.joker_color().unwrap().number()
        } else {
            (3 - self.0.suit().unwrap().number()) * 13 + self.0.rank().unwrap().number() - 1
        }
    }

    /// The card at a place of the order of a hand; places above 54 have
    /// none.
    pub fn from_key(key: u8) -> (sorted: Option<SortedCard>)
        ensures
            sorted is Some <==> key < 55,
            sorted matches Some(sorted) ==> sorted.0 == Card::of_face(face_of_key(key as int))
                && sorted.0@ == face_of_key(key as int) && sorted.0.wf(),
    {
        if key < 52 {
            let suit = Suit::try_from(3 - key / 13).ok()?;
            let rank = Rank::try_from(key % 13 + 1).ok()?;
            Some(SortedCard(Card::new(suit, rank)))
        } else {
            let color = JokerColor::try_from(key - 51).ok()?;
            Some(SortedCard(Card::new_joker(color)))
        }
    }
}

/// `sorted_vec::SortedVec`, a vector that keeps its items in rising order.
#[verifier::external_type_specification]
#[verifier::external_body]
#[verifier::reject_recursive_types(T)]
pub struct ExSortedVec<T: Ord>(SortedVec<T>);

/// The items of a sorted vector, first to last.
pub uninterp spec fn sorted_items(v: SortedVec<u8>) -> Seq<u8>;

/// Whether a sequence of numbers rises from each item to the next, equal
/// neighbours allowed.
pub open spec fn is_sorted(s: Seq<u8>) -> bool {
    forall|i: int, j: int| 0 <= i <= j < s.len() ==> s[i] <= s[j]
}

/// `SortedVec::new` makes a sorted vector without items.
#[verifier::external_body]
fn sorted_new() -> (v: SortedVec<u8>)
    ensures
        sorted_items(v) == Seq::<u8>::empty(),
{
    SortedVec::new()
}

/// `SortedVec::with_capacity` makes a sorted vector without items, with room
/// for `capacity` of them. The vector under it refuses a capacity of more
/// than `isize::MAX` bytes.
#[verifier::external_body]
fn sorted_with_capacity(capacity: usize) -> (v: SortedVec<u8>)
    requires
        capacity <= isize::MAX,
    ensures
        sorted_items(v) == Seq::<u8>::empty(),
{
    SortedVec::with_capacity(capacity)
}

/// `SortedVec::insert` finds by binary search a place at which the item keeps
/// the order, puts the item there and returns the place. The items before
/// and after it stay as they were.
#[verifier::external_body]
fn sorted_insert(v: &mut SortedVec<u8>, item: u8) -> (at: usize)
    ensures
        at <= sorted_items(*old(v)).len(),
        sorted_items(*final(v)) == sorted_items(*old(v)).insert(at as int, item),
        is_sorted(sorted_items(*old(v))) ==> is_sorted(sorted_items(*final(v))),
{
    v.insert(item)
}

/// `SortedVec::remove_item` looks the item up by binary search. Where the
/// search finds an equal item, that one is taken out and returned; else the
/// vector stays as it is. In a vector in rising order the search finds every
/// item that is there.
#[verifier::external_body]
fn sorted_remove_item(v: &mut SortedVec<u8>, item: u8) -> (removed: Option<u8>)
    ensures
        removed is Some ==> removed == Some(item) && exists|i: int|
            0 <= i < sorted_items(*old(v)).len() && #[trigger] sorted_items(*old(v))[i] == item
                && sorted_items(*final(v)) == sorted_items(*old(v)).remove(i),
        removed is None ==> sorted_items(*final(v)) == sorted_items(*old(v)),
        is_sorted(sorted_items(*old(v))) && sorted_items(*old(v)).contains(item)
            ==> removed is Some,
{
    v.remove_item(&item)
}

/// Copies the items out of a `SortedVec`, first to last, through the vector
/// that it dereferences to.
#[verifier::external_body]
fn sorted_to_vec(v: &SortedVec<u8>) -> (items: Vec<u8>)
    ensures
        items@ == sorted_items(*v),
{
    v.to_vec()
}

/// The cards at the given places of the order of a hand.
pub open spec fn cards_of_keys(keys: Seq<u8>) -> Seq<Card> {
    Seq::new(keys.len(), |i: int| Card::of_face(face_of_key(keys[i] as int)))
}

/// Whether cards stand in the order of a hand.
pub open spec fn in_hand_order(cards: Seq<Card>) -> bool {
    forall|i: int, j: int|
        0 <= i <= j < cards.len() ==> sort_key(#[trigger] cards[i]@) <= sort_key(
            #[trigger] cards[j]@,
        )
}

/// Cards in words, one after the other with `, ` between them.
pub open spec fn cards_text(cards: Seq<Card>) -> Seq<char>
    decreases cards.len(),
{
    if cards.len() == 0 {
        Seq::empty()
    } else if cards.len() == 1 {
        suit_rank_text(cards[0]@)
    } else {
        cards_text(cards.drop_last()) + ", "@ + suit_rank_text(cards.last()@)
    }
}

/// Represents a hand of cards.
///
/// It's always sorted in the order of [`SortedCard`]. Each card is held as
/// its place in that order.
#[derive(Debug, PartialEq, Eq)]
pub struct Hand {
    cards: SortedVec<u8>,
}

impl View for Hand {
    type V = Seq<Card>;

    /// The cards of the hand, in their order.
    closed spec fn view(&self) -> Seq<Card> {
        cards_of_keys(sorted_items(self.cards))
    }
}

impl Hand {
    /// The places held are places of cards, in rising order. Every hand that
    /// this module hands out is well formed, and its methods keep it so.
    pub closed spec fn wf(&self) -> bool {
        &&& is_sorted(sorted_items(self.cards))
        &&& forall|i: int|
            0 <= i < sorted_items(self.cards).len() ==> #[trigger] sorted_items(self.cards)[i] < 55
    }

    /// The cards of a well-formed hand are well formed and stand in the
    /// order of a hand.
    pub proof fn lemma_wf(&self)
        requires
            self.wf(),
        ensures
            in_hand_order(self@),
            forall|i: int| 0 <= i < self@.len() ==> (#[trigger] self@[i]).wf(),
    {
        let keys = sorted_items(self.cards);
        assert forall|i: int| 0 <= i < self@.len() implies (#[trigger] self@[i]).wf() && sort_key(
            self@[i]@,
        ) == keys[i] by {
            Card::lemma_of_face(face_of_key(keys[i] as int));
            lemma_face_of_key(keys[i] as int);
        }
    }

    /// An empty hand.
    pub fn new() -> (hand: Hand)
        ensures
            hand@ == Seq::<Card>::empty(),
            hand.wf(),
    {
        Hand { cards: sorted_new() }
    }

    /// An empty hand with room for `capacity` cards.
    pub fn with_capacity(capacity: usize) -> (hand: Hand)
        requires
            capacity <= isize::MAX,
        ensures
            hand@ == Seq::<Card>::empty(),
            hand.wf(),
    {
        Hand { cards: sorted_with_capacity(capacity) }
    }

    /// Puts a card into the hand, at a place that keeps the hand in order.
    pub fn add_card(&mut self, card: Card)
        requires
            old(self).wf(),
        ensures
            final(self).wf(),
            in_hand_order(final(self)@),
            exists|at: int|
                0 <= at <= old(self)@.len() && final(self)@ == #[trigger] old(self)@.insert(
                    at,
                    card,
                ),
            final(self)@.to_multiset() == old(self)@.to_multiset().insert(card),
    {
        let key: u8 = SortedCard(card).key();
        let at: usize = sorted_insert(&mut self.cards, key);
        proof {
            use_type_invariant(&card);
            Card::lemma_face_determines_card(card);
            lemma_sort_key(card@);
            let before = sorted_items(old(self).cards);
            let after = sorted_items(self.cards);
            assert forall|i: int| 0 <= i < after.len() implies #[trigger] after[i] < 55 by {
                if i < at {
                    assert(after[i] == before[i]);
                } else if i > at {
                    assert(after[i] == before[i - 1]);
                }
            }
            assert(self@ =~= old(self)@.insert(at as int, card));
            vstd::seq_lib::to_multiset_insert(old(self)@, at as int, card);
            self.lemma_wf();
        }
    }

    /// Takes one card equal to the given one out of the hand. A hand without
    /// such a card stays as it is.
    pub fn remove_card(&mut self, card: Card)
        requires
            old(self).wf(),
        ensures
            final(self).wf(),
            in_hand_order(final(self)@),
            old(self)@.contains(card) ==> exists|i: int|
                0 <= i < old(self)@.len() && old(self)@[i] == card && final(self)@
                    == #[trigger] old(self)@.remove(i),
            !old(self)@.contains(card) ==> final(self)@ == old(self)@,
    {
        let key: u8 = SortedCard(card).key();
        let ghost before = sorted_items(self.cards);
        proof {
            use_type_invariant(&card);
            Card::lemma_face_determines_card(card);
            lemma_sort_key(card@);
            if old(self)@.contains(card) {
                let i = choose|i: int| 0 <= i < old(self)@.len() && old(self)@[i] == card;
                Card::lemma_of_face(face_of_key(before[i] as int));
                lemma_face_of_key(before[i] as int);
                assert(before[i] == key);
            }
        }
        let removed: Option<u8> = sorted_remove_item(&mut self.cards, key);
        proof {
            let after = sorted_items(self.cards);
            if removed is Some {
                let i = choose|i: int|
                    0 <= i < before.len() && #[trigger] before[i] == key && after == before.remove(
                        i,
                    );
                assert forall|k: int| 0 <= k < after.len() implies #[trigger] after[k] < 55 by {
                    if k < i {
                        assert(after[k] == before[k]);
                    } else {
                        assert(after[k] == before[k + 1]);
                    }
                }
                assert forall|a: int, b: int| 0 <= a <= b < after.len() implies after[a]
                    <= after[b] by {
                    let a0 = if a < i {
                        a
                    } else {
                        a + 1
                    };
                    let b0 = if b < i {
                        b
                    } else {
                        b + 1
                    };
                    assert(after[a] == before[a0] && after[b] == before[b0]);
                }
                assert(old(self)@[i] == card);
                assert(self@ =~= old(self)@.remove(i));
            } else {
                assert(!before.contains(key));
                if old(self)@.contains(card) {
                    assert(false);
                }
                assert(self@ =~= old(self)@);
            }
            self.lemma_wf();
        }
    }

    /// The cards of the hand in their order, each with that order.
    pub fn cards(&self) -> (cards: Vec<SortedCard>)
        requires
            self.wf(),
        ensures
            cards@.len() == self@.len(),
            forall|i: int| 0 <= i < cards@.len() ==> (#[trigger] cards@[i]).0 == self@[i],
    {
        let keys: Vec<u8> = sorted_to_vec(&self.cards);
        let mut cards: Vec<SortedCard> = Vec::with_capacity(keys.len());
        let mut i: usize = 0;
        while i < keys.len()
            invariant
                i <= keys.len(),
                keys@ == sorted_items(self.cards),
                self.wf(),
                cards@.len() == i,
                forall|k: int| 0 <= k < i ==> (#[trigger] cards@[k]).0 == self@[k],
            decreases keys.len() - i,
        {
            cards.push(SortedCard::from_key(keys[i]).unwrap());
            i += 1;
        }
        cards
    }

    /// The cards of the hand in their order.
    pub fn iter(&self) -> (cards: Vec<Card>)
        requires
            self.wf(),
        ensures
            cards@ == self@,
    {
        let keys: Vec<u8> = sorted_to_vec(&self.cards);
        let mut cards: Vec<Card> = Vec::with_capacity(keys.len());
        let mut i: usize = 0;
        while i < keys.len()
            invariant
                i <= keys.len(),
                keys@ == sorted_items(self.cards),
                self.wf(),
                cards@ == self@.subrange(0, i as int),
            decreases keys.len() - i,
        {
            cards.push(SortedCard::from_key(keys[i]).unwrap().0);
            assert(cards@ == self@.subrange(0, i + 1));
            i += 1;
        }
        cards
    }

    /// The hand in words, such as `♣4, ♦K, 🃏1`.
    pub fn to_string(&self) -> (text: String)
        requires
            self.wf(),
        ensures
            text@ == cards_text(self@),
    {
        let cards: Vec<Card> = self.iter();
        let mut text = String::new();
        let mut i: usize = 0;
        while i < cards.len()
            invariant
                i <= cards.len(),
                text@ == cards_text(cards@.take(i as int)),
            decreases cards.len() - i,
        {
            if i > 0 {
                text.push_str(", ");
            }
            match cards[i].to_suit_rank() {
                Ok(card) => text.push_str(card.as_str()),
                Err(_) => text.push_str("??"),
            }
            proof {
                assert(cards@.take(i + 1).drop_last() == cards@.take(i as int));
                assert(cards@.take(i + 1).last() == cards@[i as int]);
            }
            i += 1;
        }
        assert(cards@.take(i as int) == cards@);
        text
    }
}

/// Someone who holds a hand of cards and can be dealt to.
pub trait HasHand {
    /// The hand that is held.
    spec fn spec_hand(&self) -> Hand;

    fn hand(&self) -> (hand: &Hand)
        ensures
            *hand == self.spec_hand(),
    ;

    fn hand_mut(&mut self) -> (hand: &mut Hand)
        ensures
            *hand == old(self).spec_hand(),
            final(self).spec_hand() == *final(hand),
    ;

    /// Puts a card into the hand that is held.
    fn deal(&mut self, card: Card)
        requires
            old(self).spec_hand().wf(),
        ensures
            final(self).spec_hand().wf(),
            exists|at: int|
                0 <= at <= old(self).spec_hand()@.len() && final(self).spec_hand()@
                    == #[trigger] old(self).spec_hand()@.insert(at, card),
            final(self).spec_hand()@.to_multiset() == old(self).spec_hand()@.to_multiset().insert(
                card,
            ),
    {
        self.hand_mut().add_card(card);
    }
}

} // verus!
