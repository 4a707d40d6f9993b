//! Playing cards: suits, ranks, jokers, and the compact card value.

use vstd::prelude::*;

pub mod deck;
pub mod hand;
pub mod pile;

verus! {

/// The four suits of a standard deck.
#[derive(Debug, Clone, Copy, PartialEq, Eq, Structural)]
pub enum Suit {
    Spades,
    Hearts,
    Diamonds,
    Clubs,
}

/// The thirteen ranks of a standard deck, ace low.
#[derive(Debug, Clone, Copy, PartialEq, Eq, Structural, PartialOrd, Ord)]
pub enum Rank {
    Ace,
    Two,
    Three,
    Four,
    Five,
    Six,
    Seven,
    Eight,
    Nine,
    Ten,
    Jack,
    Queen,
    King,
}

/// The colour that tells the jokers of a deck apart.
#[derive(Debug, Clone, Copy, PartialEq, Eq, Structural)]
pub enum JokerColor {
    Red,
    Black,
    White,
}

/// The error of a number that stands for no suit, rank, joker colour or card.
#[derive(Debug, Clone, Copy, PartialEq, Eq, Structural)]
pub struct InvalidCardEncoding;

impl Suit {
    /// The number of the suit in a card's encoding: spades 0, hearts 1,
    /// diamonds 2, clubs 3.
    pub open spec fn ordinal(self) -> int {
        match self {
            Suit::Spades => 0,
            Suit::Hearts => 1,
            Suit::Diamonds => 2,
            Suit::Clubs => 3,
        }
    }

    /// The suit with the given number, for numbers 0 to 3.
    pub open spec fn from_ordinal(n: int) -> Suit {
        if n == 0 {
            Suit::Spades
        } else if n == 1 {
            Suit::Hearts
        } else if n == 2 {
            Suit::Diamonds
        } else {
            Suit::Clubs
        }
    }

    /// The suit's name in words.
    pub open spec fn name_spec(self) -> Seq<char> {
        match self {
            Suit::Spades => "spades"@,
            Suit::Hearts => "hearts"@,
            Suit::Diamonds => "diamonds"@,
            Suit::Clubs => "clubs"@,
        }
    }

    /// The letter that stands for the suit in plain text.
    pub open spec fn letter_spec(self) -> char {
        match self {
            Suit::Spades => 's',
            Suit::Hearts => 'h',
            Suit::Diamonds => 'd',
            Suit::Clubs => 'c',
        }
    }

    /// The suit's filled glyph.
    pub open spec fn unicode_black_spec(self) -> char {
        match self {
            Suit::Spades => '♠',
            Suit::Hearts => '♥',
            Suit::Diamonds => '♦',
            Suit::Clubs => '♣',
        }
    }

    /// The suit's outlined glyph.
    pub open spec fn unicode_white_spec(self) -> char {
        match self {
            Suit::Spades => '♤',
            Suit::Hearts => '♡',
            Suit::Diamonds => '♢',
            Suit::Clubs => '♧',
        }
    }

    /// The four suits in the order of their numbers.
    pub fn iter() -> (suits: [Suit; 4])
        ensures
            suits@.len() == 4,
            forall|i: int| 0 <= i < 4 ==> suits@[i] == Suit::from_ordinal(i),
    {
        [Suit::Spades, Suit::Hearts, Suit::Diamonds, Suit::Clubs]
    }

    /// The number of the suit, as [`Suit::ordinal`] gives it.
    pub fn number(&self) -> (n: u8)
        ensures
            n == self.ordinal(),
    {
        match self {
            Suit::Spades => 0,
            Suit::Hearts => 1,
            Suit::Diamonds => 2,
            Suit::Clubs => 3,
        }
    }

    /// The suit that a number stands for; numbers above 3 stand for none.
    pub fn try_from(value: u8) -> (r: Result<Suit, InvalidCardEncoding>)
        ensures
            value <= 3 ==> r == Ok::<Suit, InvalidCardEncoding>(Suit::from_ordinal(value as int)),
            value > 3 ==> r is Err,
    {
        match value {
            0 => Ok(Suit::Spades),
            1 => Ok(Suit::Hearts),
            2 => Ok(Suit::Diamonds),
            3 => Ok(Suit::Clubs),
            _ => Err(InvalidCardEncoding),
        }
    }

    /// The suit's name in words.
    pub fn name(&self) -> (s: &'static str)
        ensures
            s@ == self.name_spec(),
    {
        match self {
            Suit::Spades => "spades",
            Suit::Hearts => "hearts",
            Suit::Diamonds => "diamonds",
            Suit::Clubs => "clubs",
        }
    }

    /// The letter that stands for the suit in plain text.
    pub fn letter(&self) -> (c: char)
        ensures
            c == self.letter_spec(),
    {
        match self {
            Suit::Spades => 's',
            Suit::Hearts => 'h',
            Suit::Diamonds => 'd',
            Suit::Clubs => 'c',
        }
    }

    /// The suit's filled glyph.
    pub fn unicode_black(&self) -> (c: char)
        ensures
            c == self.unicode_black_spec(),
    {
        match self {
            Suit::Spades => '♠',
            Suit::Hearts => '♥',
            Suit::Diamonds => '♦',
            Suit::Clubs => '♣',
        }
    }

    /// The suit's outlined glyph.
    pub fn unicode_white(&self) -> (c: char)
        ensures
            c == self.unicode_white_spec(),
    {
        match self {
            Suit::Spades => '♤',
            Suit::Hearts => '♡',
            Suit::Diamonds => '♢',
            Suit::Clubs => '♧',
        }
    }
}

impl Rank {
    /// The number of the rank in a card's encoding: ace 1, up to king 13.
    pub open spec fn ordinal(self) -> int {
        match self {
            Rank::Ace => 1,
            Rank::Two => 2,
            Rank::Three => 3,
            Rank::Four => 4,
            Rank::Five => 5,
            Rank::Six => 6,
            Rank::Seven => 7,
            Rank::Eight => 8,
            Rank::Nine => 9,
            Rank::Ten => 10,
            Rank::Jack => 11,
            Rank::Queen => 12,
            Rank::King => 13,
        }
    }

    /// The rank with the given number, for numbers 1 to 13.
    pub open spec fn from_ordinal(n: int) -> Rank {
        if n == 1 {
            Rank::Ace
        } else if n == 2 {
            Rank::Two
        } else if n == 3 {
            Rank::Three
        } else if n == 4 {
            Rank::Four
        } else if n == 5 {
            Rank::Five
        } else if n == 6 {
            Rank::Six
        } else if n == 7 {
            Rank::Seven
        } else if n == 8 {
            Rank::Eight
        } else if n == 9 {
            Rank::Nine
        } else if n == 10 {
            Rank::Ten
        } else if n == 11 {
            Rank::Jack
        } else if n == 12 {
            Rank::Queen
        } else {
            Rank::King
        }
    }

    /// The rank's name in words.
    pub open spec fn name_spec(self) -> Seq<char> {
        match self {
            Rank::Ace => "ace"@,
            Rank::Two => "two"@,
            Rank::Three => "three"@,
            Rank::Four => "four"@,
            Rank::Five => "five"@,
            Rank::Six => "six"@,
            Rank::Seven => "seven"@,
            Rank::Eight => "eight"@,
            Rank::Nine => "nine"@,
            Rank::Ten => "ten"@,
            Rank::Jack => "jack"@,
            Rank::Queen => "queen"@,
            Rank::King => "king"@,
        }
    }

    /// The short mark of the rank as printed in a card's corner.
    pub open spec fn index_spec(self) -> Seq<char> {
        match self {
            Rank::Ace => "A"@,
            Rank::Two => "2"@,
            Rank::Three => "3"@,
            Rank::Four => "4"@,
            Rank::Five => "5"@,
            Rank::Six => "6"@,
            Rank::Seven => "7"@,
            Rank::Eight => "8"@,
            Rank::Nine => "9"@,
            Rank::Ten => "10"@,
            Rank::Jack => "J"@,
            Rank::Queen => "Q"@,
            Rank::King => "K"@,
        }
    }

    /// The thirteen ranks in rising order.
    pub fn iter() -> (ranks: [Rank; 13])
        ensures
            ranks@.len() == 13,
            forall|i: int| 0 <= i < 13 ==> ranks@[i] == Rank::from_ordinal(i + 1),
    {
        [
            Rank::Ace,
            Rank::Two,
            Rank::Three,
            Rank::Four,
            Rank::Five,
            Rank::Six,
            Rank::Seven,
            Rank::Eight,
            Rank::Nine,
            Rank::Ten,
            Rank::Jack,
            Rank::Queen,
            Rank::King,
        ]
    }

    /// The number of the rank, as [`Rank::ordinal`] gives it.
    pub fn number(&self) -> (n: u8)
        ensures
            n == self.ordinal(),
    {
        match self {
            Rank::Ace => 1,
            Rank::Two => 2,
            Rank::Three => 3,
            Rank::Four => 4,
            Rank::Five => 5,
            Rank::Six => 6,
            Rank::Seven => 7,
            Rank::Eight => 8,
            Rank::Nine => 9,
            Rank::Ten => 10,
            Rank::Jack => 11,
            Rank::Queen => 12,
            Rank::King => 13,
        }
    }

    /// The rank that a number stands for; only 1 to 13 stand for one.
    pub fn try_from(value: u8) -> (r: Result<Rank, InvalidCardEncoding>)
        ensures
            1 <= value <= 13 ==> r == Ok::<Rank, InvalidCardEncoding>(
                Rank::from_ordinal(value as int),
            ),
            !(1 <= value <= 13) ==> r is Err,
    {
        match value {
            1 => Ok(Rank::Ace),
            2 => Ok(Rank::Two),
            3 => Ok(Rank::Three),
            4 => Ok(Rank::Four),
            5 => Ok(Rank::Five),
            6 => Ok(Rank::Six),
            7 => Ok(Rank::Seven),
            8 => Ok(Rank::Eight),
            9 => Ok(Rank::Nine),
            10 => Ok(Rank::Ten),
            11 => Ok(Rank::Jack),
            12 => Ok(Rank::Queen),
            13 => Ok(Rank::King),
            _ => Err(InvalidCardEncoding),
        }
    }

    /// The rank's name in words.
    pub fn name(&self) -> (s: &'static str)
        ensures
            s@ == self.name_spec(),
    {
        match self {
            Rank::Ace => "ace",
            Rank::Two => "two",
            Rank::Three => "three",
            Rank::Four => "four",
            Rank::Five => "five",
            Rank::Six => "six",
            Rank::Seven => "seven",
            Rank::Eight => "eight",
            Rank::Nine => "nine",
            Rank::Ten => "ten",
            Rank::Jack => "jack",
            Rank::Queen => "queen",
            Rank::King => "king",
        }
    }

    /// The short mark of the rank as printed in a card's corner.
    pub fn index(&self) -> (s: &'static str)
        ensures
            s@ == self.index_spec(),
    {
        match self {
            Rank::Ace => "A",
            Rank::Two => "2",
            Rank::Three => "3",
            Rank::Four => "4",
            Rank::Five => "5",
            Rank::Six => "6",
            Rank::Seven => "7",
            Rank::Eight => "8",
            Rank::Nine => "9",
            Rank::Ten => "10",
            Rank::Jack => "J",
            Rank::Queen => "Q",
            Rank::King => "K",
        }
    }
}

impl JokerColor {
    /// The number of the colour in a card's encoding: red 1, black 2, white 3.
    pub open spec fn ordinal(self) -> int {
        match self {
            JokerColor::Red => 1,
            JokerColor::Black => 2,
            JokerColor::White => 3,
        }
    }

    /// The colour with the given number, for numbers 1 to 3.
    pub open spec fn from_ordinal(n: int) -> JokerColor {
        if n == 1 {
            JokerColor::Red
        } else if n == 2 {
            JokerColor::Black
        } else {
            JokerColor::White
        }
    }

    /// The colour's name in words.
    pub open spec fn name_spec(self) -> Seq<char> {
        match self {
            JokerColor::Red => "red"@,
            JokerColor::Black => "black"@,
            JokerColor::White => "white"@,
        }
    }

    /// The number of the colour, as [`JokerColor::ordinal`] gives it.
    pub fn number(&self) -> (n: u8)
        ensures
            n == self.ordinal(),
    {
        match self {
            JokerColor::Red => 1,
            JokerColor::Black => 2,
            JokerColor::White => 3,
        }
    }

    /// The colour that a number stands for; only 1 to 3 stand for one.
    pub fn try_from(value: u8) -> (r: Result<JokerColor, InvalidCardEncoding>)
        ensures
            1 <= value <= 3 ==> r == Ok::<JokerColor, InvalidCardEncoding>(
                JokerColor::from_ordinal(value as int),
            ),
            !(1 <= value <= 3) ==> r is Err,
    {
        match value {
            1 => Ok(JokerColor::Red),
            2 => Ok(JokerColor::Black),
            3 => Ok(JokerColor::White),
            _ => Err(InvalidCardEncoding),
        }
    }

    /// The colour's name in words.
    pub fn name(&self) -> (s: &'static str)
        ensures
            s@ == self.name_spec(),
    {
        match self {
            JokerColor::Red => "red",
            JokerColor::Black => "black",
            JokerColor::White => "white",
        }
    }
}

/// What a card shows: a suit and a rank, or a joker's colour.
pub enum CardFace {
    Standard { suit: Suit, rank: Rank },
    Joker { color: JokerColor },
}

/// Whether a byte encodes a card: the high four bits hold the suit's number
/// and the low four the rank's, or the low four are all set and the high
/// four hold a joker's colour.
pub open spec fn valid_code(code: u8) -> bool {
    ||| code / 16 <= 3 && 1 <= code % 16 <= 13
    ||| 1 <= code / 16 <= 3 && code % 16 == 15
}

/// The face that a byte encodes.
pub open spec fn face_of_code(code: u8) -> CardFace {
    if code % 16 == 15 {
        CardFace::Joker { color: JokerColor::from_ordinal(code as int / 16) }
    } else {
        CardFace::Standard {
            suit: Suit::from_ordinal(code as int / 16),
            rank: Rank::from_ordinal(code as int % 16),
        }
    }
}

/// The byte that encodes a face.
pub open spec fn code_of_face(face: CardFace) -> u8 {
    match face {
        CardFace::Standard { suit, rank } => (suit.ordinal() * 16 + rank.ordinal()) as u8,
        CardFace::Joker { color } => (color.ordinal() * 16 + 15) as u8,
    }
}

/// A playing card, held in one byte: `00SSRRRR`, where `SS` is the suit's
/// number and `RRRR` the rank's. A joker has `RRRR` all set and its colour in
/// the higher bits. Every value of this type encodes a card.
#[derive(Debug, Clone, Copy, PartialEq, Eq, Structural)]
pub struct Card(u8);

impl View for Card {
    type V = CardFace;

    open spec fn view(&self) -> CardFace {
        face_of_code(self.spec_code())
    }
}

impl Card {
    /// The byte that holds the card.
    pub closed spec fn spec_code(&self) -> u8 {
        self.0
    }

    /// The card that a byte holds.
    pub closed spec fn of_code(code: u8) -> Card {
        Card(code)
    }

    /// Holds of every card that executable code can reach.
    #[verifier::type_invariant]
    pub open spec fn wf(&self) -> bool {
        valid_code(self.spec_code())
    }

    /// The card with the given face.
    pub open spec fn of_face(face: CardFace) -> Card {
        Card::of_code(code_of_face(face))
    }

    /// The standard card of a suit and a rank.
    pub open spec fn spec_new(suit: Suit, rank: Rank) -> Card {
        Card::of_face(CardFace::Standard { suit, rank })
    }

    /// The joker of a colour.
    pub open spec fn spec_new_joker(color: JokerColor) -> Card {
        Card::of_face(CardFace::Joker { color })
    }

    /// Whether the card is a standard card.
    pub open spec fn spec_is_standard_card(&self) -> bool {
        self@ is Standard
    }

    /// Whether the card is a joker.
    pub open spec fn spec_is_joker(&self) -> bool {
        self@ is Joker
    }

    /// The suit of a standard card; a joker has none.
    pub open spec fn spec_suit(&self) -> Option<Suit> {
        match self@ {
            CardFace::Standard { suit, .. } => Some(suit),
            CardFace::Joker { .. } => None,
        }
    }

    /// The rank of a standard card; a joker has none.
    pub open spec fn spec_rank(&self) -> Option<Rank> {
        match self@ {
            CardFace::Standard { rank, .. } => Some(rank),
            CardFace::Joker { .. } => None,
        }
    }

    /// The colour of a joker; a standard card has none.
    pub open spec fn spec_joker_color(&self) -> Option<JokerColor> {
        match self@ {
            CardFace::Standard { .. } => None,
            CardFace::Joker { color } => Some(color),
        }
    }

    /// A byte and the card made of it determine each other.
    pub proof fn lemma_code(code: u8, card: Card)
        ensures
            Card::of_code(code).spec_code() == code,
            Card::of_code(card.spec_code()) == card,
    {
    }

    /// The card made of a face is well formed and shows that face.
    pub proof fn lemma_of_face(face: CardFace)
        ensures
            Card::of_face(face).wf(),
            Card::of_face(face)@ == face,
    {
    }

    /// A well-formed card is the card made of its face: two well-formed
    /// cards with one face are equal.
    pub proof fn lemma_face_determines_card(card: Card)
        requires
            card.wf(),
        ensures
            Card::of_face(card@) == card,
    {
    }

    /// The standard card of a suit and a rank.
    pub fn new(suit: Suit, rank: Rank) -> (card: Card)
        ensures
            card == Card::spec_new(suit, rank),
            card.wf(),
            card@ == (CardFace::Standard { suit, rank }),
    {
        let s: u8 = suit.number();
        let r: u8 = rank.number();
        assert((s << 4) | r == s * 16 + r) by (bit_vector)
            requires
                s <= 3,
                r <= 15,
        ;
        Card((s << 4) | r)
    }

    /// The joker of a colour.
    pub fn new_joker(color: JokerColor) -> (card: Card)
        ensures
            card == Card::spec_new_joker(color),
            card.wf(),
            card@ == (CardFace::Joker { color }),
    {
        let c: u8 = color.number();
        assert((c << 4) | 0b1111 == c * 16 + 15) by (bit_vector)
            requires
                c <= 3,
        ;
        Card((c << 4) | 0b1111)
    }

    /// The card that a byte encodes; a byte that encodes none is rejected.
    pub fn try_from(value: u8) -> (r: Result<Card, InvalidCardEncoding>)
        ensures
            valid_code(value) ==> r == Ok::<Card, InvalidCardEncoding>(Card::of_code(value)),
            valid_code(value) ==> r->Ok_0.code() == value && r->Ok_0@ == face_of_code(value),
            !valid_code(value) ==> r is Err,
    {
        let low: u8 = value & 0b1111;
        let high: u8 = value >> 4;
        assert(value & 0b1111 == value % 16) by (bit_vector);
        assert(value >> 4 == value / 16) by (bit_vector);
        if (high <= 3 && 1 <= low && low <= 13) || (1 <= high && high <= 3 && low == 15) {
            Ok(Card(value))
        } else {
            Err(InvalidCardEncoding)
        }
    }

    /// The byte that encodes the card.
    #[verifier::when_used_as_spec(spec_code)]
    pub fn code(&self) -> (code: u8)
        ensures
            code == self.spec_code(),
            code == code_of_face(self@),
            valid_code(code),
    {
        proof {
            use_type_invariant(self);
        }
        self.0
    }

    /// Returns whether this card is a standard card (i.e. not joker).
    #[verifier::when_used_as_spec(spec_is_standard_card)]
    pub fn is_standard_card(&self) -> (b: bool)
        ensures
            b == self.spec_is_standard_card(),
    {
        proof {
            use_type_invariant(self);
        }
        let code: u8 = self.0;
        assert(code & 0b1111 == code % 16) by (bit_vector);
        (code & 0b1111) <= 13
    }

    /// Returns whether this card is a joker.
    #[verifier::when_used_as_spec(spec_is_joker)]
    pub fn is_joker(&self) -> (b: bool)
        ensures
            b == self.spec_is_joker(),
    {
        let code: u8 = self.0;
        assert(code & 0b1111 == code % 16) by (bit_vector);
        (code & 0b1111) == 0b1111
    }

    /// The suit of a standard card; a joker has none.
    #[verifier::when_used_as_spec(spec_suit)]
    pub fn suit(&self) -> (suit: Option<Suit>)
        ensures
            suit == self.spec_suit(),
    {
        proof {
            use_type_invariant(self);
        }
        if self.is_standard_card() {
            let code: u8 = self.0;
            assert(code >> 4 == code / 16) by (bit_vector);
            Suit::try_from(code >> 4).ok()
        } else {
            None
        }
    }

    /// The rank of a standard card; a joker has none.
    #[verifier::when_used_as_spec(spec_rank)]
    pub fn rank(&self) -> (rank: Option<Rank>)
        ensures
            rank == self.spec_rank(),
    {
        proof {
            use_type_invariant(self);
        }
        if self.is_standard_card() {
            let code: u8 = self.0;
            assert(code & 0b1111 == code % 16) by (bit_vector);
            Rank::try_from(code & 0b1111).ok()
        } else {
            None
        }
    }

    /// The colour of a joker; a standard card has none.
    #[verifier::when_used_as_spec(spec_joker_color)]
    pub fn joker_color(&self) -> (color: Option<JokerColor>)
        ensures
            color == self.spec_joker_color(),
    {
        proof {
            use_type_invariant(self);
        }
        if self.is_joker() {
            let code: u8 = self.0;
            assert(code >> 4 == code / 16) by (bit_vector);
            JokerColor::try_from(code >> 4).ok()
        } else {
            None
        }
    }
}

/// `char::from_u32` gives the character of a code point, and nothing for a
/// number that is no Unicode scalar value: a surrogate, or one past `0x10FFFF`.
pub assume_specification[ char::from_u32 ](i: u32) -> (c: Option<char>)
    ensures
        (i <= 0xD7FF || 0xE000 <= i <= 0x10FFFF) ==> c == Some(i as char),
        !(i <= 0xD7FF || 0xE000 <= i <= 0x10FFFF) ==> c is None,
;

/// `String::push` appends one character to the end of the string.
pub assume_specification[ String::push ](s: &mut String, ch: char)
    ensures
        final(s)@ == old(s)@.push(ch),
;

/// `String::push_str` appends a string slice to the end of the string.
pub assume_specification[ String::push_str ](s: &mut String, string: &str)
    ensures
        final(s)@ == old(s)@ + string@,
;

/// The code point of a face in the Unicode block of playing cards: the suit
/// picks the row, the rank the column. The block has a knight between jack
/// and queen, so queen and king stand one further along.
pub open spec fn unicode_point(face: CardFace) -> int {
    match face {
        CardFace::Standard { suit, rank } => 0x1F0A0 + 16 * suit.ordinal() + rank.ordinal() + (
        if rank.ordinal() > Rank::Jack.ordinal() {
            1int
        } else {
            0int
        }),
        CardFace::Joker { color } => 0x1F0AF + 16 * color.ordinal(),
    }
}

/// The digit that prints a joker's colour.
pub open spec fn joker_digit(color: JokerColor) -> Seq<char> {
    match color {
        JokerColor::Red => "1"@,
        JokerColor::Black => "2"@,
        JokerColor::White => "3"@,
    }
}

/// The suit's black glyph and the rank's mark; for a joker its glyph and the
/// number of its colour.
pub open spec fn suit_rank_text(face: CardFace) -> Seq<char> {
    match face {
        CardFace::Standard { suit, rank } => seq![suit.unicode_black_spec()] + rank.index_spec(),
        CardFace::Joker { color } => "🃏"@ + joker_digit(color),
    }
}

/// The rank's mark and the suit's letter; for a joker `J` and the number of
/// its colour.
pub open spec fn ascii_text(face: CardFace) -> Seq<char> {
    match face {
        CardFace::Standard { suit, rank } => rank.index_spec().push(suit.letter_spec()),
        CardFace::Joker { color } => "J"@ + joker_digit(color),
    }
}

/// The card's name in words.
pub open spec fn name_text(face: CardFace) -> Seq<char> {
    match face {
        CardFace::Standard { suit, rank } => rank.name_spec() + " of "@ + suit.name_spec(),
        CardFace::Joker { color } => color.name_spec() + " joker"@,
    }
}

impl JokerColor {
    /// The number of the colour as one printed digit.
    pub fn digit(&self) -> (s: &'static str)
        ensures
            s@ == joker_digit(*self),
    {
        match self {
            JokerColor::Red => "1",
            JokerColor::Black => "2",
            JokerColor::White => "3",
        }
    }
}

impl Card {
    /// The single Unicode character that pictures the card.
    pub fn to_unicode(&self) -> (r: Result<char, ()>)
        ensures
            r == Ok::<char, ()>(unicode_point(self@) as char),
    {
        proof {
            use_type_invariant(self);
        }
        if self.is_standard_card() {
            let suit_val: u8 = self.suit().ok_or(())?.number();
            let mut rank_val: u8 = self.rank().ok_or(())?.number();
            if rank_val > Rank::Jack.number() {
                rank_val += 1;
            }
            assert(suit_val << 4 == suit_val * 16) by (bit_vector)
                requires
                    suit_val <= 3,
            ;
            let mut value: u32 = 0x1F0A0;
            value += (suit_val << 4) as u32;
            value += rank_val as u32;
            Ok(char::from_u32(value).ok_or(())?)
        } else {
            let joker_color: u8 = self.joker_color().ok_or(())?.number();
            assert(joker_color << 4 == joker_color * 16) by (bit_vector)
                requires
                    joker_color <= 3,
            ;
            let mut value: u32 = 0x1F0AF;
            value += (joker_color << 4) as u32;
            Ok(char::from_u32(value).ok_or(())?)
        }
    }

    /// The card as a suit glyph and a rank mark, such as `♦K`.
    pub fn to_suit_rank(&self) -> (r: Result<String, ()>)
        ensures
            r is Ok,
            r->Ok_0@ == suit_rank_text(self@),
    {
        let mut text = String::new();
        if self.is_standard_card() {
            let suit: char = self.suit().ok_or(())?.unicode_black();
            let rank: &'static str = self.rank().ok_or(())?.index();
            text.push(suit);
            text.push_str(rank);
        } else {
            let digit: &'static str = self.joker_color().ok_or(())?.digit();
            text.push_str("🃏");
            text.push_str(digit);
        }
        Ok(text)
    }

    /// The card in plain letters, such as `Kd`.
    pub fn to_ascii(&self) -> (r: Result<String, ()>)
        ensures
            r is Ok,
            r->Ok_0@ == ascii_text(self@),
    {
        let mut text = String::new();
        if self.is_standard_card() {
            let suit: char = self.suit().ok_or(())?.letter();
            let rank: &'static str = self.rank().ok_or(())?.index();
            text.push_str(rank);
            text.push(suit);
        } else {
            let digit: &'static str = self.joker_color().ok_or(())?.digit();
            text.push_str("J");
            text.push_str(digit);
        }
        Ok(text)
    }

    /// The card's name in words, such as `king of diamonds`.
    pub fn name(&self) -> (r: Result<String, ()>)
        ensures
            r is Ok,
            r->Ok_0@ == name_text(self@),
    {
        let mut text = String::new();
        if self.is_standard_card() {
            let suit_name: &'static str = self.suit().ok_or(())?.name();
            let rank_name: &'static str = self.rank().ok_or(())?.name();
            text.push_str(rank_name);
            text.push_str(" of ");
            text.push_str(suit_name);
        } else {
            let color_name: &'static str = self.joker_color().ok_or(())?.name();
            text.push_str(color_name);
            text.push_str(" joker");
        }
        Ok(text)
    }

    /// Every card is a standard card or a joker, and never both.
    pub proof fn lemma_standard_xor_joker(card: Card)
        ensures
            card.is_standard_card() != card.is_joker(),
    {
    }

    /// The standard card made of a suit and a rank gives that suit and that
    /// rank back, and is no joker.
    pub proof fn lemma_new_round_trip(suit: Suit, rank: Rank)
        ensures
            Card::spec_new(suit, rank).is_standard_card(),
            Card::spec_new(suit, rank).suit() == Some(suit),
            Card::spec_new(suit, rank).rank() == Some(rank),
            Card::spec_new(suit, rank).joker_color().is_none(),
    {
    }

    /// The joker made of a colour gives that colour back, and has neither
    /// suit nor rank.
    pub proof fn lemma_new_joker_round_trip(color: JokerColor)
        ensures
            Card::spec_new_joker(color).is_joker(),
            Card::spec_new_joker(color).joker_color() == Some(color),
            Card::spec_new_joker(color).suit().is_none(),
            Card::spec_new_joker(color).rank().is_none(),
    {
    }
}

/// The character of a decimal digit.
pub open spec fn digit_char(digit: nat) -> char {
    ('0' as nat + digit) as char
}

/// The decimal digits of a number, the highest first, without leading zeros.
pub open spec fn decimal_text(n: nat) -> Seq<char>
    decreases n,
{
    if n < 10 {
        seq![digit_char(n)]
    } else {
        decimal_text(n / 10).push(digit_char(n % 10))
    }
}

/// Characters in the opposite order.
pub open spec fn backwards(text: Seq<char>) -> Seq<char>
    decreases text.len(),
{
    if text.len() == 0 {
        Seq::empty()
    } else {
        seq![text.last()] + backwards(text.drop_last())
    }
}

/// The character of a decimal digit.
fn digit(value: usize) -> (c: char)
    requires
        value < 10,
    ensures
        c == digit_char(value as nat),
{
    match value {
        0 => '0',
        1 => '1',
        2 => '2',
        3 => '3',
        4 => '4',
        5 => '5',
        6 => '6',
        7 => '7',
        8 => '8',
        _ => '9',
    }
}

/// A number in decimal digits.
pub fn number_text(n: usize) -> (text: String)
    ensures
        text@ == decimal_text(n as nat),
{
    // the digits below the highest, the lowest first
    let mut low_digits: Vec<char> = Vec::new();
    let mut rest: usize = n;
    while rest >= 10
        invariant
            decimal_text(n as nat) == decimal_text(rest as nat) + backwards(low_digits@),
        decreases rest,
    {
        let ghost before = low_digits@;
        let next: char = digit(rest % 10);
        low_digits.push(next);
        proof {
            assert(low_digits@.drop_last() == before);
            assert(decimal_text((rest / 10) as nat).push(next) + backwards(before) == decimal_text(
                (rest / 10) as nat,
            ) + backwards(low_digits@));
        }
        rest = rest / 10;
    }
    let mut text = String::new();
    text.push(digit(rest));
    let mut i: usize = low_digits.len();
    assert(low_digits@.take(i as int) == low_digits@);
    while i > 0
        invariant
            i <= low_digits.len(),
            text@ + backwards(low_digits@.take(i as int)) == decimal_text(n as nat),
        decreases i,
    {
        i -= 1;
        proof {
            assert(low_digits@.take(i + 1).drop_last() == low_digits@.take(i as int));
            assert(text@.push(low_digits@[i as int]) + backwards(low_digits@.take(i as int)) == text@ + (
            seq![low_digits@[i as int]] + backwards(low_digits@.take(i as int))));
        }
        text.push(low_digits[i]);
    }
    text
}

} // verus!
