//! Cards: ten faces, four suits, two derived colors, and the total order
//! over (color, face, suit) that every sorted collection uses.

use vstd::prelude::*;

verus! {

/// The ten ranks of the deck, in ascending play order.
#[derive(Clone, Copy, Debug, PartialEq, Eq, PartialOrd, Ord, Structural)]
pub enum Face {
    Two,
    Three,
    Four,
    Five,
    Six,
    Seven,
    Jack,
    Queen,
    King,
    Ace,
}

/// The four suits.
#[derive(Clone, Copy, Debug, PartialEq, Eq, PartialOrd, Ord, Structural)]
pub enum Suit {
    Spades,
    Hearts,
    Diamonds,
    Clubs,
}

/// A card's color, derived from its suit.
#[derive(Clone, Copy, Debug, PartialEq, Eq, PartialOrd, Ord, Structural)]
pub enum Color {
    Red,
    Black,
}

/// A single card: the player whose deck it came from, a suit, and a face.
#[derive(Clone, Copy, Debug, PartialEq, Eq, Structural)]
pub struct Card {
    pub player: u32,
    pub suit: Suit,
    pub face: Face,
}

/// Position of a face in the ascending rank order (`Two` is 0, `Ace` is 9).
pub open spec fn face_rank(f: Face) -> int {
    match f {
        Face::Two => 0,
        Face::Three => 1,
        Face::Four => 2,
        Face::Five => 3,
        Face::Six => 4,
        Face::Seven => 5,
        Face::Jack => 6,
        Face::Queen => 7,
        Face::King => 8,
        Face::Ace => 9,
    }
}

/// Position of a suit in the suit order.
pub open spec fn suit_rank(s: Suit) -> int {
    match s {
        Suit::Spades => 0,
        Suit::Hearts => 1,
        Suit::Diamonds => 2,
        Suit::Clubs => 3,
    }
}

/// Position of a color in the color order: red sorts before black.
pub open spec fn color_rank(c: Color) -> int {
    match c {
        Color::Red => 0,
        Color::Black => 1,
    }
}

/// The color a suit maps to: spades and clubs are black, hearts and
/// diamonds are red.
pub open spec fn suit_color(s: Suit) -> Color {
    match s {
        Suit::Spades | Suit::Clubs => Color::Black,
        Suit::Hearts | Suit::Diamonds => Color::Red,
    }
}

/// The color of a card, derived from its suit.
pub open spec fn card_color(c: Card) -> Color {
    suit_color(c.suit)
}

/// Sort key of a card in hands and gem pools: lexicographic over
/// (color, face, suit), encoded as one integer.
pub open spec fn card_key(c: Card) -> int {
    color_rank(card_color(c)) * 40 + face_rank(c.face) * 4 + suit_rank(c.suit)
}

/// The face that immediately follows `f` in a straight. Only the gem
/// range has successors: `Two` through `Six` step to the next rank,
/// everything from `Seven` up has none.
pub open spec fn face_next(f: Face) -> Option<Face> {
    match f {
        Face::Two => Some(Face::Three),
        Face::Three => Some(Face::Four),
        Face::Four => Some(Face::Five),
        Face::Five => Some(Face::Six),
        Face::Six => Some(Face::Seven),
        _ => None,
    }
}

impl Face {
    /// All ten faces, in ascending rank order.
    pub fn all() -> (r: Vec<Face>)
        ensures
            r@.len() == 10,
            forall|i: int| 0 <= i < 10 ==> face_rank(#[trigger] r@[i]) == i,
    {
        let mut v: Vec<Face> = Vec::new();
        v.push(Face::Two);
        v.push(Face::Three);
        v.push(Face::Four);
        v.push(Face::Five);
        v.push(Face::Six);
        v.push(Face::Seven);
        v.push(Face::Jack);
        v.push(Face::Queen);
        v.push(Face::King);
        v.push(Face::Ace);
        v
    }

    /// The immediate successor rank inside the gem range, if any.
    pub fn next(&self) -> (r: Option<Face>)
        ensures
            r == face_next(*self),
    {
        match *self {
            Face::Two => Some(Face::Three),
            Face::Three => Some(Face::Four),
            Face::Four => Some(Face::Five),
            Face::Five => Some(Face::Six),
            Face::Six => Some(Face::Seven),
            _ => None,
        }
    }
}

impl Suit {
    /// All four suits, in suit order.
    pub fn all() -> (r: Vec<Suit>)
        ensures
            r@.len() == 4,
            forall|i: int| 0 <= i < 4 ==> suit_rank(#[trigger] r@[i]) == i,
    {
        let mut v: Vec<Suit> = Vec::new();
        v.push(Suit::Spades);
        v.push(Suit::Hearts);
        v.push(Suit::Diamonds);
        v.push(Suit::Clubs);
        v
    }

    /// The color of this suit.
    pub fn color(&self) -> (r: Color)
        ensures
            r == suit_color(*self),
    {
        match *self {
            Suit::Spades | Suit::Clubs => Color::Black,
            Suit::Hearts | Suit::Diamonds => Color::Red,
        }
    }
}

impl Color {
    /// Both colors, in color order.
    pub fn all() -> (r: Vec<Color>)
        ensures
            r@.len() == 2,
            r@[0] == Color::Red,
            r@[1] == Color::Black,
    {
        let mut v: Vec<Color> = Vec::new();
        v.push(Color::Red);
        v.push(Color::Black);
        v
    }
}

impl Card {
    /// The color of this card.
    pub fn color(&self) -> (r: Color)
        ensures
            r == card_color(*self),
    {
        self.suit.color()
    }
}

/// The (color, face, suit) key of a card, as executable code.
pub fn card_key_exec(c: &Card) -> (k: u32)
    ensures
        k as int == card_key(*c),
{
    let color: u32 = match c.suit.color() {
        Color::Red => 0,
        Color::Black => 1,
    };
    let face: u32 = match c.face {
        Face::Two => 0,
        Face::Three => 1,
        Face::Four => 2,
        Face::Five => 3,
        Face::Six => 4,
        Face::Seven => 5,
        Face::Jack => 6,
        Face::Queen => 7,
        Face::King => 8,
        Face::Ace => 9,
    };
    let suit: u32 = match c.suit {
        Suit::Spades => 0,
        Suit::Hearts => 1,
        Suit::Diamonds => 2,
        Suit::Clubs => 3,
    };
    color * 40 + face * 4 + suit
}

} // verus!
