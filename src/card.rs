//! Cards: a suit, a face, and the face's pip value.
use vstd::prelude::*;

verus! {

/// The four suits of a standard deck.
#[derive(Clone, Copy, Debug, PartialEq, Eq, Structural)]
pub enum Suit {
    Hearts,
    Diamonds,
    Spades,
    Clubs,
}

/// The thirteen faces of a suit.
#[derive(Clone, Copy, Debug, PartialEq, Eq, Structural)]
pub enum Face {
    Ace,
    Two,
    Three,
    Four,
    Five,
    Six,
    Seven,
    Eight,
    Nine,
    Ten,
    Jack,
    Queen,
    King,
}

/// An immutable playing card.
#[derive(Clone, Copy, Debug, PartialEq, Eq, Structural)]
pub struct Card {
    pub suit: Suit,
    pub face: Face,
}

/// Base pip value of a face: an Ace counts 1, a picture card 10.
pub open spec fn face_value(f: Face) -> nat {
    match f {
        Face::Ace => 1,
        Face::Two => 2,
        Face::Three => 3,
        Face::Four => 4,
        Face::Five => 5,
        Face::Six => 6,
        Face::Seven => 7,
        Face::Eight => 8,
        Face::Nine => 9,
        _ => 10,
    }
}

/// Position of a suit in deck order.
pub open spec fn suit_index(s: Suit) -> nat {
    match s {
        Suit::Hearts => 0,
        Suit::Diamonds => 1,
        Suit::Spades => 2,
        Suit::Clubs => 3,
    }
}

/// Position of a face within its suit in deck order.
pub open spec fn face_index(f: Face) -> nat {
    match f {
        Face::Ace => 0,
        Face::Two => 1,
        Face::Three => 2,
        Face::Four => 3,
        Face::Five => 4,
        Face::Six => 5,
        Face::Seven => 6,
        Face::Eight => 7,
        Face::Nine => 8,
        Face::Ten => 9,
        Face::Jack => 10,
        Face::Queen => 11,
        Face::King => 12,
    }
}

/// The suit at a position (0..4) in deck order.
pub open spec fn suit_at(i: int) -> Suit {
    if i == 0 {
        Suit::Hearts
    } else if i == 1 {
        Suit::Diamonds
    } else if i == 2 {
        Suit::Spades
    } else {
        Suit::Clubs
    }
}

/// The face at a position (0..13) within a suit.
pub open spec fn face_at(i: int) -> Face {
    if i == 0 {
        Face::Ace
    } else if i == 1 {
        Face::Two
    } else if i == 2 {
        Face::Three
    } else if i == 3 {
        Face::Four
    } else if i == 4 {
        Face::Five
    } else if i == 5 {
        Face::Six
    } else if i == 6 {
        Face::Seven
    } else if i == 7 {
        Face::Eight
    } else if i == 8 {
        Face::Nine
    } else if i == 9 {
        Face::Ten
    } else if i == 10 {
        Face::Jack
    } else if i == 11 {
        Face::Queen
    } else {
        Face::King
    }
}

/// Position of a card in a fresh deck (0..52): suits in order, faces within.
pub open spec fn card_index(c: Card) -> nat {
    suit_index(c.suit) * 13 + face_index(c.face)
}

/// The card at a position (0..52) of a fresh deck.
pub open spec fn card_at(i: int) -> Card {
    Card { suit: suit_at(i / 13), face: face_at(i % 13) }
}

/// Deck positions and cards are in one-to-one correspondence.
pub proof fn lemma_card_index_bijection(c: Card, i: int)
    requires
        0 <= i < 52,
    ensures
        card_index(c) < 52,
        card_at(card_index(c) as int) == c,
        card_index(card_at(i)) == i,
{
}

impl Card {
    pub fn new(suit: Suit, face: Face) -> (r: Card)
        ensures
            r.suit == suit,
            r.face == face,
    {
        Card { suit, face }
    }

    /// Base pip value (Ace = 1, picture cards = 10).
    pub fn value(&self) -> (r: u8)
        ensures
            r as nat == face_value(self.face),
            1 <= r <= 10,
    {
        match self.face {
            Face::Ace => 1,
            Face::Two => 2,
            Face::Three => 3,
            Face::Four => 4,
            Face::Five => 5,
            Face::Six => 6,
            Face::Seven => 7,
            Face::Eight => 8,
            Face::Nine => 9,
            _ => 10,
        }
    }

    pub fn is_ace(&self) -> (r: bool)
        ensures
            r == (self.face == Face::Ace),
    {
        match self.face {
            Face::Ace => true,
            _ => false,
        }
    }

    /// The card at a position (0..52) of a fresh deck.
    pub fn at_position(i: usize) -> (r: Card)
        requires
            i < 52,
        ensures
            r == card_at(i as int),
    {
        let s = if i / 13 == 0 {
            Suit::Hearts
        } else if i / 13 == 1 {
            Suit::Diamonds
        } else if i / 13 == 2 {
            Suit::Spades
        } else {
            Suit::Clubs
        };
        let k = i % 13;
        let f = if k == 0 {
            Face::Ace
        } else if k == 1 {
            Face::Two
        } else if k == 2 {
            Face::Three
        } else if k == 3 {
            Face::Four
        } else if k == 4 {
            Face::Five
        } else if k == 5 {
            Face::Six
        } else if k == 6 {
            Face::Seven
        } else if k == 7 {
            Face::Eight
        } else if k == 8 {
            Face::Nine
        } else if k == 9 {
            Face::Ten
        } else if k == 10 {
            Face::Jack
        } else if k == 11 {
            Face::Queen
        } else {
            Face::King
        };
        Card { suit: s, face: f }
    }
}

} // verus!
