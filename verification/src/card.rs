//! Ranks, suits and single cards, and the characters that denote them.

use vstd::prelude::*;

verus! {

/// The rank of a card, from `Two` (lowest) to `Ace` (highest).
#[derive(Clone, Copy, Debug, PartialEq, Eq, Structural, PartialOrd, Ord, Hash)]
pub enum Value {
    Two,
    Three,
    Four,
    Five,
    Six,
    Seven,
    Eight,
    Nine,
    Ten,
    Jack,
    Queen,
    King,
    Ace,
}

/// The suit of a card.
#[derive(Clone, Copy, Debug, PartialEq, Eq, Structural, PartialOrd, Ord, Hash)]
pub enum Suit {
    Spade,
    Club,
    Heart,
    Diamond,
}

/// A playing card: a rank and a suit.
#[derive(Clone, Copy, Debug, PartialEq, Eq, Structural, PartialOrd, Ord, Hash)]
pub struct Card {
    pub value: Value,
    pub suit: Suit,
}

impl Value {
    /// Position of the rank in the order `Two`, ..., `Ace`, counted from 0.
    pub open spec fn rank(self) -> int {
        match self {
            Value::Two => 0,
            Value::Three => 1,
            Value::Four => 2,
            Value::Five => 3,
            Value::Six => 4,
            Value::Seven => 5,
            Value::Eight => 6,
            Value::Nine => 7,
            Value::Ten => 8,
            Value::Jack => 9,
            Value::Queen => 10,
            Value::King => 11,
            Value::Ace => 12,
        }
    }

    /// The rank at position `i`; positions above 12 denote `Ace`.
    pub open spec fn at(i: int) -> Value {
        if i <= 0 {
            Value::Two
        } else if i == 1 {
            Value::Three
        } else if i == 2 {
            Value::Four
        } else if i == 3 {
            Value::Five
        } else if i == 4 {
            Value::Six
        } else if i == 5 {
            Value::Seven
        } else if i == 6 {
            Value::Eight
        } else if i == 7 {
            Value::Nine
        } else if i == 8 {
            Value::Ten
        } else if i == 9 {
            Value::Jack
        } else if i == 10 {
            Value::Queen
        } else if i == 11 {
            Value::King
        } else {
            Value::Ace
        }
    }

    /// The rank that a character denotes, in either case.
    pub open spec fn of_char(c: char) -> Option<Value> {
        if c == 'A' || c == 'a' {
            Some(Value::Ace)
        } else if c == 'K' || c == 'k' {
            Some(Value::King)
        } else if c == 'Q' || c == 'q' {
            Some(Value::Queen)
        } else if c == 'J' || c == 'j' {
            Some(Value::Jack)
        } else if c == 'T' || c == 't' {
            Some(Value::Ten)
        } else if c == '9' {
            Some(Value::Nine)
        } else if c == '8' {
            Some(Value::Eight)
        } else if c == '7' {
            Some(Value::Seven)
        } else if c == '6' {
            Some(Value::Six)
        } else if c == '5' {
            Some(Value::Five)
        } else if c == '4' {
            Some(Value::Four)
        } else if c == '3' {
            Some(Value::Three)
        } else if c == '2' {
            Some(Value::Two)
        } else {
            None
        }
    }

    /// Position of the rank, as a machine integer.
    pub fn index(&self) -> (i: u8)
        ensures
            i as int == self.rank(),
            i < 13,
    {
        match self {
            Value::Two => 0,
            Value::Three => 1,
            Value::Four => 2,
            Value::Five => 3,
            Value::Six => 4,
            Value::Seven => 5,
            Value::Eight => 6,
            Value::Nine => 7,
            Value::Ten => 8,
            Value::Jack => 9,
            Value::Queen => 10,
            Value::King => 11,
            Value::Ace => 12,
        }
    }

    /// The rank at a position; positions above 12 give `Ace`.
    pub fn from_index(i: u8) -> (v: Value)
        ensures
            v == Value::at(i as int),
            i < 13 ==> v.rank() == i,
    {
        match i {
            0 => Value::Two,
            1 => Value::Three,
            2 => Value::Four,
            3 => Value::Five,
            4 => Value::Six,
            5 => Value::Seven,
            6 => Value::Eight,
            7 => Value::Nine,
            8 => Value::Ten,
            9 => Value::Jack,
            10 => Value::Queen,
            11 => Value::King,
            _ => Value::Ace,
        }
    }

    /// Parses a rank character (`2`-`9`, `T`, `J`, `Q`, `K`, `A`), ignoring
    /// ASCII case.
    pub fn from_char(c: char) -> (r: Option<Value>)
        ensures
            r == Value::of_char(c),
    {
        match rank_index_of_char(c) {
            Some(i) => Some(Value::from_index(i)),
            None => None,
        }
    }
}

/// `rs_poker::core::Value::from_char`, with the rank given by its position.
///
/// Trusted: the call accepts exactly the thirteen rank characters in either
/// ASCII case, and the number it yields for a rank is the rank's position
/// counted from `Two` as 0.
#[verifier::external_body]
fn rank_index_of_char(c: char) -> (r: Option<u8>)
    ensures
        r.is_some() == Value::of_char(c).is_some(),
        r matches Some(i) ==> i as int == Value::of_char(c).unwrap().rank(),
{
    match rs_poker::core::Value::from_char(c) {
        Some(v) => Some(v as u8),
        None => None,
    }
}

impl Suit {
    /// Position of the suit in the order spade, club, heart, diamond.
    pub open spec fn ordinal(self) -> int {
        match self {
            Suit::Spade => 0,
            Suit::Club => 1,
            Suit::Heart => 2,
            Suit::Diamond => 3,
        }
    }

    /// The suit at position `i`; positions above 3 denote `Diamond`.
    pub open spec fn at(i: int) -> Suit {
        if i <= 0 {
            Suit::Spade
        } else if i == 1 {
            Suit::Club
        } else if i == 2 {
            Suit::Heart
        } else {
            Suit::Diamond
        }
    }

    /// The suit that a character denotes, in either case.
    pub open spec fn of_char(c: char) -> Option<Suit> {
        if c == 'd' || c == 'D' {
            Some(Suit::Diamond)
        } else if c == 's' || c == 'S' {
            Some(Suit::Spade)
        } else if c == 'h' || c == 'H' {
            Some(Suit::Heart)
        } else if c == 'c' || c == 'C' {
            Some(Suit::Club)
        } else {
            None
        }
    }

    /// Position of the suit, as a machine integer.
    pub fn index(&self) -> (i: u8)
        ensures
            i as int == self.ordinal(),
            i < 4,
    {
        match self {
            Suit::Spade => 0,
            Suit::Club => 1,
            Suit::Heart => 2,
            Suit::Diamond => 3,
        }
    }

    /// The suit at a position; positions above 3 give `Diamond`.
    pub fn from_index(i: u8) -> (s: Suit)
        ensures
            s == Suit::at(i as int),
            i < 4 ==> s.ordinal() == i,
    {
        match i {
            0 => Suit::Spade,
            1 => Suit::Club,
            2 => Suit::Heart,
            _ => Suit::Diamond,
        }
    }

    /// Parses a suit character (`s`, `c`, `h`, `d`), ignoring ASCII case.
    pub fn from_char(c: char) -> (r: Option<Suit>)
        ensures
            r == Suit::of_char(c),
    {
        match suit_index_of_char(c) {
            Some(i) => Some(Suit::from_index(i)),
            None => None,
        }
    }
}

/// `rs_poker::core::Suit::from_char`, with the suit given by its position.
///
/// Trusted: the call accepts exactly the four suit characters in either
/// ASCII case, and the number it yields is 0 for spade, 1 for club, 2 for
/// heart and 3 for diamond.
#[verifier::external_body]
fn suit_index_of_char(c: char) -> (r: Option<u8>)
    ensures
        r.is_some() == Suit::of_char(c).is_some(),
        r matches Some(i) ==> i as int == Suit::of_char(c).unwrap().ordinal(),
{
    match rs_poker::core::Suit::from_char(c) {
        Some(s) => Some(s as u8),
        None => None,
    }
}

/// Every rank is the rank at its own position.
pub proof fn lemma_value_at_rank(v: Value)
    ensures
        Value::at(v.rank()) == v,
        0 <= v.rank() < 13,
{
}

/// Every suit is the suit at its own position.
pub proof fn lemma_suit_at_ordinal(s: Suit)
    ensures
        Suit::at(s.ordinal()) == s,
        0 <= s.ordinal() < 4,
{
}

} // verus!
