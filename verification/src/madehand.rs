//! Made hands: the ten categories of five-card poker hands, with the ranks
//! that break ties inside a category.

use crate::card::Value;
use std::cmp::Ordering;
use vstd::prelude::*;

verus! {

/// The category of a five-card hand together with its tie-breaking ranks.
///
/// The variants are declared from the weakest category to the strongest. The
/// ranks of a variant are listed from the most significant to the least.
#[derive(Debug, Clone, Copy, PartialEq, Eq, Structural, Ord)]
pub enum MadeHand {
    /// Five unpaired ranks, highest first.
    HighCard(Value, Value, Value, Value, Value),
    /// The rank of the pair, then the three kickers, highest first.
    OnePair(Value, Value, Value, Value),
    /// The higher pair, the lower pair, the kicker.
    TwoPair(Value, Value, Value),
    /// The rank of the three of a kind, then the two kickers, highest first.
    ThreeCard(Value, Value, Value),
    /// The highest rank of the straight; `Five` for the wheel.
    Straight(Value),
    /// The highest rank of the flush.
    Flush(Value),
    /// The rank of the three of a kind, then the rank of the pair.
    FullHouse(Value, Value),
    /// The rank of the four of a kind, then the kicker.
    FourCard(Value, Value),
    /// The highest rank of the straight flush; `Five` for the wheel.
    StraightFlush(Value),
    /// The ace-high straight flush.
    RoyalStraightFlush,
}

impl MadeHand {
    /// Place of the category in the order from weakest to strongest.
    pub open spec fn category(self) -> int {
        match self {
            MadeHand::HighCard(..) => 0,
            MadeHand::OnePair(..) => 1,
            MadeHand::TwoPair(..) => 2,
            MadeHand::ThreeCard(..) => 3,
            MadeHand::Straight(..) => 4,
            MadeHand::Flush(..) => 5,
            MadeHand::FullHouse(..) => 6,
            MadeHand::FourCard(..) => 7,
            MadeHand::StraightFlush(..) => 8,
            MadeHand::RoyalStraightFlush => 9,
        }
    }

    /// The tie-breaking ranks of the hand as positions, most significant
    /// first.
    pub open spec fn tiebreak(self) -> Seq<int> {
        match self {
            MadeHand::HighCard(a, b, c, d, e) => seq![
                a.rank(),
                b.rank(),
                c.rank(),
                d.rank(),
                e.rank(),
            ],
            MadeHand::OnePair(a, b, c, d) => seq![a.rank(), b.rank(), c.rank(), d.rank()],
            MadeHand::TwoPair(a, b, c) => seq![a.rank(), b.rank(), c.rank()],
            MadeHand::ThreeCard(a, b, c) => seq![a.rank(), b.rank(), c.rank()],
            MadeHand::Straight(a) => seq![a.rank()],
            MadeHand::Flush(a) => seq![a.rank()],
            MadeHand::FullHouse(a, b) => seq![a.rank(), b.rank()],
            MadeHand::FourCard(a, b) => seq![a.rank(), b.rank()],
            MadeHand::StraightFlush(a) => seq![a.rank()],
            MadeHand::RoyalStraightFlush => Seq::empty(),
        }
    }

    /// The `i`-th tie-breaking rank, or 0 where the hand has fewer.
    pub open spec fn digit(self, i: int) -> int {
        if 0 <= i < self.tiebreak().len() {
            self.tiebreak()[i]
        } else {
            0
        }
    }

    /// The strength of the hand as one number: the category, then the
    /// tie-breaking ranks, read as digits to the base 13.
    ///
    /// A hand beats another exactly when its strength is greater, which is
    /// the order by category first and by the tie-breaking ranks, compared
    /// from the most significant on, second.
    pub open spec fn strength(self) -> int {
        ((((self.category() * 13 + self.digit(0)) * 13 + self.digit(1)) * 13 + self.digit(2)) * 13
            + self.digit(3)) * 13 + self.digit(4)
    }

    /// Whether this hand ranks strictly below the other: a lower category,
    /// or the same category and a lower rank at the first place where the
    /// tie-breaking ranks differ.
    pub open spec fn ranks_below(self, other: MadeHand) -> bool {
        self.category() < other.category() || (self.category() == other.category() && exists|
            i: int,
        |
            0 <= i < 5 && self.digit(i) < other.digit(i) && forall|j: int|
                0 <= j < i ==> self.digit(j) == other.digit(j))
    }

    /// The strength of the hand as one number; the stronger hand has the
    /// greater number.
    pub fn score(&self) -> (n: u32)
        ensures
            n as int == self.strength(),
    {
        let (category, a, b, c, d, e): (u32, u32, u32, u32, u32, u32) = match self {
            MadeHand::HighCard(a, b, c, d, e) => (
                0,
                a.index() as u32,
                b.index() as u32,
                c.index() as u32,
                d.index() as u32,
                e.index() as u32,
            ),
            MadeHand::OnePair(a, b, c, d) => (
                1,
                a.index() as u32,
                b.index() as u32,
                c.index() as u32,
                d.index() as u32,
                0,
            ),
            MadeHand::TwoPair(a, b, c) => (
                2,
                a.index() as u32,
                b.index() as u32,
                c.index() as u32,
                0,
                0,
            ),
            MadeHand::ThreeCard(a, b, c) => (
                3,
                a.index() as u32,
                b.index() as u32,
                c.index() as u32,
                0,
                0,
            ),
            MadeHand::Straight(a) => (4, a.index() as u32, 0, 0, 0, 0),
            MadeHand::Flush(a) => (5, a.index() as u32, 0, 0, 0, 0),
            MadeHand::FullHouse(a, b) => (6, a.index() as u32, b.index() as u32, 0, 0, 0),
            MadeHand::FourCard(a, b) => (7, a.index() as u32, b.index() as u32, 0, 0, 0),
            MadeHand::StraightFlush(a) => (8, a.index() as u32, 0, 0, 0, 0),
            MadeHand::RoyalStraightFlush => (9, 0, 0, 0, 0, 0),
        };
        ((((category * 13 + a) * 13 + b) * 13 + c) * 13 + d) * 13 + e
    }

    /// Whether this hand ranks strictly below the other.
    pub fn is_below(&self, other: &MadeHand) -> (r: bool)
        ensures
            r == self.ranks_below(*other),
    {
        proof {
            lemma_strength_orders(*self, *other);
        }
        self.score() < other.score()
    }
}

impl PartialOrd for MadeHand {
    /// Compares two hands by their strength.
    fn partial_cmp(&self, other: &MadeHand) -> (r: Option<Ordering>) {
        let mine = self.score();
        let theirs = other.score();
        if mine < theirs {
            Some(Ordering::Less)
        } else if mine > theirs {
            Some(Ordering::Greater)
        } else {
            Some(Ordering::Equal)
        }
    }
}

impl vstd::std_specs::cmp::PartialOrdSpecImpl for MadeHand {
    open spec fn obeys_partial_cmp_spec() -> bool {
        true
    }

    /// Hands are ordered by their strength.
    open spec fn partial_cmp_spec(&self, other: &MadeHand) -> Option<Ordering> {
        if self.strength() < other.strength() {
            Some(Ordering::Less)
        } else if self.strength() > other.strength() {
            Some(Ordering::Greater)
        } else {
            Some(Ordering::Equal)
        }
    }
}

/// Every tie-breaking rank of a hand is a rank position, from 0 to 12.
pub proof fn lemma_digit_range(h: MadeHand, i: int)
    ensures
        0 <= h.digit(i) < 13,
        0 <= h.category() < 10,
{
    let t = h.tiebreak();
    if 0 <= i < t.len() {
        assert(t.len() <= 5);
        if i == 0 {
            assert(0 <= t[0] < 13);
        } else if i == 1 {
            assert(0 <= t[1] < 13);
        } else if i == 2 {
            assert(0 <= t[2] < 13);
        } else if i == 3 {
            assert(0 <= t[3] < 13);
        } else {
            assert(0 <= t[4] < 13);
        }
    }
}

/// The strength orders hands as poker does: a hand has the lower strength
/// exactly when it ranks below the other, by category first and by the
/// first differing tie-breaking rank second.
pub proof fn lemma_strength_orders(a: MadeHand, b: MadeHand)
    ensures
        a.strength() < b.strength() <==> a.ranks_below(b),
{
    lemma_digit_range(a, 0);
    lemma_digit_range(a, 1);
    lemma_digit_range(a, 2);
    lemma_digit_range(a, 3);
    lemma_digit_range(a, 4);
    lemma_digit_range(b, 0);
    lemma_digit_range(b, 1);
    lemma_digit_range(b, 2);
    lemma_digit_range(b, 3);
    lemma_digit_range(b, 4);
    if a.category() == b.category() {
        if a.digit(0) != b.digit(0) {
            if a.digit(0) < b.digit(0) {
                assert(0 <= 0 < 5 && a.digit(0) < b.digit(0));
            }
        } else if a.digit(1) != b.digit(1) {
            if a.digit(1) < b.digit(1) {
                assert(0 <= 1 < 5 && a.digit(1) < b.digit(1));
            }
        } else if a.digit(2) != b.digit(2) {
            if a.digit(2) < b.digit(2) {
                assert(0 <= 2 < 5 && a.digit(2) < b.digit(2));
            }
        } else if a.digit(3) != b.digit(3) {
            if a.digit(3) < b.digit(3) {
                assert(0 <= 3 < 5 && a.digit(3) < b.digit(3));
            }
        } else if a.digit(4) != b.digit(4) {
            if a.digit(4) < b.digit(4) {
                assert(0 <= 4 < 5 && a.digit(4) < b.digit(4));
            }
        }
    }
}

/// Two hands of equal strength are the same hand.
pub proof fn lemma_strength_distinguishes(a: MadeHand, b: MadeHand)
    requires
        a.strength() == b.strength(),
    ensures
        a == b,
{
    lemma_digit_range(a, 0);
    lemma_digit_range(a, 1);
    lemma_digit_range(a, 2);
    lemma_digit_range(a, 3);
    lemma_digit_range(a, 4);
    lemma_digit_range(b, 0);
    lemma_digit_range(b, 1);
    lemma_digit_range(b, 2);
    lemma_digit_range(b, 3);
    lemma_digit_range(b, 4);
    assert(a.category() == b.category());
    assert(a.digit(0) == b.digit(0));
    assert(a.digit(1) == b.digit(1));
    assert(a.digit(2) == b.digit(2));
    assert(a.digit(3) == b.digit(3));
    assert(a.digit(4) == b.digit(4));
    lemma_same_digits(a, b);
}

/// Two hands of one category with the same tie-breaking ranks are the same
/// hand.
pub proof fn lemma_same_digits(a: MadeHand, b: MadeHand)
    requires
        a.category() == b.category(),
        forall|i: int| 0 <= i < 5 ==> a.digit(i) == b.digit(i),
    ensures
        a == b,
{
    assert(a.digit(0) == b.digit(0));
    assert(a.digit(1) == b.digit(1));
    assert(a.digit(2) == b.digit(2));
    assert(a.digit(3) == b.digit(3));
    assert(a.digit(4) == b.digit(4));
}

} // verus!
