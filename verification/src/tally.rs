//! How often a rank or a suit occurs among cards.
//!
//! A hand is taken as the multiset of its cards, so that nothing here
//! depends on the order in which the cards were given.

use crate::card::{Card, Suit};
use vstd::multiset::*;
use vstd::prelude::*;

verus! {

/// The test "has the rank at position `r`".
pub open spec fn with_rank(r: int) -> spec_fn(Card) -> bool {
    |c: Card| c.value.rank() == r
}

/// The test "has the suit `s`".
pub open spec fn with_suit(s: Suit) -> spec_fn(Card) -> bool {
    |c: Card| c.suit == s
}

/// Number of cards of the hand that have the rank at position `r`.
pub open spec fn rank_count(m: Multiset<Card>, r: int) -> nat {
    m.filter(with_rank(r)).len()
}

/// Number of cards of the hand that have the suit `s`.
pub open spec fn suit_count(m: Multiset<Card>, s: Suit) -> nat {
    m.filter(with_suit(s)).len()
}

/// Number of cards of the hand whose rank lies at position `lo` or above.
pub open spec fn held_from(m: Multiset<Card>, lo: int) -> nat
    decreases 13 - lo,
{
    if lo >= 13 {
        0
    } else {
        rank_count(m, lo) + held_from(m, lo + 1)
    }
}

/// Filtering after adding a card adds the card to the filtered hand when it
/// passes the test, and changes nothing otherwise.
pub proof fn lemma_filter_insert<A>(m: Multiset<A>, p: spec_fn(A) -> bool, c: A)
    ensures
        m.insert(c).filter(p) == if p(c) {
            m.filter(p).insert(c)
        } else {
            m.filter(p)
        },
        m.insert(c).filter(p).len() == m.filter(p).len() + if p(c) {
            1nat
        } else {
            0nat
        },
{
    broadcast use {group_multiset_axioms, group_multiset_properties};

    let lhs = m.insert(c).filter(p);
    let rhs = if p(c) {
        m.filter(p).insert(c)
    } else {
        m.filter(p)
    };
    assert forall|x: A| lhs.count(x) == rhs.count(x) by {
        if x == c {
        } else {
        }
    }
    assert(lhs =~= rhs);
}

/// Nothing passes a filter of the empty hand.
pub proof fn lemma_filter_empty<A>(p: spec_fn(A) -> bool)
    ensures
        Multiset::<A>::empty().filter(p).len() == 0,
{
    broadcast use {group_multiset_axioms, group_multiset_properties};

    assert(Multiset::<A>::empty().filter(p) =~= Multiset::<A>::empty());
}

/// Adding a card raises the count of its own rank by one and leaves every
/// other rank's count as it was.
pub proof fn lemma_rank_count_insert(m: Multiset<Card>, c: Card, r: int)
    ensures
        rank_count(m.insert(c), r) == rank_count(m, r) + if c.value.rank() == r {
            1nat
        } else {
            0nat
        },
{
    lemma_filter_insert(m, with_rank(r), c);
}

/// Adding a card raises the count of its own suit by one and leaves every
/// other suit's count as it was.
pub proof fn lemma_suit_count_insert(m: Multiset<Card>, c: Card, s: Suit)
    ensures
        suit_count(m.insert(c), s) == suit_count(m, s) + if c.suit == s {
            1nat
        } else {
            0nat
        },
{
    lemma_filter_insert(m, with_suit(s), c);
}

/// Adding a card adds one to the number of cards held from a position on
/// exactly when the card's rank lies at that position or above.
pub proof fn lemma_held_from_insert(m: Multiset<Card>, c: Card, lo: int)
    requires
        0 <= lo,
    ensures
        held_from(m.insert(c), lo) == held_from(m, lo) + if lo <= c.value.rank() {
            1nat
        } else {
            0nat
        },
    decreases 13 - lo,
{
    if lo < 13 {
        lemma_rank_count_insert(m, c, lo);
        lemma_held_from_insert(m, c, lo + 1);
    }
}

/// The rank counts of a hand add up to the number of its cards.
pub proof fn lemma_held_total(s: Seq<Card>)
    ensures
        held_from(s.to_multiset(), 0) == s.len(),
        forall|r: int| 0 <= r < 13 ==> rank_count(s.to_multiset(), r) <= s.len(),
    decreases s.len(),
{
    broadcast use {group_multiset_axioms, group_multiset_properties};

    s.to_multiset_ensures();
    assert forall|r: int| 0 <= r < 13 implies rank_count(s.to_multiset(), r) <= s.len() by {
        lemma_filter_le(s.to_multiset(), with_rank(r));
    }
    if s.len() == 0 {
        assert(s.to_multiset().len() == 0);
        assert(s.to_multiset() =~= Multiset::<Card>::empty());
        lemma_held_from_empty(0);
    } else {
        let front = s.drop_last();
        lemma_held_total(front);
        front.to_multiset_ensures();
        assert(front.push(s.last()) =~= s);
        assert(s.to_multiset() == front.to_multiset().insert(s.last()));
        lemma_held_from_insert(front.to_multiset(), s.last(), 0);
    }
}

/// The empty hand holds no card from any position on.
pub proof fn lemma_held_from_empty(lo: int)
    ensures
        held_from(Multiset::<Card>::empty(), lo) == 0,
    decreases 13 - lo,
{
    if lo < 13 {
        lemma_filter_empty(with_rank(lo));
        lemma_held_from_empty(lo + 1);
    }
}

/// A filtered hand has no more cards than the hand.
pub proof fn lemma_filter_le<A>(m: Multiset<A>, p: spec_fn(A) -> bool)
    ensures
        m.filter(p).len() <= m.len(),
    decreases m.len(),
{
    broadcast use {group_multiset_axioms, group_multiset_properties};

    if m.len() == 0 {
        assert(m =~= Multiset::<A>::empty());
        lemma_filter_empty(p);
    } else {
        let x = m.choose();
        let rest = m.remove(x);
        assert(rest.insert(x) =~= m);
        lemma_filter_le(rest, p);
        lemma_filter_insert(rest, p, x);
    }
}

/// A rank is counted at least once exactly when some card of the hand has
/// it.
pub proof fn lemma_rank_present(s: Seq<Card>, r: int)
    ensures
        rank_count(s.to_multiset(), r) > 0 <==> exists|j: int|
            0 <= j < s.len() && (#[trigger] s[j]).value.rank() == r,
{
    broadcast use {group_multiset_axioms, group_multiset_properties};

    s.to_multiset_ensures();
    let m = s.to_multiset();
    let f = m.filter(with_rank(r));
    if f.len() > 0 {
        let c = f.choose();
        assert(f.count(c) > 0);
        assert(m.count(c) > 0);
        assert(s.contains(c));
        let j = choose|j: int| 0 <= j < s.len() && s[j] == c;
        assert(s[j].value.rank() == r);
    }
    if exists|j: int| 0 <= j < s.len() && (#[trigger] s[j]).value.rank() == r {
        let j = choose|j: int| 0 <= j < s.len() && (#[trigger] s[j]).value.rank() == r;
        assert(s.contains(s[j]));
        assert(f.count(s[j]) > 0);
        assert(f.count(s[j]) <= f.len());
    }
}

/// A hand within another has no more cards than the other.
pub proof fn lemma_within_len<A>(a: Multiset<A>, b: Multiset<A>)
    requires
        a.subset_of(b),
    ensures
        a.len() <= b.len(),
{
    broadcast use {group_multiset_axioms, group_multiset_properties};

    assert(a.add(b.sub(a)) =~= b);
}

/// A hand within another holds no rank and no suit more often than the
/// other.
pub proof fn lemma_within_counts(a: Multiset<Card>, b: Multiset<Card>)
    requires
        a.subset_of(b),
    ensures
        forall|r: int| rank_count(a, r) <= rank_count(b, r),
        forall|s: Suit| suit_count(a, s) <= suit_count(b, s),
{
    broadcast use {group_multiset_axioms, group_multiset_properties};

    assert forall|r: int| rank_count(a, r) <= rank_count(b, r) by {
        assert(a.filter(with_rank(r)).subset_of(b.filter(with_rank(r))));
        lemma_within_len(a.filter(with_rank(r)), b.filter(with_rank(r)));
    }
    assert forall|s: Suit| suit_count(a, s) <= suit_count(b, s) by {
        assert(a.filter(with_suit(s)).subset_of(b.filter(with_suit(s))));
        lemma_within_len(a.filter(with_suit(s)), b.filter(with_suit(s)));
    }
}

/// The suit counts of a hand add up to the number of its cards.
pub proof fn lemma_suit_total(s: Seq<Card>)
    ensures
        suit_count(s.to_multiset(), Suit::Spade) + suit_count(s.to_multiset(), Suit::Club)
            + suit_count(s.to_multiset(), Suit::Heart) + suit_count(
            s.to_multiset(),
            Suit::Diamond,
        ) == s.len(),
    decreases s.len(),
{
    broadcast use {group_multiset_axioms, group_multiset_properties};

    s.to_multiset_ensures();
    if s.len() == 0 {
        assert(s.to_multiset() =~= Multiset::<Card>::empty());
        lemma_filter_empty(with_suit(Suit::Spade));
        lemma_filter_empty(with_suit(Suit::Club));
        lemma_filter_empty(with_suit(Suit::Heart));
        lemma_filter_empty(with_suit(Suit::Diamond));
    } else {
        let front = s.drop_last();
        lemma_suit_total(front);
        front.to_multiset_ensures();
        assert(front.push(s.last()) =~= s);
        assert(s.to_multiset() == front.to_multiset().insert(s.last()));
        lemma_suit_count_insert(front.to_multiset(), s.last(), Suit::Spade);
        lemma_suit_count_insert(front.to_multiset(), s.last(), Suit::Club);
        lemma_suit_count_insert(front.to_multiset(), s.last(), Suit::Heart);
        lemma_suit_count_insert(front.to_multiset(), s.last(), Suit::Diamond);
    }
}

} // verus!
