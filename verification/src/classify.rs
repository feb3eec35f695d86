//! What a five-card hand is worth, stated over the multiset of its cards.

use crate::card::{lemma_value_at_rank, Card, Suit, Value};
use crate::madehand::MadeHand;
use crate::straight::{window, WINDOW_COUNT};
use crate::tally::{held_from, lemma_held_total, lemma_rank_present, rank_count, suit_count};
use vstd::multiset::Multiset;
use vstd::prelude::*;

verus! {

/// The ranks at position `lo` or above that the hand holds exactly `c`
/// times, highest first.
pub open spec fn ranks_with_count(m: Multiset<Card>, c: nat, lo: int) -> Seq<Value>
    decreases 13 - lo,
{
    if lo >= 13 {
        Seq::empty()
    } else if rank_count(m, lo) == c {
        ranks_with_count(m, c, lo + 1).push(Value::at(lo))
    } else {
        ranks_with_count(m, c, lo + 1)
    }
}

/// Whether the hand is not empty and all its cards share one suit.
pub open spec fn suited(m: Multiset<Card>) -> bool {
    m.len() > 0 && exists|i: int| 0 <= i < 4 && #[trigger] suit_count(m, Suit::at(i)) == m.len()
}

/// Whether the hand holds every rank of the `k`-th straight window.
pub open spec fn holds_window(m: Multiset<Card>, k: int) -> bool {
    forall|j: int| 0 <= j < 5 ==> rank_count(m, #[trigger] window(k)[j].rank()) >= 1
}

/// The first straight window at or after the `k`-th that the hand holds
/// wholly, if there is one.
pub open spec fn held_window_from(m: Multiset<Card>, k: int) -> Option<int>
    decreases WINDOW_COUNT - k,
{
    if k >= WINDOW_COUNT {
        None
    } else if holds_window(m, k) {
        Some(k)
    } else {
        held_window_from(m, k + 1)
    }
}

/// The highest rank of the straight that the hand makes, if it makes one.
/// The wheel counts as a straight up to `Five`.
pub open spec fn straight_top(m: Multiset<Card>) -> Option<Value> {
    match held_window_from(m, 0) {
        Some(k) => if k < 9 {
            Some(window(k)[4])
        } else {
            Some(Value::Five)
        },
        None => None,
    }
}

/// The made hand of five cards.
///
/// The ranks are grouped by how often the hand holds them. Four of a kind
/// comes first, then a full house, three of a kind, two pair and one pair.
/// A hand without any group is a straight flush (royal when it reaches the
/// ace), a straight, a flush or a high card, by whether its ranks make a
/// straight and its cards share a suit.
pub open spec fn five_card_hand(m: Multiset<Card>) -> MadeHand {
    let quads = ranks_with_count(m, 4, 0);
    let trips = ranks_with_count(m, 3, 0);
    let pairs = ranks_with_count(m, 2, 0);
    let kickers = ranks_with_count(m, 1, 0);
    if quads.len() > 0 {
        MadeHand::FourCard(quads[0], kickers[0])
    } else if trips.len() > 0 && pairs.len() > 0 {
        MadeHand::FullHouse(trips[0], pairs[0])
    } else if trips.len() > 0 {
        MadeHand::ThreeCard(trips[0], kickers[0], kickers[1])
    } else if pairs.len() == 2 {
        MadeHand::TwoPair(pairs[0], pairs[1], kickers[0])
    } else if pairs.len() == 1 {
        MadeHand::OnePair(pairs[0], kickers[0], kickers[1], kickers[2])
    } else {
        match (straight_top(m), suited(m)) {
            (Some(top), true) => if top == Value::Ace {
                MadeHand::RoyalStraightFlush
            } else {
                MadeHand::StraightFlush(top)
            },
            (Some(top), false) => MadeHand::Straight(top),
            (None, true) => MadeHand::Flush(kickers[0]),
            (None, false) => MadeHand::HighCard(
                kickers[0],
                kickers[1],
                kickers[2],
                kickers[3],
                kickers[4],
            ),
        }
    }
}

/// Whether no rank is held more than four times, as in any hand dealt from
/// one deck.
pub open spec fn dealable(m: Multiset<Card>) -> bool {
    forall|r: int| 0 <= r < 13 ==> #[trigger] rank_count(m, r) <= 4
}

/// The groups of ranks account for every card: four cards for each rank held
/// four times, three for each held three times, and so on.
pub proof fn lemma_groups_account(m: Multiset<Card>, lo: int)
    requires
        dealable(m),
        0 <= lo,
    ensures
        4 * ranks_with_count(m, 4, lo).len() + 3 * ranks_with_count(m, 3, lo).len() + 2
            * ranks_with_count(m, 2, lo).len() + ranks_with_count(m, 1, lo).len() == held_from(
            m,
            lo,
        ),
    decreases 13 - lo,
{
    if lo < 13 {
        lemma_groups_account(m, lo + 1);
        assert(rank_count(m, lo) <= 4);
    }
}

/// A group of ranks lists distinct ranks from highest to lowest, each held
/// the stated number of times, and misses none.
pub proof fn lemma_group_members(m: Multiset<Card>, c: nat, lo: int)
    requires
        0 <= lo,
    ensures
        forall|i: int|
            0 <= i < ranks_with_count(m, c, lo).len() ==> lo <= (#[trigger] ranks_with_count(
                m,
                c,
                lo,
            )[i]).rank() < 13 && rank_count(m, ranks_with_count(m, c, lo)[i].rank()) == c,
        forall|i: int, j: int|
            0 <= i < j < ranks_with_count(m, c, lo).len() ==> (#[trigger] ranks_with_count(
                m,
                c,
                lo,
            )[i]).rank() > (#[trigger] ranks_with_count(m, c, lo)[j]).rank(),
        forall|r: int|
            lo <= r < 13 && rank_count(m, r) == c ==> ranks_with_count(m, c, lo).contains(
                #[trigger] Value::at(r),
            ),
    decreases 13 - lo,
{
    if lo < 13 {
        lemma_group_members(m, c, lo + 1);
        let rest = ranks_with_count(m, c, lo + 1);
        let all = ranks_with_count(m, c, lo);
        lemma_value_at_rank(Value::at(lo));
        assert(Value::at(lo).rank() == lo);
        assert forall|r: int| lo <= r < 13 && rank_count(m, r) == c implies all.contains(
            #[trigger] Value::at(r),
        ) by {
            if r == lo {
                assert(all[all.len() - 1] == Value::at(lo));
            } else {
                assert(rest.contains(Value::at(r)));
                let i = choose|i: int| 0 <= i < rest.len() && rest[i] == Value::at(r);
                assert(all[i] == Value::at(r));
            }
        }
    }
}

/// The positions of the ranks of the cards, in the order of the cards.
pub open spec fn rank_positions(s: Seq<Card>) -> Seq<u8> {
    s.map_values(|c: Card| c.value.rank() as u8)
}

/// Whether two rank positions are next to each other; the ace and the five
/// count as neighbours, for the wheel.
pub open spec fn connected(a: int, b: int) -> bool {
    (a == 12 && b == 3) || (a == 3 && b == 12) || a - b == 1 || b - a == 1
}

/// Whether each of five positions is next to the one that follows it.
pub open spec fn all_connected(p: Seq<u8>) -> bool {
    connected(p[0] as int, p[1] as int) && connected(p[1] as int, p[2] as int) && connected(
        p[2] as int,
        p[3] as int,
    ) && connected(p[3] as int, p[4] as int)
}

/// A rearrangement of the rank positions of a hand holds a position exactly
/// when the hand holds a card of that rank.
pub proof fn lemma_positions_present(s: Seq<Card>, p: Seq<u8>)
    requires
        p.to_multiset() == rank_positions(s).to_multiset(),
    ensures
        forall|r: int|
            0 <= r < 13 ==> (#[trigger] rank_count(s.to_multiset(), r) > 0 <==> p.contains(r as u8)),
        forall|i: int| 0 <= i < p.len() ==> (#[trigger] p[i]) < 13,
{
    let q = rank_positions(s);
    p.to_multiset_ensures();
    q.to_multiset_ensures();
    assert forall|r: int| 0 <= r < 13 implies (#[trigger] rank_count(s.to_multiset(), r) > 0
        <==> p.contains(r as u8)) by {
        lemma_rank_present(s, r);
        if p.contains(r as u8) {
            assert(p.to_multiset().count(r as u8) > 0);
            assert(q.to_multiset().count(r as u8) > 0);
            assert(q.contains(r as u8));
            let j = choose|j: int| 0 <= j < q.len() && q[j] == r as u8;
            assert(s[j].value.rank() == r);
        }
        if rank_count(s.to_multiset(), r) > 0 {
            let j = choose|j: int| 0 <= j < s.len() && (#[trigger] s[j]).value.rank() == r;
            assert(q[j] == r as u8);
            assert(q.contains(r as u8));
            assert(q.to_multiset().count(r as u8) > 0);
            assert(p.to_multiset().count(r as u8) > 0);
        }
    }
    assert forall|i: int| 0 <= i < p.len() implies (#[trigger] p[i]) < 13 by {
        assert(p.contains(p[i]));
        assert(p.to_multiset().count(p[i]) > 0);
        assert(q.to_multiset().count(p[i]) > 0);
        assert(q.contains(p[i]));
        let j = choose|j: int| 0 <= j < q.len() && q[j] == p[i];
        assert(q[j] == s[j].value.rank() as u8);
    }
}

/// Where no window before the `a`-th is held from the `k`-th on, and the
/// `a`-th is, the first held window is the `a`-th.
pub proof fn lemma_first_held(m: Multiset<Card>, k: int, a: int)
    requires
        0 <= k <= a < WINDOW_COUNT,
        holds_window(m, a),
        forall|i: int| k <= i < a ==> !holds_window(m, i),
    ensures
        held_window_from(m, k) == Some(a),
    decreases a - k,
{
    if k < a {
        lemma_first_held(m, k + 1, a);
    }
}

/// Where no window is held from the `k`-th on, there is no first held
/// window.
pub proof fn lemma_none_held(m: Multiset<Card>, k: int)
    requires
        0 <= k,
        forall|i: int| k <= i < WINDOW_COUNT ==> !holds_window(m, i),
    ensures
        held_window_from(m, k) is None,
    decreases WINDOW_COUNT - k,
{
    if k < WINDOW_COUNT {
        lemma_none_held(m, k + 1);
    }
}

/// The rank positions of each straight window.
pub proof fn lemma_window_positions(k: int)
    requires
        0 <= k < WINDOW_COUNT,
    ensures
        k < 9 ==> forall|j: int| 0 <= j < 5 ==> (#[trigger] window(k)[j]).rank() == k + j,
        k == 9 ==> window(k)[0].rank() == 12 && window(k)[1].rank() == 0 && window(k)[2].rank()
            == 1 && window(k)[3].rank() == 2 && window(k)[4].rank() == 3,
{
}

/// Five cards make a straight exactly when their rank positions, put in
/// ascending order, are connected one to the next; the straight then
/// reaches up to the last position, or to the five where it is the wheel.
pub proof fn lemma_straight_by_sorted(s: Seq<Card>, p: Seq<u8>)
    requires
        s.len() == 5,
        p.len() == 5,
        p.to_multiset() == rank_positions(s).to_multiset(),
        forall|i: int, j: int| 0 <= i <= j < p.len() ==> p[i] <= p[j],
    ensures
        all_connected(p) ==> straight_top(s.to_multiset()) == Some(
            if p[0] == 0 && p[4] == 12 {
                Value::Five
            } else {
                Value::at(p[4] as int)
            },
        ),
        !all_connected(p) ==> straight_top(s.to_multiset()) is None,
{
    let m = s.to_multiset();
    lemma_positions_present(s, p);
    assert(p[0] <= p[1] && p[1] <= p[2] && p[2] <= p[3] && p[3] <= p[4]);
    assert(p[0] < 13 && p[1] < 13 && p[2] < 13 && p[3] < 13 && p[4] < 13);
    assert(p.contains(p[0]) && p.contains(p[1]) && p.contains(p[2]) && p.contains(p[3])
        && p.contains(p[4]));
    assert forall|x: u8| p.contains(x) implies x == p[0] || x == p[1] || x == p[2] || x == p[3]
        || x == p[4] by {
        let i = choose|i: int| 0 <= i < p.len() && p[i] == x;
    }
    if all_connected(p) {
        if p[3] == 3 && p[4] == 12 {
            assert(p[0] == 0 && p[1] == 1 && p[2] == 2);
            lemma_window_positions(9);
            assert(holds_window(m, 9)) by {
                assert(rank_count(m, 12) > 0);
                assert(rank_count(m, 0) > 0);
                assert(rank_count(m, 1) > 0);
                assert(rank_count(m, 2) > 0);
                assert(rank_count(m, 3) > 0);
            }
            assert forall|k: int| 0 <= k < 9 implies !holds_window(m, k) by {
                lemma_window_positions(k);
                if k < 8 {
                    assert(!p.contains((k + 4) as u8));
                    assert(!(rank_count(m, k + 4) > 0));
                    assert(window(k)[4].rank() == k + 4);
                } else {
                    assert(!p.contains(8u8));
                    assert(!(rank_count(m, 8) > 0));
                    assert(window(k)[0].rank() == 8);
                }
            }
            lemma_first_held(m, 0, 9);
        } else {
            let a = p[0] as int;
            assert(p[1] == a + 1 && p[2] == a + 2 && p[3] == a + 3 && p[4] == a + 4);
            lemma_window_positions(a);
            assert(holds_window(m, a)) by {
                assert(rank_count(m, a) > 0);
                assert(rank_count(m, a + 1) > 0);
                assert(rank_count(m, a + 2) > 0);
                assert(rank_count(m, a + 3) > 0);
                assert(rank_count(m, a + 4) > 0);
            }
            assert forall|k: int| 0 <= k < a implies !holds_window(m, k) by {
                lemma_window_positions(k);
                assert(!p.contains(k as u8));
                assert(!(rank_count(m, k) > 0));
                assert(window(k)[0].rank() == k);
            }
            lemma_first_held(m, 0, a);
            assert(window(a)[4] == Value::at(a + 4));
        }
    } else {
        assert forall|k: int| 0 <= k < WINDOW_COUNT implies !holds_window(m, k) by {
            if holds_window(m, k) {
                lemma_window_positions(k);
                let w0 = window(k)[0].rank();
                let w1 = window(k)[1].rank();
                let w2 = window(k)[2].rank();
                let w3 = window(k)[3].rank();
                let w4 = window(k)[4].rank();
                assert(rank_count(m, w0) > 0 && rank_count(m, w1) > 0 && rank_count(m, w2) > 0
                    && rank_count(m, w3) > 0 && rank_count(m, w4) > 0);
                assert(p.contains(w0 as u8) && p.contains(w1 as u8) && p.contains(w2 as u8)
                    && p.contains(w3 as u8) && p.contains(w4 as u8));
                assert(false);
            }
        }
        lemma_none_held(m, 0);
    }
}

/// Five cards of the ranks ace, two, three, four and five make the wheel:
/// a straight up to the five, and a straight flush up to the five, never a
/// royal one, where they share a suit.
pub proof fn lemma_wheel(s: Seq<Card>)
    requires
        s.len() == 5,
        rank_count(s.to_multiset(), 12) == 1,
        rank_count(s.to_multiset(), 0) == 1,
        rank_count(s.to_multiset(), 1) == 1,
        rank_count(s.to_multiset(), 2) == 1,
        rank_count(s.to_multiset(), 3) == 1,
    ensures
        five_card_hand(s.to_multiset()) == if suited(s.to_multiset()) {
            MadeHand::StraightFlush(Value::Five)
        } else {
            MadeHand::Straight(Value::Five)
        },
{
    let m = s.to_multiset();
    lemma_held_total(s);
    assert(rank_count(m, 4) == 0 && rank_count(m, 5) == 0 && rank_count(m, 6) == 0 && rank_count(
        m,
        7,
    ) == 0 && rank_count(m, 8) == 0 && rank_count(m, 9) == 0 && rank_count(m, 10) == 0
        && rank_count(m, 11) == 0) by {
        reveal_with_fuel(held_from, 14);
    }
    assert(ranks_with_count(m, 4, 0).len() == 0 && ranks_with_count(m, 3, 0).len() == 0
        && ranks_with_count(m, 2, 0).len() == 0) by {
        reveal_with_fuel(ranks_with_count, 14);
    }
    lemma_window_positions(9);
    assert(holds_window(m, 9));
    assert forall|k: int| 0 <= k < 9 implies !holds_window(m, k) by {
        lemma_window_positions(k);
        if k < 8 {
            assert(window(k)[4].rank() == k + 4);
        } else {
            assert(window(k)[0].rank() == 8);
        }
    }
    lemma_first_held(m, 0, 9);
}

/// Five cards of the ranks ten, jack, queen, king and ace make a straight
/// up to the ace, and a royal straight flush where they share a suit.
pub proof fn lemma_broadway(s: Seq<Card>)
    requires
        s.len() == 5,
        rank_count(s.to_multiset(), 8) == 1,
        rank_count(s.to_multiset(), 9) == 1,
        rank_count(s.to_multiset(), 10) == 1,
        rank_count(s.to_multiset(), 11) == 1,
        rank_count(s.to_multiset(), 12) == 1,
    ensures
        five_card_hand(s.to_multiset()) == if suited(s.to_multiset()) {
            MadeHand::RoyalStraightFlush
        } else {
            MadeHand::Straight(Value::Ace)
        },
{
    let m = s.to_multiset();
    lemma_held_total(s);
    assert(rank_count(m, 0) == 0 && rank_count(m, 1) == 0 && rank_count(m, 2) == 0 && rank_count(
        m,
        3,
    ) == 0 && rank_count(m, 4) == 0 && rank_count(m, 5) == 0 && rank_count(m, 6) == 0
        && rank_count(m, 7) == 0) by {
        reveal_with_fuel(held_from, 14);
    }
    assert(ranks_with_count(m, 4, 0).len() == 0 && ranks_with_count(m, 3, 0).len() == 0
        && ranks_with_count(m, 2, 0).len() == 0) by {
        reveal_with_fuel(ranks_with_count, 14);
    }
    lemma_window_positions(8);
    assert(holds_window(m, 8));
    assert forall|k: int| 0 <= k < 8 implies !holds_window(m, k) by {
        lemma_window_positions(k);
        assert(window(k)[0].rank() == k);
    }
    lemma_first_held(m, 0, 8);
    assert(window(8)[4] == Value::Ace);
}

} // verus!
