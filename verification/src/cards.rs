//! A collection of cards, as written in text and as parsed.

use crate::card::{lemma_suit_at_ordinal, lemma_value_at_rank, Card, Suit, Value};
use crate::classify::{
    connected, dealable, five_card_hand, lemma_groups_account, lemma_straight_by_sorted,
    rank_positions, ranks_with_count, straight_top, suited,
};
use crate::combos::{
    card_combinations, combinations, lemma_choices_of_five, lemma_combination_within,
    lemma_combinations_exist, lemma_combinations_shape, lemma_combinations_whole, sorted,
};
use crate::drawhand::{
    calculate_straight_draws, choice_draws, draws, flush_draws, hand_draws, suit_held, values_of,
    DrawHand,
};
use crate::madehand::{lemma_strength_distinguishes, MadeHand};
use crate::tally::{
    lemma_filter_empty, lemma_held_total, lemma_rank_count_insert, lemma_suit_count_insert,
    lemma_within_counts, rank_count, suit_count, with_rank, with_suit,
};
use vstd::multiset::Multiset;
use vstd::prelude::*;

verus! {

/// Cards in the order in which they were written, with the text they were
/// read from.
#[derive(Debug, Clone)]
pub struct Cards {
    pub cards: Vec<Card>,
    pub text: String,
}

/// The card that the `i`-th pair of characters of a text denotes, if the
/// pair is a rank character followed by a suit character.
pub open spec fn card_at(t: Seq<char>, i: int) -> Option<Card> {
    match (Value::of_char(t[2 * i]), Suit::of_char(t[2 * i + 1])) {
        (Some(value), Some(suit)) => Some(Card { value, suit }),
        _ => None,
    }
}

/// Whether a text is a sequence of cards: an even number of characters,
/// each pair of which denotes a card.
pub open spec fn well_formed(t: Seq<char>) -> bool {
    t.len() % 2 == 0 && forall|i: int| 0 <= i < t.len() / 2 ==> (#[trigger] card_at(t, i)) is Some
}

/// The cards that a well-formed text denotes, in order.
pub open spec fn parsed(t: Seq<char>) -> Seq<Card> {
    Seq::new(t.len() / 2, |i: int| card_at(t, i).unwrap())
}

/// The made hand of the `i`-th choice of five out of the cards.
pub open spec fn choice_hand(s: Seq<Card>, i: int) -> MadeHand {
    five_card_hand(combinations(s, 5)[i].to_multiset())
}

/// Whether `h` is the best made hand of the cards: the made hand of some
/// choice of five of them, and at least as strong as the made hand of
/// every choice of five.
pub open spec fn is_best_hand(s: Seq<Card>, h: MadeHand) -> bool {
    &&& exists|i: int| 0 <= i < combinations(s, 5).len() && h == #[trigger] choice_hand(s, i)
    &&& forall|i: int|
        0 <= i < combinations(s, 5).len() ==> (#[trigger] choice_hand(s, i)).strength()
            <= h.strength()
}

/// The message that rejects a hand of fewer than five cards.
pub open spec fn count_rejection() -> Seq<char> {
    "Invalid cards length"@
}

/// The message that rejects a text that is not a sequence of cards.
pub open spec fn parse_rejection() -> Seq<char> {
    "Can't convert chars to Card"@
}

impl Cards {
    /// The hand as a mathematical sequence of cards.
    pub open spec fn view(&self) -> Seq<Card> {
        self.cards@
    }

    /// Parses a text of two characters per card, a rank character followed
    /// by a suit character.
    ///
    /// Fails, with no partial result, when the number of characters is odd
    /// or some pair does not denote a card.
    pub fn from_str(s: &str) -> (r: Result<Cards, &'static str>)
        ensures
            well_formed(s@) ==> r is Ok && r->Ok_0@ == parsed(s@) && r->Ok_0.text@ == s@,
            !well_formed(s@) ==> r is Err && r->Err_0@ == parse_rejection(),
    {
        let n = s.unicode_len();
        if n % 2 != 0 {
            return Err("Can't convert chars to Card");
        }
        let mut cards: Vec<Card> = Vec::new();
        let mut i: usize = 0;
        while i < n / 2
            invariant
                n == s@.len(),
                n % 2 == 0,
                i <= n / 2,
                cards@.len() == i,
                forall|j: int| 0 <= j < i ==> card_at(s@, j) == Some(#[trigger] cards@[j]),
            decreases n / 2 - i,
        {
            let value = Value::from_char(s.get_char(2 * i));
            let suit = Suit::from_char(s.get_char(2 * i + 1));
            match (value, suit) {
                (Some(value), Some(suit)) => {
                    cards.push(Card { value, suit });
                },
                _ => {
                    assert(card_at(s@, i as int) is None);
                    return Err("Can't convert chars to Card");
                },
            }
            i += 1;
        }
        assert forall|j: int| 0 <= j < s@.len() / 2 implies (#[trigger] card_at(s@, j)) is Some by {
            assert(card_at(s@, j) == Some(cards@[j]));
        }
        assert(cards@ =~= parsed(s@));
        Ok(Cards { cards, text: s.to_owned() })
    }

    /// The hand as the multiset of its cards.
    pub open spec fn hand(&self) -> Multiset<Card> {
        self@.to_multiset()
    }

    /// How often the hand holds each rank: entry `r` counts the cards with
    /// the rank at position `r`.
    pub fn rank_tally(&self) -> (counts: Vec<usize>)
        ensures
            counts@.len() == 13,
            forall|r: int| 0 <= r < 13 ==> counts@[r] == rank_count(self.hand(), r),
    {
        let mut counts: Vec<usize> = Vec::new();
        let mut r: usize = 0;
        while r < 13
            invariant
                r <= 13,
                counts@.len() == r,
                forall|j: int| 0 <= j < r ==> counts@[j] == 0,
            decreases 13 - r,
        {
            counts.push(0);
            r += 1;
        }
        let mut i: usize = 0;
        proof {
            assert(self@.take(0) =~= Seq::<Card>::empty());
            self@.take(0).to_multiset_ensures();
            assert(self@.take(0).to_multiset() =~= Multiset::<Card>::empty());
            assert forall|r: int| 0 <= r < 13 implies rank_count(self@.take(0).to_multiset(), r)
                == 0 by {
                lemma_filter_empty(with_rank(r));
            }
        }
        while i < self.cards.len()
            invariant
                i <= self.cards.len(),
                counts@.len() == 13,
                forall|r: int|
                    0 <= r < 13 ==> counts@[r] == rank_count(
                        self@.take(i as int).to_multiset(),
                        r,
                    ),
                forall|r: int| 0 <= r < 13 ==> counts@[r] <= i,
            decreases self.cards.len() - i,
        {
            let at = self.cards[i].value.index() as usize;
            proof {
                let before = self@.take(i as int);
                before.to_multiset_ensures();
                assert(before.push(self@[i as int]) =~= self@.take(i + 1));
                assert forall|r: int| 0 <= r < 13 implies rank_count(
                    self@.take(i + 1).to_multiset(),
                    r,
                ) == rank_count(before.to_multiset(), r) + if r == at {
                    1nat
                } else {
                    0nat
                } by {
                    lemma_rank_count_insert(before.to_multiset(), self@[i as int], r);
                }
            }
            let bumped = counts[at] + 1;
            counts.set(at, bumped);
            i += 1;
        }
        assert(self@.take(self.cards.len() as int) =~= self@);
        counts
    }

    /// How often the hand holds each suit: entry `i` counts the cards of
    /// the suit at position `i`.
    pub fn suits(&self) -> (counts: Vec<usize>)
        ensures
            counts@.len() == 4,
            forall|i: int| 0 <= i < 4 ==> counts@[i] == suit_count(self.hand(), Suit::at(i)),
    {
        let mut counts: Vec<usize> = Vec::new();
        counts.push(0);
        counts.push(0);
        counts.push(0);
        counts.push(0);
        let mut i: usize = 0;
        proof {
            assert(self@.take(0) =~= Seq::<Card>::empty());
            self@.take(0).to_multiset_ensures();
            assert(self@.take(0).to_multiset() =~= Multiset::<Card>::empty());
            assert forall|k: int| 0 <= k < 4 implies suit_count(
                self@.take(0).to_multiset(),
                Suit::at(k),
            ) == 0 by {
                lemma_filter_empty(with_suit(Suit::at(k)));
            }
        }
        while i < self.cards.len()
            invariant
                i <= self.cards.len(),
                counts@.len() == 4,
                forall|k: int|
                    0 <= k < 4 ==> counts@[k] == suit_count(
                        self@.take(i as int).to_multiset(),
                        Suit::at(k),
                    ),
                forall|k: int| 0 <= k < 4 ==> counts@[k] <= i,
            decreases self.cards.len() - i,
        {
            let at = self.cards[i].suit.index() as usize;
            proof {
                let before = self@.take(i as int);
                before.to_multiset_ensures();
                assert(before.push(self@[i as int]) =~= self@.take(i + 1));
                lemma_suit_at_ordinal(self@[i as int].suit);
                assert forall|k: int| 0 <= k < 4 implies suit_count(
                    self@.take(i + 1).to_multiset(),
                    Suit::at(k),
                ) == suit_count(before.to_multiset(), Suit::at(k)) + if k == at {
                    1nat
                } else {
                    0nat
                } by {
                    lemma_suit_count_insert(before.to_multiset(), self@[i as int], Suit::at(k));
                }
            }
            let bumped = counts[at] + 1;
            counts.set(at, bumped);
            i += 1;
        }
        assert(self@.take(self.cards.len() as int) =~= self@);
        counts
    }

    /// Whether no rank is held more than four times, as in any hand dealt
    /// from one deck.
    pub fn is_dealable(&self) -> (r: bool)
        ensures
            r == dealable(self.hand()),
    {
        let counts = self.rank_tally();
        let mut r: usize = 0;
        while r < 13
            invariant
                r <= 13,
                counts@.len() == 13,
                forall|k: int| 0 <= k < 13 ==> counts@[k] == rank_count(self.hand(), k),
                forall|k: int| 0 <= k < r ==> #[trigger] rank_count(self.hand(), k) <= 4,
            decreases 13 - r,
        {
            if counts[r] > 4 {
                return false;
            }
            r += 1;
        }
        true
    }

    /// The best made hand that five of the cards give.
    ///
    /// Five cards are classified as they are. Of more than five cards
    /// every choice of five is classified, and the strongest made hand is
    /// returned. Fewer than five cards are rejected.
    ///
    /// No rank may be held more than four times.
    pub fn analyze_madehand(&self) -> (r: Result<MadeHand, &'static str>)
        requires
            dealable(self.hand()),
        ensures
            self@.len() < 5 ==> r is Err && r->Err_0@ == count_rejection(),
            self@.len() >= 5 ==> r is Ok && is_best_hand(self@, r->Ok_0),
    {
        if self.cards.len() < 5 {
            return Err("Invalid cards length");
        }
        let choices = self.combination();
        proof {
            lemma_combinations_exist(self@, 5);
            lemma_combinations_shape(self@, 5);
        }
        let mut best = MadeHand::HighCard(
            Value::Two,
            Value::Two,
            Value::Two,
            Value::Two,
            Value::Two,
        );
        let mut i: usize = 0;
        while i < choices.len()
            invariant
                i <= choices.len(),
                dealable(self.hand()),
                choices@.len() == combinations(self@, 5).len(),
                forall|j: int|
                    0 <= j < choices@.len() ==> (#[trigger] choices@[j])@ == combinations(
                        self@,
                        5,
                    )[j],
                forall|j: int|
                    0 <= j < combinations(self@, 5).len() ==> (#[trigger] combinations(
                        self@,
                        5,
                    )[j]).len() == 5,
                i > 0 ==> exists|j: int| 0 <= j < i && best == #[trigger] choice_hand(self@, j),
                forall|j: int|
                    0 <= j < i ==> (#[trigger] choice_hand(self@, j)).strength() <= best.strength(),
            decreases choices.len() - i,
        {
            proof {
                lemma_combination_within(self@, 5, i as int);
                lemma_within_counts(choices@[i as int].hand(), self.hand());
            }
            match choices[i].sub_analyze() {
                Ok(madehand) => {
                    assert(madehand == choice_hand(self@, i as int));
                    if i == 0 || madehand.score() >= best.score() {
                        best = madehand;
                    }
                },
                Err(message) => {
                    return Err(message);
                },
            }
            i += 1;
        }
        Ok(best)
    }

    /// The draws that the cards hold while cards are still to come.
    ///
    /// Seven cards hold no draw. Of fewer cards every choice of five is
    /// examined, and the draws of all choices are returned one after the
    /// other: for each choice its flush draw, if any, then its straight
    /// draws.
    pub fn analyse_drawhand(&self) -> (found: Vec<DrawHand>)
        requires
            self@.len() <= 7,
        ensures
            found@ == draws(self@),
    {
        let rest_card_length = 7 - self.cards.len();
        if rest_card_length == 0 {
            return Vec::new();
        }
        let choices = self.combination();
        let mut found: Vec<DrawHand> = Vec::new();
        let mut i: usize = 0;
        while i < choices.len()
            invariant
                i <= choices.len(),
                choices@.len() == combinations(self@, 5).len(),
                forall|j: int|
                    0 <= j < choices@.len() ==> (#[trigger] choices@[j])@ == combinations(
                        self@,
                        5,
                    )[j],
                found@ == choice_draws(self@, i as int),
            decreases choices.len() - i,
        {
            let mut part = choices[i].sub_analyse_drawhand();
            found.append(&mut part);
            i += 1;
        }
        found
    }

    /// The draws of this hand taken by itself: its flush draw, if any, then
    /// its straight draws.
    pub fn sub_analyse_drawhand(&self) -> (found: Vec<DrawHand>)
        ensures
            found@ == hand_draws(self@),
    {
        let mut found: Vec<DrawHand> = Vec::new();
        let counts = self.suits();
        let flash_draw = first_suit_with(&counts, 4, Ghost(self.hand()));
        let backdoor_flash_draw = first_suit_with(&counts, 3, Ghost(self.hand()));
        match (flash_draw, backdoor_flash_draw) {
            (Some(suit), _) => found.push(DrawHand::FlashDraw(suit)),
            (None, Some(suit)) => found.push(DrawHand::BackdoorFlashDraw(suit)),
            _ => {},
        }
        assert(found@ =~= flush_draws(self.hand()));
        let values = self.values();
        let mut straight = calculate_straight_draws(values);
        found.append(&mut straight);
        found
    }

    /// The cards of this hand followed by those of the other, and the two
    /// texts joined likewise.
    pub fn add(self, other: Cards) -> (sum: Cards)
        ensures
            sum@ == self@ + other@,
            sum.text@ == self.text@ + other.text@,
    {
        let mut cards = self.cards;
        let mut more = other.cards;
        cards.append(&mut more);
        let mut text = self.text;
        text.append(other.text.as_str());
        Cards { cards, text }
    }

    /// Every choice of five of the cards, each with the text of the whole
    /// hand, in the lexicographic order of the chosen places.
    pub fn combination(&self) -> (choices: Vec<Cards>)
        ensures
            choices@.len() == combinations(self@, 5).len(),
            forall|i: int|
                0 <= i < choices@.len() ==> (#[trigger] choices@[i])@ == combinations(self@, 5)[i]
                    && choices@[i].text@ == self.text@,
    {
        let sets = card_combinations(&self.cards, 5);
        let mut choices: Vec<Cards> = Vec::new();
        let mut i: usize = 0;
        while i < sets.len()
            invariant
                i <= sets.len(),
                choices@.len() == i,
                sets@.len() == combinations(self@, 5).len(),
                forall|j: int|
                    0 <= j < sets@.len() ==> (#[trigger] sets@[j])@ == combinations(self@, 5)[j],
                forall|j: int|
                    0 <= j < i ==> (#[trigger] choices@[j])@ == combinations(self@, 5)[j]
                        && choices@[j].text@ == self.text@,
            decreases sets.len() - i,
        {
            let cards = copy_cards(&sets[i]);
            choices.push(Cards { text: self.text.clone(), cards });
            i += 1;
        }
        choices
    }

    /// Whether the hand is not empty and all its cards share one suit.
    pub fn suited(&self) -> (r: bool)
        ensures
            r == suited(self.hand()),
    {
        let counts = self.suits();
        let n = self.cards.len();
        proof {
            self@.to_multiset_ensures();
        }
        n > 0 && (counts[0] == n || counts[1] == n || counts[2] == n || counts[3] == n)
    }

    /// The ranks of the cards in ascending order.
    pub fn ranks(&self) -> (sorted_ranks: Vec<Value>)
        ensures
            sorted_ranks@.len() == self@.len(),
            positions(sorted_ranks@).to_multiset() == rank_positions(self@).to_multiset(),
            forall|i: int, j: int|
                0 <= i <= j < sorted_ranks@.len() ==> sorted_ranks@[i].rank() <= sorted_ranks@[j].rank(),
    {
        let mut places: Vec<u8> = Vec::new();
        let mut i: usize = 0;
        while i < self.cards.len()
            invariant
                i <= self.cards.len(),
                places@.len() == i,
                forall|j: int| 0 <= j < i ==> places@[j] == self@[j].value.rank() as u8,
            decreases self.cards.len() - i,
        {
            places.push(self.cards[i].value.index());
            i += 1;
        }
        assert(places@ =~= rank_positions(self@));
        let ordered = sorted(places);
        proof {
            ordered@.to_multiset_ensures();
            rank_positions(self@).to_multiset_ensures();
            assert forall|j: int| 0 <= j < ordered@.len() implies (#[trigger] ordered@[j]) < 13 by {
                assert(ordered@.contains(ordered@[j]));
                assert(ordered@.to_multiset().count(ordered@[j]) > 0);
                assert(rank_positions(self@).contains(ordered@[j]));
                let k = choose|k: int|
                    0 <= k < rank_positions(self@).len() && rank_positions(self@)[k] == ordered@[j];
                assert(rank_positions(self@)[k] == self@[k].value.rank() as u8);
            }
        }
        let mut sorted_ranks: Vec<Value> = Vec::new();
        let mut k: usize = 0;
        while k < ordered.len()
            invariant
                k <= ordered.len(),
                sorted_ranks@.len() == k,
                forall|j: int| 0 <= j < ordered@.len() ==> (#[trigger] ordered@[j]) < 13,
                forall|i: int, j: int| 0 <= i <= j < ordered@.len() ==> ordered@[i] <= ordered@[j],
                forall|j: int| 0 <= j < k ==> sorted_ranks@[j].rank() == ordered@[j],
            decreases ordered.len() - k,
        {
            sorted_ranks.push(Value::from_index(ordered[k]));
            k += 1;
        }
        assert(positions(sorted_ranks@) =~= ordered@);
        assert forall|i: int, j: int| 0 <= i <= j < sorted_ranks@.len() implies sorted_ranks@[i].rank()
            <= sorted_ranks@[j].rank() by {
            assert(ordered@[i] <= ordered@[j]);
        }
        sorted_ranks
    }

    /// The ranks of the hand grouped by how often the hand holds them:
    /// entry `c - 1` lists the ranks held exactly `c` times, highest first,
    /// for `c` from 1 to 4.
    pub fn count_rank(&self) -> (groups: Vec<Vec<Value>>)
        ensures
            groups@.len() == 4,
            forall|i: int|
                0 <= i < 4 ==> (#[trigger] groups@[i])@ == ranks_with_count(
                    self.hand(),
                    (i + 1) as nat,
                    0,
                ),
    {
        let counts = self.rank_tally();
        let mut groups: Vec<Vec<Value>> = Vec::new();
        let mut c: usize = 1;
        while c <= 4
            invariant
                1 <= c <= 5,
                groups@.len() == c - 1,
                counts@.len() == 13,
                forall|r: int| 0 <= r < 13 ==> counts@[r] == rank_count(self.hand(), r),
                forall|i: int|
                    0 <= i < c - 1 ==> (#[trigger] groups@[i])@ == ranks_with_count(
                        self.hand(),
                        (i + 1) as nat,
                        0,
                    ),
            decreases 5 - c,
        {
            let mut group: Vec<Value> = Vec::new();
            let mut lo: usize = 13;
            while lo > 0
                invariant
                    lo <= 13,
                    counts@.len() == 13,
                    forall|r: int| 0 <= r < 13 ==> counts@[r] == rank_count(self.hand(), r),
                    group@ == ranks_with_count(self.hand(), c as nat, lo as int),
                decreases lo,
            {
                lo -= 1;
                if counts[lo] == c {
                    group.push(Value::from_index(lo as u8));
                }
            }
            groups.push(group);
            c += 1;
        }
        groups
    }

    /// The straight that five cards make, if they make one.
    pub fn straight(&self) -> (r: Option<MadeHand>)
        requires
            self@.len() == 5,
        ensures
            r == match straight_top(self.hand()) {
                Some(top) => Some(MadeHand::Straight(top)),
                None => None,
            },
    {
        let ranks = self.ranks();
        let ghost p = positions(ranks@);
        proof {
            lemma_straight_by_sorted(self@, p);
            lemma_value_at_rank(ranks@[4]);
        }
        let is_straight = is_connect_values(ranks[0], ranks[1]) && is_connect_values(
            ranks[1],
            ranks[2],
        ) && is_connect_values(ranks[2], ranks[3]) && is_connect_values(ranks[3], ranks[4]);
        if !is_straight {
            return None;
        }
        match (ranks[0], ranks[4]) {
            (Value::Two, Value::Ace) => Some(MadeHand::Straight(Value::Five)),
            _ => Some(MadeHand::Straight(ranks[4])),
        }
    }

    /// The made hand of exactly five cards.
    pub fn sub_analyze(&self) -> (r: Result<MadeHand, &'static str>)
        requires
            self@.len() == 5,
            dealable(self.hand()),
        ensures
            r == Ok::<MadeHand, &'static str>(five_card_hand(self.hand())),
    {
        let suited = self.suited();
        let groups = self.count_rank();
        let straight = self.straight();
        proof {
            lemma_groups_account(self.hand(), 0);
            lemma_held_total(self@);
        }
        let kickers = &groups[0];
        let two_card = &groups[1];
        let three_card = &groups[2];
        let four_card = &groups[3];
        assert(kickers@ == ranks_with_count(self.hand(), 1, 0));
        assert(two_card@ == ranks_with_count(self.hand(), 2, 0));
        assert(three_card@ == ranks_with_count(self.hand(), 3, 0));
        assert(four_card@ == ranks_with_count(self.hand(), 4, 0));
        let madehand = if four_card.len() > 0 {
            MadeHand::FourCard(four_card[0], kickers[0])
        } else if three_card.len() > 0 && two_card.len() > 0 {
            MadeHand::FullHouse(three_card[0], two_card[0])
        } else if three_card.len() > 0 {
            MadeHand::ThreeCard(three_card[0], kickers[0], kickers[1])
        } else if two_card.len() == 2 {
            MadeHand::TwoPair(two_card[0], two_card[1], kickers[0])
        } else if two_card.len() == 1 {
            MadeHand::OnePair(two_card[0], kickers[0], kickers[1], kickers[2])
        } else {
            match (straight, suited) {
                (Some(MadeHand::Straight(n)), true) => {
                    match n {
                        Value::Ace => MadeHand::RoyalStraightFlush,
                        _ => MadeHand::StraightFlush(n),
                    }
                },
                (Some(straight), false) => straight,
                (_, true) => MadeHand::Flush(kickers[0]),
                _ => MadeHand::HighCard(
                    kickers[0],
                    kickers[1],
                    kickers[2],
                    kickers[3],
                    kickers[4],
                ),
            }
        };
        Ok(madehand)
    }

    /// A copy with the same cards and the same text.
    pub fn copy(&self) -> (r: Cards)
        ensures
            r@ == self@,
            r.text@ == self.text@,
    {
        Cards { cards: copy_cards(&self.cards), text: self.text.clone() }
    }

    /// The ranks of the cards, in the order of the cards.
    pub fn values(&self) -> (ranks: Vec<Value>)
        ensures
            ranks@ == values_of(self@),
    {
        let mut ranks: Vec<Value> = Vec::new();
        let mut i: usize = 0;
        while i < self.cards.len()
            invariant
                i <= self.cards.len(),
                ranks@.len() == i,
                forall|j: int| 0 <= j < i ==> ranks@[j] == self.cards@[j].value,
            decreases self.cards.len() - i,
        {
            ranks.push(self.cards[i].value);
            i += 1;
        }
        assert(ranks@ =~= values_of(self@));
        ranks
    }
}

impl std::ops::Add for Cards {
    type Output = Cards;

    /// The cards of this hand followed by those of the other, and the two
    /// texts joined likewise.
    fn add(self, other: Cards) -> (sum: Cards)
        ensures
            sum@ == self@ + other@,
            sum.text@ == self.text@ + other.text@,
    {
        Cards::add(self, other)
    }
}

impl vstd::std_specs::ops::AddSpecImpl for Cards {
    /// The sum is known by its cards and its text, as `add` ensures; these
    /// do not make it one particular value, so no value is named for it
    /// here.
    open spec fn obeys_add_spec() -> bool {
        false
    }

    open spec fn add_req(self, other: Cards) -> bool {
        true
    }

    open spec fn add_spec(self, other: Cards) -> Cards {
        self
    }
}

impl std::str::FromStr for Cards {
    type Err = &'static str;

    /// Parses a text of two characters per card, as `Cards::from_str`
    /// does.
    fn from_str(s: &str) -> (r: Result<Self, Self::Err>)
        ensures
            well_formed(s@) ==> r is Ok && r->Ok_0@ == parsed(s@) && r->Ok_0.text@ == s@,
            !well_formed(s@) ==> r is Err && r->Err_0@ == parse_rejection(),
    {
        Cards::from_str(s)
    }
}

/// The first suit, in the order of the suits, that the counts give exactly
/// `c` cards.
fn first_suit_with(counts: &Vec<usize>, c: usize, Ghost(m): Ghost<Multiset<Card>>) -> (r: Option<
    Suit,
>)
    requires
        counts@.len() == 4,
        forall|i: int| 0 <= i < 4 ==> counts@[i] == suit_count(m, Suit::at(i)),
    ensures
        r == suit_held(m, c as nat),
{
    assert(Suit::at(0) == Suit::Spade && Suit::at(1) == Suit::Club && Suit::at(2) == Suit::Heart
        && Suit::at(3) == Suit::Diamond);
    if counts[0] == c {
        Some(Suit::Spade)
    } else if counts[1] == c {
        Some(Suit::Club)
    } else if counts[2] == c {
        Some(Suit::Heart)
    } else if counts[3] == c {
        Some(Suit::Diamond)
    } else {
        None
    }
}

/// A copy of the cards.
fn copy_cards(cards: &Vec<Card>) -> (copy: Vec<Card>)
    ensures
        copy@ == cards@,
{
    let mut copy: Vec<Card> = Vec::new();
    let mut i: usize = 0;
    while i < cards.len()
        invariant
            i <= cards.len(),
            copy@ == cards@.take(i as int),
        decreases cards.len() - i,
    {
        copy.push(cards[i]);
        assert(cards@.take(i as int).push(cards@[i as int]) =~= cards@.take(i + 1));
        i += 1;
    }
    assert(cards@.take(cards.len() as int) =~= cards@);
    copy
}

/// The positions of ranks, in the order of the ranks.
pub open spec fn positions(ranks: Seq<Value>) -> Seq<u8> {
    ranks.map_values(|v: Value| v.rank() as u8)
}

/// Whether two ranks are next to each other; the ace and the five count as
/// neighbours, for the wheel.
pub fn is_connect_values(a: Value, b: Value) -> (r: bool)
    ensures
        r == connected(a.rank(), b.rank()),
{
    match (a, b) {
        (Value::Ace, Value::Five) | (Value::Five, Value::Ace) => true,
        (a, b) => {
            let x = a.index();
            let y = b.index();
            if x > y {
                x - y == 1
            } else {
                y - x == 1
            }
        },
    }
}

/// The best made hand of given cards is one hand only.
pub proof fn lemma_best_hand_unique(s: Seq<Card>, g: MadeHand, h: MadeHand)
    requires
        is_best_hand(s, g),
        is_best_hand(s, h),
    ensures
        g == h,
{
    let i = choose|i: int| 0 <= i < combinations(s, 5).len() && g == #[trigger] choice_hand(s, i);
    let j = choose|j: int| 0 <= j < combinations(s, 5).len() && h == #[trigger] choice_hand(s, j);
    assert(choice_hand(s, i).strength() <= h.strength());
    assert(choice_hand(s, j).strength() <= g.strength());
    lemma_strength_distinguishes(g, h);
}

/// The best made hand of exactly five cards is the made hand of those five
/// cards.
pub proof fn lemma_best_of_five(s: Seq<Card>, h: MadeHand)
    requires
        s.len() == 5,
    ensures
        is_best_hand(s, h) <==> h == five_card_hand(s.to_multiset()),
{
    lemma_combinations_whole(s);
    assert(choice_hand(s, 0) == five_card_hand(s.to_multiset()));
    if h == five_card_hand(s.to_multiset()) {
        assert(h == choice_hand(s, 0));
    }
}

/// The best made hand of five cards does not depend on the order in which
/// the cards are given.
pub proof fn lemma_best_of_five_order_free(a: Seq<Card>, b: Seq<Card>, h: MadeHand)
    requires
        a.len() == 5,
        a.to_multiset() == b.to_multiset(),
        is_best_hand(a, h),
    ensures
        is_best_hand(b, h),
{
    a.to_multiset_ensures();
    b.to_multiset_ensures();
    lemma_best_of_five(a, h);
    lemma_best_of_five(b, h);
}

/// The best made hand of seven cards is the strongest among the made hands
/// of the 21 choices of five of them.
pub proof fn lemma_best_of_seven(s: Seq<Card>, h: MadeHand)
    requires
        s.len() == 7,
        is_best_hand(s, h),
    ensures
        combinations(s, 5).len() == 21,
        exists|i: int| 0 <= i < 21 && is_best_hand(#[trigger] combinations(s, 5)[i], h),
        forall|i: int, g: MadeHand|
            0 <= i < 21 && #[trigger] is_best_hand(combinations(s, 5)[i], g) ==> g.strength()
                <= h.strength(),
{
    lemma_combinations_shape(s, 5);
    lemma_choices_of_five();
    let k = choose|k: int| 0 <= k < combinations(s, 5).len() && h == #[trigger] choice_hand(s, k);
    lemma_best_of_five(combinations(s, 5)[k], h);
    assert forall|i: int, g: MadeHand|
        0 <= i < 21 && #[trigger] is_best_hand(combinations(s, 5)[i], g) implies g.strength()
        <= h.strength() by {
        lemma_best_of_five(combinations(s, 5)[i], g);
        assert(g == choice_hand(s, i));
    }
}

} // verus!
