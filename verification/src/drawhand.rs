//! Draws: hands that are not made yet but can become strong with the cards
//! still to come.

use crate::card::{Card, Suit, Value};
use crate::combos::combinations;
use crate::combos::lemma_combinations_whole;
use crate::tally::{lemma_suit_total, suit_count};
use vstd::multiset::Multiset;
use crate::seqs::{lemma_filter_nothing, lemma_filter_step};
use crate::straight::{get_straight_patterns, window, WINDOW_COUNT};
use vstd::prelude::*;

verus! {

/// A draw towards a made hand.
#[derive(Debug, PartialEq, Eq, Structural, PartialOrd, Ord, Clone, Copy)]
pub enum DrawHand {
    /// Both hole cards rank above the board.
    TwoOver(Value, Value),
    /// One hole card ranks above the board.
    OneOver(Value),
    /// Four cards of one suit: one more makes a flush.
    FlashDraw(Suit),
    /// Three cards of one suit: two more make a flush.
    BackdoorFlashDraw(Suit),
    /// Four ranks of a straight window are held; the rank is the missing
    /// one.
    StraightDraw(Value),
    /// Three ranks of a straight window are held; the ranks are the two
    /// missing ones, in the window's order.
    BackDoorStraightDraw(Value, Value),
}

/// The test "is not among `values`".
pub open spec fn absent_from(values: Seq<Value>) -> spec_fn(Value) -> bool {
    |v: Value| !values.contains(v)
}

/// The ranks of a window that are not among `values`, in the window's order.
pub open spec fn missing(values: Seq<Value>, w: Seq<Value>) -> Seq<Value> {
    w.filter(absent_from(values))
}

/// The draw that the `k`-th straight window gives for the held ranks: a
/// straight draw when one rank of the window is missing, a backdoor
/// straight draw when two are, none otherwise.
pub open spec fn window_draw(values: Seq<Value>, k: int) -> Option<DrawHand> {
    let gap = missing(values, window(k));
    if gap.len() == 1 {
        Some(DrawHand::StraightDraw(gap[0]))
    } else if gap.len() == 2 {
        Some(DrawHand::BackDoorStraightDraw(gap[0], gap[1]))
    } else {
        None
    }
}

/// The draws of the first `n` straight windows, in the order of the windows.
pub open spec fn window_draws(values: Seq<Value>, n: int) -> Seq<DrawHand>
    decreases n,
{
    if n <= 0 {
        Seq::empty()
    } else {
        match window_draw(values, n - 1) {
            Some(d) => window_draws(values, n - 1).push(d),
            None => window_draws(values, n - 1),
        }
    }
}

/// The test "is a straight draw".
pub open spec fn is_straight_draw() -> spec_fn(DrawHand) -> bool {
    |d: DrawHand| d is StraightDraw
}

/// The test "is a backdoor straight draw".
pub open spec fn is_backdoor_straight_draw() -> spec_fn(DrawHand) -> bool {
    |d: DrawHand| d is BackDoorStraightDraw
}

/// The straight draws that held ranks give.
///
/// Where any window gives a straight draw, these are the straight draws of
/// all windows and nothing else; otherwise they are the backdoor straight
/// draws of all windows. Either way the order is that of the windows.
pub open spec fn straight_draws(values: Seq<Value>) -> Seq<DrawHand> {
    let all = window_draws(values, WINDOW_COUNT as int);
    let direct = all.filter(is_straight_draw());
    if direct.len() > 0 {
        direct
    } else {
        all.filter(is_backdoor_straight_draw())
    }
}

/// The first suit, in the order spade, club, heart, diamond, of which the
/// hand holds exactly `c` cards.
pub open spec fn suit_held(m: Multiset<Card>, c: nat) -> Option<Suit> {
    if suit_count(m, Suit::Spade) == c {
        Some(Suit::Spade)
    } else if suit_count(m, Suit::Club) == c {
        Some(Suit::Club)
    } else if suit_count(m, Suit::Heart) == c {
        Some(Suit::Heart)
    } else if suit_count(m, Suit::Diamond) == c {
        Some(Suit::Diamond)
    } else {
        None
    }
}

/// The flush draw of a hand: a flush draw where exactly four cards share a
/// suit; else a backdoor flush draw where exactly three do; else none.
pub open spec fn flush_draws(m: Multiset<Card>) -> Seq<DrawHand> {
    match suit_held(m, 4) {
        Some(suit) => seq![DrawHand::FlashDraw(suit)],
        None => match suit_held(m, 3) {
            Some(suit) => seq![DrawHand::BackdoorFlashDraw(suit)],
            None => Seq::empty(),
        },
    }
}

/// The ranks of cards, in the order of the cards.
pub open spec fn values_of(s: Seq<Card>) -> Seq<Value> {
    s.map_values(|c: Card| c.value)
}

/// The draws of one hand: its flush draw, if any, then its straight draws.
pub open spec fn hand_draws(s: Seq<Card>) -> Seq<DrawHand> {
    flush_draws(s.to_multiset()) + straight_draws(values_of(s))
}

/// The draws of the first `n` choices of five out of the cards, one choice
/// after the other, nothing left out for occurring twice.
pub open spec fn choice_draws(s: Seq<Card>, n: int) -> Seq<DrawHand>
    decreases n,
{
    if n <= 0 {
        Seq::empty()
    } else {
        choice_draws(s, n - 1) + hand_draws(combinations(s, 5)[n - 1])
    }
}

/// The draws of up to seven cards: none once all seven cards are out,
/// else the draws of every choice of five of the cards.
pub open spec fn draws(s: Seq<Card>) -> Seq<DrawHand> {
    if s.len() == 7 {
        Seq::empty()
    } else {
        choice_draws(s, combinations(s, 5).len() as int)
    }
}

/// Whether a rank is among the given ranks.
fn holds(values: &Vec<Value>, v: Value) -> (found: bool)
    ensures
        found == values@.contains(v),
{
    let mut i: usize = 0;
    while i < values.len()
        invariant
            i <= values.len(),
            forall|j: int| 0 <= j < i ==> values@[j] != v,
        decreases values.len() - i,
    {
        if values[i] == v {
            return true;
        }
        i += 1;
    }
    false
}

/// The ranks of a window that are not held, in the window's order.
fn missing_ranks(values: &Vec<Value>, pattern: &Vec<Value>) -> (gap: Vec<Value>)
    ensures
        gap@ == missing(values@, pattern@),
{
    let mut gap: Vec<Value> = Vec::new();
    let mut i: usize = 0;
    proof {
        lemma_filter_nothing(pattern@, absent_from(values@));
    }
    while i < pattern.len()
        invariant
            i <= pattern.len(),
            gap@ == pattern@.take(i as int).filter(absent_from(values@)),
        decreases pattern.len() - i,
    {
        proof {
            lemma_filter_step(pattern@, absent_from(values@), i as int);
        }
        if !holds(values, pattern[i]) {
            gap.push(pattern[i]);
        }
        i += 1;
    }
    assert(pattern@.take(pattern.len() as int) =~= pattern@);
    gap
}

/// Keeps the draws of one kind, in order.
fn select(draws: &Vec<DrawHand>, backdoor: bool) -> (kept: Vec<DrawHand>)
    ensures
        kept@ == draws@.filter(
            if backdoor {
                is_backdoor_straight_draw()
            } else {
                is_straight_draw()
            },
        ),
{
    let ghost pred = if backdoor {
        is_backdoor_straight_draw()
    } else {
        is_straight_draw()
    };
    let mut kept: Vec<DrawHand> = Vec::new();
    let mut i: usize = 0;
    proof {
        lemma_filter_nothing(draws@, pred);
    }
    while i < draws.len()
        invariant
            i <= draws.len(),
            pred == if backdoor {
                is_backdoor_straight_draw()
            } else {
                is_straight_draw()
            },
            kept@ == draws@.take(i as int).filter(pred),
        decreases draws.len() - i,
    {
        proof {
            lemma_filter_step(draws@, pred, i as int);
        }
        let keep = match draws[i] {
            DrawHand::StraightDraw(_) => !backdoor,
            DrawHand::BackDoorStraightDraw(_, _) => backdoor,
            _ => false,
        };
        if keep {
            kept.push(draws[i]);
        }
        i += 1;
    }
    assert(draws@.take(draws.len() as int) =~= draws@);
    kept
}

/// The straight draws that the held ranks give.
///
/// Every straight window is held against the ranks. A window with exactly
/// one rank missing gives a straight draw for that rank; a window with
/// exactly two missing gives a backdoor straight draw for the two. If any
/// straight draw was found, only the straight draws are returned;
/// otherwise the backdoor straight draws are.
pub fn calculate_straight_draws(values: Vec<Value>) -> (draws: Vec<DrawHand>)
    ensures
        draws@ == straight_draws(values@),
{
    let patterns = get_straight_patterns();
    let mut found: Vec<DrawHand> = Vec::new();
    let mut k: usize = 0;
    while k < patterns.len()
        invariant
            k <= patterns.len(),
            patterns@.len() == WINDOW_COUNT,
            forall|i: int| 0 <= i < WINDOW_COUNT ==> (#[trigger] patterns@[i])@ == window(i),
            found@ == window_draws(values@, k as int),
        decreases patterns.len() - k,
    {
        let gap = missing_ranks(&values, &patterns[k]);
        assert(gap@ == missing(values@, window(k as int)));
        if gap.len() == 1 {
            found.push(DrawHand::StraightDraw(gap[0]));
        } else if gap.len() == 2 {
            found.push(DrawHand::BackDoorStraightDraw(gap[0], gap[1]));
        }
        k += 1;
    }
    let direct = select(&found, false);
    if direct.len() > 0 {
        return direct;
    }
    select(&found, true)
}

/// Straight draws hold nothing but straight draws and backdoor straight
/// draws, and never both kinds.
pub proof fn lemma_straight_draws_kinds(values: Seq<Value>)
    ensures
        forall|i: int|
            0 <= i < straight_draws(values).len() ==> (#[trigger] straight_draws(values)[i])
                is StraightDraw || straight_draws(values)[i] is BackDoorStraightDraw,
        forall|i: int, j: int|
            0 <= i < straight_draws(values).len() && 0 <= j < straight_draws(values).len() ==> ((
            #[trigger] straight_draws(values)[i]) is StraightDraw <==> (#[trigger] straight_draws(
                values,
            )[j]) is StraightDraw),
{
    let all = window_draws(values, WINDOW_COUNT as int);
    assert forall|i: int| 0 <= i < all.filter(is_straight_draw()).len() implies (
    #[trigger] all.filter(is_straight_draw())[i]) is StraightDraw by {
        all.lemma_filter_pred(is_straight_draw(), i);
    }
    assert forall|i: int| 0 <= i < all.filter(is_backdoor_straight_draw()).len() implies (
    #[trigger] all.filter(is_backdoor_straight_draw())[i]) is BackDoorStraightDraw by {
        all.lemma_filter_pred(is_backdoor_straight_draw(), i);
    }
}

/// The draws of exactly five cards are the draws of that one hand.
pub proof fn lemma_draws_of_five(s: Seq<Card>)
    requires
        s.len() == 5,
    ensures
        draws(s) == hand_draws(s),
{
    lemma_combinations_whole(s);
    assert(choice_draws(s, 1) == choice_draws(s, 0) + hand_draws(combinations(s, 5)[0]));
    assert(choice_draws(s, 0) + hand_draws(s) =~= hand_draws(s));
}

/// Among five cards at most one suit is held exactly four times and at most
/// one exactly three times, and never one of each: which suit a flush draw
/// names does not depend on the order in which the suits are asked.
pub proof fn lemma_flush_suit_unique(s: Seq<Card>, a: Suit, b: Suit)
    requires
        s.len() == 5,
        suit_count(s.to_multiset(), a) >= 3,
        suit_count(s.to_multiset(), b) >= 3,
    ensures
        a == b,
{
    lemma_suit_total(s);
}

/// Five cards of which four share a suit hold a flush draw for that suit
/// and no backdoor flush draw.
pub proof fn lemma_flush_draw_of_four(s: Seq<Card>, suit: Suit)
    requires
        s.len() == 5,
        suit_count(s.to_multiset(), suit) == 4,
    ensures
        draws(s).contains(DrawHand::FlashDraw(suit)),
        forall|i: int| 0 <= i < draws(s).len() ==> !((#[trigger] draws(s)[i]) is BackdoorFlashDraw),
{
    lemma_draws_of_five(s);
    lemma_suit_total(s);
    lemma_straight_draws_kinds(values_of(s));
    let m = s.to_multiset();
    assert(suit_held(m, 4) == Some(suit));
    assert(flush_draws(m) == seq![DrawHand::FlashDraw(suit)]);
    assert(draws(s)[0] == DrawHand::FlashDraw(suit));
    assert forall|i: int| 0 <= i < draws(s).len() implies !((#[trigger] draws(s)[i])
        is BackdoorFlashDraw) by {
        if i > 0 {
            assert(draws(s)[i] == straight_draws(values_of(s))[i - 1]);
        }
    }
}

} // verus!
