//! A player's own cards: parsed as they were written, and as the set of
//! cards that the `rs_poker` crate makes of the same text.

use crate::card::{lemma_suit_at_ordinal, lemma_value_at_rank, Card, Suit, Value};
use crate::cards::{parse_rejection, parsed, well_formed, Cards};
use vstd::prelude::*;

verus! {

/// `rs_poker::core::RSPokerError`: why a text is no hand, opaque here.
#[verifier::external_type_specification]
#[verifier::external_body]
pub struct ExRSPokerError(rs_poker::core::RSPokerError);

/// A card as its rank position and its suit position.
pub open spec fn card_key(c: Card) -> (u8, u8) {
    (c.value.rank() as u8, c.suit.ordinal() as u8)
}

/// The given cards, each as its rank position and its suit position.
pub open spec fn card_keys(cards: Seq<Card>) -> Seq<(u8, u8)> {
    cards.map_values(|c: Card| card_key(c))
}

/// The message that rejects a text which names a card twice.
pub open spec fn duplicate_rejection() -> Seq<char> {
    "Card already added to hand"@
}

/// `rs_poker::core::Hand::new_from_str`, the cards of the hand given by
/// rank position and suit position.
///
/// Trusted: the call succeeds exactly on a text that is a sequence of
/// cards none of which occurs twice. The hand it gives holds each of those
/// cards once and no other card, in an order of its own.
#[verifier::external_body]
fn hand_from_text(s: &str) -> (r: Result<Vec<(u8, u8)>, rs_poker::core::RSPokerError>)
    ensures
        r.is_ok() == (well_formed(s@) && parsed(s@).no_duplicates()),
        r matches Ok(held) ==> held@.no_duplicates() && held@.to_set() == card_keys(
            parsed(s@),
        ).to_set(),
{
    match rs_poker::core::Hand::new_from_str(s) {
        Ok(hand) => Ok(hand.iter().map(|c| (c.value as u8, c.suit as u8)).collect()),
        Err(error) => Err(error),
    }
}

/// A player's own cards.
///
/// `cards` holds them in the order of the text; `hand` holds each of them
/// once, in no particular order.
#[derive(Debug, Clone)]
pub struct HandWrapper {
    pub hand: Vec<Card>,
    pub cards: Cards,
}

impl HandWrapper {
    /// Whether `hand` holds every card of `cards`, each once, and nothing
    /// else.
    pub open spec fn consistent(&self) -> bool {
        self.hand@.no_duplicates() && self.hand@.to_set() == self.cards@.to_set()
    }

    /// Parses the text of a player's own cards.
    ///
    /// Fails when the text is not a sequence of cards, and when it names a
    /// card twice.
    pub fn from_str(s: &str) -> (r: Result<HandWrapper, String>)
        ensures
            well_formed(s@) && parsed(s@).no_duplicates() ==> r is Ok && r->Ok_0.cards@ == parsed(
                s@,
            ) && r->Ok_0.cards.text@ == s@ && r->Ok_0.consistent(),
            !well_formed(s@) ==> r is Err && r->Err_0@ == parse_rejection(),
            well_formed(s@) && !parsed(s@).no_duplicates() ==> r is Err && r->Err_0@
                == duplicate_rejection(),
    {
        let cards = Cards::from_str(s);
        match cards {
            Err(message) => Err(message.to_owned()),
            Ok(cards) => match hand_from_text(s) {
                Ok(held) => {
                    let hand = cards_of_keys(&held, Ghost(cards@));
                    Ok(HandWrapper { hand, cards })
                },
                Err(_) => Err("Card already added to hand".to_owned()),
            },
        }
    }

    /// A copy that holds the same cards and the same text.
    pub fn copy(&self) -> (r: HandWrapper)
        ensures
            r.cards@ == self.cards@,
            r.cards.text@ == self.cards.text@,
            r.hand@ == self.hand@,
    {
        let mut hand: Vec<Card> = Vec::new();
        let mut i: usize = 0;
        while i < self.hand.len()
            invariant
                i <= self.hand.len(),
                hand@ == self.hand@.take(i as int),
            decreases self.hand.len() - i,
        {
            hand.push(self.hand[i]);
            assert(self.hand@.take(i as int).push(self.hand@[i as int]) =~= self.hand@.take(i + 1));
            i += 1;
        }
        assert(self.hand@.take(self.hand.len() as int) =~= self.hand@);
        HandWrapper { hand, cards: self.cards.copy() }
    }
}

/// The cards that the given positions of rank and suit denote.
fn cards_of_keys(held: &Vec<(u8, u8)>, Ghost(cards): Ghost<Seq<Card>>) -> (hand: Vec<Card>)
    requires
        held@.no_duplicates(),
        held@.to_set() == card_keys(cards).to_set(),
    ensures
        hand@.no_duplicates(),
        hand@.to_set() == cards.to_set(),
{
    let mut hand: Vec<Card> = Vec::new();
    let mut i: usize = 0;
    while i < held.len()
        invariant
            i <= held.len(),
            hand@.len() == i,
            held@.to_set() == card_keys(cards).to_set(),
            forall|j: int| 0 <= j < i ==> card_key(#[trigger] hand@[j]) == held@[j],
        decreases held.len() - i,
    {
        let (rank, suit) = held[i];
        proof {
            assert(held@.contains(held@[i as int]));
            assert(held@.to_set().contains(held@[i as int]));
            assert(card_keys(cards).contains(held@[i as int]));
            let k = choose|k: int|
                0 <= k < card_keys(cards).len() && card_keys(cards)[k] == held@[i as int];
            lemma_value_at_rank(cards[k].value);
            lemma_suit_at_ordinal(cards[k].suit);
        }
        hand.push(Card { value: Value::from_index(rank), suit: Suit::from_index(suit) });
        i += 1;
    }
    proof {
        assert forall|a: int, b: int| 0 <= a < hand@.len() && 0 <= b < hand@.len() && a
            != b implies hand@[a] != hand@[b] by {
            assert(card_key(hand@[a]) == held@[a]);
            assert(card_key(hand@[b]) == held@[b]);
        }
        assert forall|c: Card| hand@.to_set().contains(c) <==> cards.to_set().contains(c) by {
            if hand@.contains(c) {
                let j = choose|j: int| 0 <= j < hand@.len() && hand@[j] == c;
                assert(card_key(hand@[j]) == held@[j]);
                assert(held@.contains(held@[j]));
                assert(held@.to_set().contains(card_key(c)));
                assert(card_keys(cards).contains(card_key(c)));
                let k = choose|k: int|
                    0 <= k < card_keys(cards).len() && card_keys(cards)[k] == card_key(c);
                lemma_card_key_distinguishes(cards[k], c);
                assert(cards.contains(cards[k]));
            }
            if cards.contains(c) {
                let k = choose|k: int| 0 <= k < cards.len() && cards[k] == c;
                assert(card_keys(cards)[k] == card_key(c));
                assert(card_keys(cards).contains(card_key(c)));
                assert(held@.to_set().contains(card_key(c)));
                assert(held@.contains(card_key(c)));
                let j = choose|j: int| 0 <= j < held@.len() && held@[j] == card_key(c);
                assert(card_key(hand@[j]) == held@[j]);
                lemma_card_key_distinguishes(hand@[j], c);
                assert(hand@.contains(hand@[j]));
            }
        }
        assert(hand@.to_set() =~= cards.to_set());
    }
    hand
}

/// Two cards with the same positions of rank and suit are the same card.
pub proof fn lemma_card_key_distinguishes(a: Card, b: Card)
    requires
        card_key(a) == card_key(b),
    ensures
        a == b,
{
}

impl std::str::FromStr for HandWrapper {
    type Err = String;

    /// Parses the text of a player's own cards, as `HandWrapper::from_str`
    /// does.
    fn from_str(s: &str) -> (r: Result<Self, Self::Err>)
        ensures
            well_formed(s@) && parsed(s@).no_duplicates() ==> r is Ok && r->Ok_0.cards@ == parsed(
                s@,
            ) && r->Ok_0.cards.text@ == s@ && r->Ok_0.consistent(),
            !well_formed(s@) ==> r is Err && r->Err_0@ == parse_rejection(),
            well_formed(s@) && !parsed(s@).no_duplicates() ==> r is Err && r->Err_0@
                == duplicate_rejection(),
    {
        HandWrapper::from_str(s)
    }
}

} // verus!
