//! Named pre-flop ranges: which starting hands a player holds in a given
//! seat, against a given opponent, after a given action.

use crate::action::Action;
use crate::player::{ConfigLoadError, Pattern, Patterns};
use crate::position::Position;
use crate::seqs::{lemma_filter_nothing, lemma_filter_step};
use vstd::prelude::*;

verus! {

/// A starting hand: two cards, each given by its number in the deck (four
/// times the rank position plus the suit), and a weight from 0 to 100.
#[derive(Debug, Clone, Copy)]
pub struct Combo(pub u8, pub u8, pub u8);

impl Combo {
    /// Whether two starting hands hold the same two cards, whatever their
    /// weights.
    pub open spec fn same_cards(self, other: Combo) -> bool {
        self.0 == other.0 && self.1 == other.1
    }

    /// Whether this starting hand holds the same two cards as the other.
    pub fn matches(&self, other: &Combo) -> (r: bool)
        ensures
            r == self.same_cards(*other),
    {
        self.0 == other.0 && self.1 == other.1
    }
}

/// A range of starting hands: the hands themselves and the characters of
/// the expression they were expanded from.
#[derive(Debug, Clone)]
pub struct HandRange {
    pub hands: Vec<Combo>,
    pub char_vec: Vec<char>,
}

impl HandRange {
    /// A copy of the range, with the same hands and characters.
    pub fn copy(&self) -> (r: HandRange)
        ensures
            r.hands@ == self.hands@,
            r.char_vec@ == self.char_vec@,
    {
        let mut hands: Vec<Combo> = Vec::new();
        let mut i: usize = 0;
        while i < self.hands.len()
            invariant
                i <= self.hands.len(),
                hands@ == self.hands@.take(i as int),
            decreases self.hands.len() - i,
        {
            hands.push(self.hands[i]);
            assert(self.hands@.take(i as int).push(self.hands@[i as int]) =~= self.hands@.take(
                i + 1,
            ));
            i += 1;
        }
        assert(self.hands@.take(self.hands.len() as int) =~= self.hands@);
        let mut char_vec: Vec<char> = Vec::new();
        let mut j: usize = 0;
        while j < self.char_vec.len()
            invariant
                j <= self.char_vec.len(),
                char_vec@ == self.char_vec@.take(j as int),
            decreases self.char_vec.len() - j,
        {
            char_vec.push(self.char_vec[j]);
            assert(self.char_vec@.take(j as int).push(self.char_vec@[j as int])
                =~= self.char_vec@.take(j + 1));
            j += 1;
        }
        assert(self.char_vec@.take(self.char_vec.len() as int) =~= self.char_vec@);
        HandRange { hands, char_vec }
    }
}

/// A named range with the situation it belongs to.
#[derive(Debug)]
pub struct Range {
    pub name: String,
    pub action: Action,
    pub me: Position,
    pub opponent: Position,
    pub hand_range: HandRange,
}

/// No range is recorded for a situation.
#[derive(Debug, PartialEq, Eq, Structural, Clone, Copy)]
pub struct RangeNotFound {
    pub position: Position,
    pub opponent: Position,
    pub action: Action,
}

impl RangeNotFound {
    /// The failure as a message that names the three keys.
    pub open spec fn message(self) -> Seq<char> {
        "can't find HandRange. "@ + self.position.name() + " vs. "@ + self.opponent.name() + " : "@
            + self.action.name()
    }

    /// The failure as a message that names the three keys.
    pub fn to_string(&self) -> (r: String)
        ensures
            r@ == self.message(),
    {
        let mut text = "can't find HandRange. ".to_owned();
        text.append(self.position.to_string().as_str());
        text.append(" vs. ");
        text.append(self.opponent.to_string().as_str());
        text.append(" : ");
        text.append(self.action.to_string().as_str());
        text
    }
}

/// Whether a sequence of starting hands holds the cards of `combo`.
pub open spec fn holds_combo(hands: Seq<Combo>, combo: Combo) -> bool {
    exists|i: int| 0 <= i < hands.len() && (#[trigger] hands[i]).same_cards(combo)
}

/// Whether a sequence of starting hands holds the cards of every one of
/// `combos`.
pub open spec fn holds_all(hands: Seq<Combo>, combos: Seq<Combo>) -> bool {
    forall|j: int| 0 <= j < combos.len() ==> holds_combo(hands, #[trigger] combos[j])
}

/// Whether a range of seat `me` passes a position filter: without a filter
/// every range passes; with one, the ranges of the relative roles and
/// those of the filter's own seat.
pub open spec fn passes(me: Position, filter: Option<Position>) -> bool {
    match filter {
        None => true,
        Some(position) => me == Position::IP || me == Position::OOP || me == position,
    }
}

impl Range {
    /// Whether the range belongs to the given situation.
    pub open spec fn is_for(&self, position: Position, opponent: Position, action: Action) -> bool {
        self.me == position && self.opponent == opponent && self.action == action
    }

    /// Whether the range passes the position filter and holds every sample
    /// hand.
    pub open spec fn answers(&self, samples: Seq<Combo>, filter: Option<Position>) -> bool {
        passes(self.me, filter) && holds_all(self.hand_range.hands@, samples)
    }

    /// Whether the range holds the cards of the starting hand.
    pub fn contains_combo(&self, combo: &Combo) -> (r: bool)
        ensures
            r == holds_combo(self.hand_range.hands@, *combo),
    {
        let mut i: usize = 0;
        while i < self.hand_range.hands.len()
            invariant
                i <= self.hand_range.hands.len(),
                forall|j: int| 0 <= j < i ==> !(#[trigger] self.hand_range.hands@[j]).same_cards(*combo),
            decreases self.hand_range.hands.len() - i,
        {
            if self.hand_range.hands[i].matches(combo) {
                return true;
            }
            i += 1;
        }
        false
    }

    /// Whether the range holds the cards of every one of the starting
    /// hands; true of no hands at all.
    pub fn contains_all(&self, combos: &Vec<Combo>) -> (r: bool)
        ensures
            r == holds_all(self.hand_range.hands@, combos@),
    {
        let mut j: usize = 0;
        while j < combos.len()
            invariant
                j <= combos.len(),
                forall|k: int|
                    0 <= k < j ==> holds_combo(self.hand_range.hands@, #[trigger] combos@[k]),
            decreases combos.len() - j,
        {
            if !self.contains_combo(&combos[j]) {
                return false;
            }
            j += 1;
        }
        true
    }

    /// Whether the range belongs to a relative role rather than a seat.
    pub fn is_ip_or_oop(&self) -> (r: bool)
        ensures
            r == (self.me == Position::IP || self.me == Position::OOP),
    {
        match self.me {
            Position::IP | Position::OOP => true,
            _ => false,
        }
    }

    /// Whether the range belongs to the given seat.
    pub fn equals_me(&self, position: Position) -> (r: bool)
        ensures
            r == (self.me == position),
    {
        self.me == position
    }

    /// The name of the range.
    pub fn to_string(&self) -> (r: String)
        ensures
            r@ == self.name@,
    {
        self.name.clone()
    }
}

/// The place of the first range for a situation, if any range is for it.
pub open spec fn first_for(
    ranges: Seq<Range>,
    position: Position,
    opponent: Position,
    action: Action,
    from: int,
) -> Option<int>
    decreases ranges.len() - from,
{
    if from >= ranges.len() {
        None
    } else if ranges[from].is_for(position, opponent, action) {
        Some(from)
    } else {
        first_for(ranges, position, opponent, action, from + 1)
    }
}

/// The first range recorded for a situation.
///
/// Fails with the three keys of the situation when no range is recorded
/// for it.
pub fn find<'a>(ranges: &'a Vec<Range>, position: Position, opponent: Position, action: Action) -> (r:
    Result<&'a Range, RangeNotFound>)
    ensures
        match first_for(ranges@, position, opponent, action, 0) {
            Some(i) => r == Ok::<&Range, RangeNotFound>(&ranges@[i]),
            None => r == Err::<&Range, RangeNotFound>(
                (RangeNotFound { position, opponent, action }),
            ),
        },
{
    let mut i: usize = 0;
    while i < ranges.len()
        invariant
            i <= ranges.len(),
            first_for(ranges@, position, opponent, action, 0) == first_for(
                ranges@,
                position,
                opponent,
                action,
                i as int,
            ),
        decreases ranges.len() - i,
    {
        let range = &ranges[i];
        if range.me == position && range.opponent == opponent && range.action == action {
            return Ok(range);
        }
        i += 1;
    }
    Err(RangeNotFound { position, opponent, action })
}

/// The test "passes the filter and holds every sample".
pub open spec fn answering(samples: Seq<Combo>, filter: Option<Position>) -> spec_fn(Range) -> bool {
    |range: Range| range.answers(samples, filter)
}

/// The ranges that hold every sample hand, among those that pass the
/// position filter, in the order of the store.
pub open spec fn matching(ranges: Seq<Range>, samples: Seq<Combo>, filter: Option<Position>) -> Seq<
    Range,
> {
    ranges.filter(answering(samples, filter))
}

/// The ranges that hold every one of the sample hands, among those that
/// pass the position filter, in the order of the store.
///
/// Without a filter every range is eligible; with one, the ranges of the
/// relative roles and those of the filter's own seat.
pub fn matching_ranges<'a>(
    ranges: &'a Vec<Range>,
    sample_combos: &Vec<Combo>,
    position_filter: Option<Position>,
) -> (found: Vec<&'a Range>)
    ensures
        found@.len() == matching(ranges@, sample_combos@, position_filter).len(),
        forall|i: int|
            0 <= i < found@.len() ==> *(#[trigger] found@[i]) == matching(
                ranges@,
                sample_combos@,
                position_filter,
            )[i],
{
    let ghost pred = answering(sample_combos@, position_filter);
    let mut found: Vec<&Range> = Vec::new();
    let mut i: usize = 0;
    proof {
        lemma_filter_nothing(ranges@, pred);
    }
    while i < ranges.len()
        invariant
            i <= ranges.len(),
            pred == answering(sample_combos@, position_filter),
            found@.len() == ranges@.take(i as int).filter(pred).len(),
            forall|j: int|
                0 <= j < found@.len() ==> *(#[trigger] found@[j]) == ranges@.take(i as int).filter(
                    pred,
                )[j],
        decreases ranges.len() - i,
    {
        proof {
            lemma_filter_step(ranges@, pred, i as int);
        }
        let range = &ranges[i];
        let eligible = match position_filter {
            None => true,
            Some(position) => range.is_ip_or_oop() || range.equals_me(position),
        };
        if eligible && range.contains_all(sample_combos) {
            found.push(range);
        }
        i += 1;
    }
    assert(ranges@.take(ranges.len() as int) =~= ranges@);
    found
}

/// Without sample hands, the matching ranges are all the ranges that pass
/// the position filter.
pub proof fn lemma_no_samples_match_all(ranges: Seq<Range>, filter: Option<Position>)
    ensures
        matching(ranges, Seq::empty(), filter) == ranges.filter(|range: Range| passes(range.me, filter)),
    decreases ranges.len(),
{
    reveal(Seq::filter);
    if ranges.len() > 0 {
        lemma_no_samples_match_all(ranges.drop_last(), filter);
        assert(holds_all(ranges.last().hand_range.hands@, Seq::empty()));
    }
}

/// The reason given for a record whose action or positions do not parse.
pub open spec fn invalid_pattern() -> Seq<char> {
    "invalid pattern"@
}

impl Pattern {
    /// Whether the record can be used: its action and both its positions
    /// parse.
    pub open spec fn usable(&self) -> bool {
        Action::parsed(self.action@) is Some && Position::parsed(self.me@) is Some
            && Position::parsed(self.opponent@) is Some
    }

    /// Whether `range` is this record made into a range with the given
    /// starting hands.
    pub open spec fn describes(&self, hand_range: HandRange, range: Range) -> bool {
        &&& range.name@ == self.name@
        &&& Some(range.action) == Action::parsed(self.action@)
        &&& Some(range.me) == Position::parsed(self.me@)
        &&& Some(range.opponent) == Position::parsed(self.opponent@)
        &&& range.hand_range.hands@ == hand_range.hands@
        &&& range.hand_range.char_vec@ == hand_range.char_vec@
    }

    /// Makes the record into a range, with the starting hands that its
    /// range expression expands to.
    ///
    /// Fails when the action or one of the positions does not parse.
    pub fn to_range(&self, hand_range: HandRange) -> (r: Result<Range, ConfigLoadError>)
        ensures
            self.usable() ==> r is Ok && self.describes(hand_range, r->Ok_0),
            !self.usable() ==> r is Err && r->Err_0.reason@ == invalid_pattern(),
    {
        let action = Action::from_str(self.action.as_str());
        let me = Position::from_str(self.me.as_str());
        let opponent = Position::from_str(self.opponent.as_str());
        match (action, me, opponent) {
            (Ok(action), Ok(me), Ok(opponent)) => Ok(
                Range { name: self.name.clone(), action, me, opponent, hand_range },
            ),
            _ => Err(ConfigLoadError { reason: "invalid pattern".to_owned() }),
        }
    }
}

/// Makes every record of the configuration into a range, the `i`-th record
/// with the `i`-th of the given expansions.
///
/// Fails when there are not as many expansions as records, or when some
/// record cannot be used.
pub fn read_ranges(patterns: &Patterns, hand_ranges: &Vec<HandRange>) -> (r: Result<
    Vec<Range>,
    ConfigLoadError,
>)
    ensures
        (patterns.patterns@.len() == hand_ranges@.len() && forall|i: int|
            0 <= i < patterns.patterns@.len() ==> (#[trigger] patterns.patterns@[i]).usable()) ==> {
            &&& r is Ok
            &&& r->Ok_0@.len() == patterns.patterns@.len()
            &&& forall|i: int|
                0 <= i < patterns.patterns@.len() ==> (#[trigger] patterns.patterns@[i]).describes(
                    hand_ranges@[i],
                    r->Ok_0@[i],
                )
        },
        !(patterns.patterns@.len() == hand_ranges@.len() && forall|i: int|
            0 <= i < patterns.patterns@.len() ==> (#[trigger] patterns.patterns@[i]).usable())
            ==> r is Err && r->Err_0.reason@ == invalid_pattern(),
{
    if patterns.patterns.len() != hand_ranges.len() {
        return Err(ConfigLoadError { reason: "invalid pattern".to_owned() });
    }
    let mut ranges: Vec<Range> = Vec::new();
    let mut i: usize = 0;
    while i < patterns.patterns.len()
        invariant
            i <= patterns.patterns.len(),
            patterns.patterns@.len() == hand_ranges@.len(),
            ranges@.len() == i,
            forall|j: int| 0 <= j < i ==> (#[trigger] patterns.patterns@[j]).usable(),
            forall|j: int|
                0 <= j < i ==> (#[trigger] patterns.patterns@[j]).describes(
                    hand_ranges@[j],
                    ranges@[j],
                ),
        decreases patterns.patterns.len() - i,
    {
        match patterns.patterns[i].to_range(hand_ranges[i].copy()) {
            Ok(range) => {
                ranges.push(range);
            },
            Err(error) => {
                assert(!patterns.patterns@[i as int].usable());
                return Err(error);
            },
        }
        i += 1;
    }
    Ok(ranges)
}

} // verus!
