//! Players of a duel, and the configuration records that name their ranges.

use crate::action::Action;
use crate::card::Card;
use crate::position::Position;
use crate::range::{find, first_for, HandRange, Range, RangeNotFound};
use vstd::prelude::*;

verus! {

/// One configuration record: a named range and the situation it is for, all
/// as text.
#[derive(Debug, Clone)]
pub struct Pattern {
    pub action: String,
    pub opponent: String,
    pub me: String,
    pub hands: String,
    pub name: String,
}

/// The configuration: a list of records.
#[derive(Debug, Clone)]
pub struct Patterns {
    pub patterns: Vec<Pattern>,
}

/// The configuration cannot be used; the reason is given as text.
#[derive(Debug, Clone)]
pub struct ConfigLoadError {
    pub reason: String,
}

/// A player of a duel: the cards held, where known, the range assumed, and
/// the resolved action and position that the range was looked up under.
#[derive(Debug)]
pub struct Player {
    pub hand: Option<Vec<Card>>,
    pub hand_range: HandRange,
    pub action: Action,
    pub position: Position,
}

/// The key under which the hero's range is recorded, from the seats of
/// hero and villain and the villain's action: the resolved position, the
/// resolved opponent and the hero's action.
///
/// The hero's action is the answer to the villain's. Past the three-bet
/// the seats give way to the relative roles; an open has no opponent yet;
/// otherwise the seats stand as they are.
pub open spec fn resolved(hero: Position, villain: Position, villain_action: Action) -> (
    Position,
    Position,
    Action,
) {
    let hero_action = villain_action.counter();
    if hero_action.past_three_bet() {
        (hero.relative_to(villain), hero.relative_to(villain).inverted(), hero_action)
    } else if hero_action == Action::Open {
        (hero, Position::NONE, hero_action)
    } else {
        (hero, villain, hero_action)
    }
}

/// Resolves the seats of hero and villain and the villain's action to the
/// key under which the hero's range is recorded.
pub fn collect_position_and_action(
    hero_position: Position,
    villain_position: Position,
    villain_action: Action,
) -> (key: (Position, Position, Action))
    ensures
        key == resolved(hero_position, villain_position, villain_action),
{
    let hero_action = villain_action.to_hero_action();
    if hero_action.is_after_three_bet() {
        let hero_position = hero_position.convert_to_ip_or_oop(villain_position);
        let villain_position = hero_position.invert();
        return (hero_position, villain_position, hero_action);
    }
    if hero_action == Action::Open {
        return (hero_position, Position::NONE, hero_action);
    }
    (hero_position, villain_position, hero_action)
}

/// The starting hands of the first range recorded for a situation.
///
/// Fails with the three keys of the situation when no range is recorded
/// for it.
pub fn get_hand_range(
    ranges: &Vec<Range>,
    hero_position: &Position,
    villain_positon: &Position,
    hero_action: &Action,
) -> (r: Result<HandRange, RangeNotFound>)
    ensures
        match first_for(ranges@, *hero_position, *villain_positon, *hero_action, 0) {
            Some(i) => r is Ok && r->Ok_0.hands@ == ranges@[i].hand_range.hands@
                && r->Ok_0.char_vec@ == ranges@[i].hand_range.char_vec@,
            None => r == Err::<HandRange, RangeNotFound>(
                (RangeNotFound {
                    position: *hero_position,
                    opponent: *villain_positon,
                    action: *hero_action,
                }),
            ),
        },
{
    match find(ranges, *hero_position, *villain_positon, *hero_action) {
        Ok(range) => Ok(range.hand_range.copy()),
        Err(missing) => Err(missing),
    }
}

impl Player {
    /// The player at `hero_position` who answers `villain_action` of the
    /// player at `villain_positon`, with the range recorded for the
    /// resolved situation.
    ///
    /// Fails with the resolved keys when no range is recorded for them.
    pub fn new(
        hand: Option<Vec<Card>>,
        hero_position: Position,
        villain_positon: Position,
        villain_action: Action,
        ranges: &Vec<Range>,
    ) -> (r: Result<Player, RangeNotFound>)
        ensures
            ({
                let key = resolved(hero_position, villain_positon, villain_action);
                match first_for(ranges@, key.0, key.1, key.2, 0) {
                    Some(i) => r is Ok && r->Ok_0.hand == hand && r->Ok_0.position == key.0
                        && r->Ok_0.action == key.2 && r->Ok_0.hand_range.hands@
                        == ranges@[i].hand_range.hands@ && r->Ok_0.hand_range.char_vec@
                        == ranges@[i].hand_range.char_vec@,
                    None => r == Err::<Player, RangeNotFound>(
                        (RangeNotFound { position: key.0, opponent: key.1, action: key.2 }),
                    ),
                }
            }),
    {
        let (hero_position, villain_positon, hero_action) = collect_position_and_action(
            hero_position,
            villain_positon,
            villain_action,
        );
        match get_hand_range(ranges, &hero_position, &villain_positon, &hero_action) {
            Ok(hand_range) => Ok(
                Player { hand, hand_range, action: hero_action, position: hero_position },
            ),
            Err(missing) => Err(missing),
        }
    }
}

/// A villain who called has the hero open, with no opponent, whatever the
/// seats.
pub proof fn lemma_call_resolves_to_open(hero: Position, villain: Position)
    ensures
        resolved(hero, villain, Action::Call).2 == Action::Open,
        resolved(hero, villain, Action::Call).1 == Position::NONE,
        resolved(hero, villain, Action::Call).0 == hero,
{
}

/// Whenever the hero's action lies past the three-bet, hero and opponent
/// are resolved to the two relative roles, one each, and which of them the
/// hero gets depends on nothing but whether the hero sits later than the
/// villain.
pub proof fn lemma_roles_past_three_bet(hero: Position, villain: Position, villain_action: Action)
    requires
        villain_action.counter().past_three_bet(),
    ensures
        ({
            let key = resolved(hero, villain, villain_action);
            &&& key.2 == villain_action.counter()
            &&& (key.0 == Position::IP && key.1 == Position::OOP) || (key.0 == Position::OOP
                && key.1 == Position::IP)
            &&& key.0 == Position::IP <==> hero.seat() > villain.seat()
        }),
{
}

/// A villain who called a three-bet has the hero three-bet, and the seats
/// stand as they were given.
pub proof fn lemma_three_bet_call_resolves(hero: Position, villain: Position)
    ensures
        resolved(hero, villain, Action::ThreeBetCall) == (hero, villain, Action::ThreeBet),
{
}

/// With hero and villain already given as the two relative roles, a
/// villain who called a three-bet leaves the hero three-betting in a pair
/// of roles that is in position and out of position, one each, the hero in
/// position exactly when seated later than the villain.
pub proof fn lemma_three_bet_call_roles(hero: Position, villain: Position)
    requires
        (hero == Position::IP && villain == Position::OOP) || (hero == Position::OOP && villain
            == Position::IP),
    ensures
        ({
            let key = resolved(hero, villain, Action::ThreeBetCall);
            &&& key.2 == Action::ThreeBet
            &&& (key.0 == Position::IP && key.1 == Position::OOP) || (key.0 == Position::OOP
                && key.1 == Position::IP)
            &&& key.0 == hero.relative_to(villain)
            &&& key.1 == key.0.inverted()
        }),
{
}

} // verus!
