//! A duel: the hero's seat and cards, the villain's seat and action, and
//! the board.

use crate::action::Action;
use crate::board::Board;
use crate::cards::Cards;
use crate::hand_wrapper::HandWrapper;
use crate::player::{resolved, Player};
use crate::position::Position;
use crate::range::{first_for, Range, RangeNotFound};
use vstd::prelude::*;

verus! {

/// What is known of a duel when it is analysed.
#[derive(Debug, Clone)]
pub struct Duel {
    pub hero_position: Position,
    pub hand: HandWrapper,
    pub villain_positon: Position,
    pub villain_action: Action,
    pub board: Board,
}

impl Duel {
    /// The key under which the hero's range is recorded.
    pub open spec fn hero_key(&self) -> (Position, Position, Action) {
        resolved(self.hero_position, self.villain_positon, self.villain_action)
    }

    /// The key under which the villain's range is recorded: the villain
    /// seen as answering the hero's answer.
    pub open spec fn villain_key(&self) -> (Position, Position, Action) {
        resolved(self.villain_positon, self.hero_position, self.villain_action.counter())
    }

    /// The two players of the duel, each with the range recorded for the
    /// resolved situation; the hero with the hero's cards, the villain
    /// with none.
    ///
    /// Fails with a message that names the missing keys when no range is
    /// recorded for the hero, or else for the villain.
    pub fn create_hero_and_villain(&self, ranges: &Vec<Range>) -> (r: Result<
        (Player, Player),
        String,
    >)
        ensures
            ({
                let hero = self.hero_key();
                let villain = self.villain_key();
                match (
                    first_for(ranges@, hero.0, hero.1, hero.2, 0),
                    first_for(ranges@, villain.0, villain.1, villain.2, 0),
                ) {
                    (Some(i), Some(j)) => {
                        &&& r is Ok
                        &&& r->Ok_0.0.hand is Some
                        &&& r->Ok_0.0.hand->Some_0@ == self.hand.hand@
                        &&& r->Ok_0.0.position == hero.0
                        &&& r->Ok_0.0.action == hero.2
                        &&& r->Ok_0.0.hand_range.hands@ == ranges@[i].hand_range.hands@
                        &&& r->Ok_0.0.hand_range.char_vec@ == ranges@[i].hand_range.char_vec@
                        &&& r->Ok_0.1.hand is None
                        &&& r->Ok_0.1.position == villain.0
                        &&& r->Ok_0.1.action == villain.2
                        &&& r->Ok_0.1.hand_range.hands@ == ranges@[j].hand_range.hands@
                        &&& r->Ok_0.1.hand_range.char_vec@ == ranges@[j].hand_range.char_vec@
                    },
                    (None, _) => r is Err && r->Err_0@ == (RangeNotFound {
                        position: hero.0,
                        opponent: hero.1,
                        action: hero.2,
                    }).message(),
                    (Some(_), None) => r is Err && r->Err_0@ == (RangeNotFound {
                        position: villain.0,
                        opponent: villain.1,
                        action: villain.2,
                    }).message(),
                }
            }),
    {
        let hero = Player::new(
            Some(self.hand.copy().hand),
            self.hero_position,
            self.villain_positon,
            self.villain_action,
            ranges,
        );
        let villain = Player::new(
            None,
            self.villain_positon,
            self.hero_position,
            self.villain_action.to_hero_action(),
            ranges,
        );
        match (hero, villain) {
            (Ok(hero), Ok(villain)) => Ok((hero, villain)),
            (Err(error), _) => Err(error.to_string()),
            (_, Err(error)) => Err(error.to_string()),
        }
    }

    /// All cards that the hero can use: the hero's own cards followed by
    /// the board.
    pub fn create_available_cards(&self) -> (r: Result<Cards, String>)
        ensures
            r is Ok,
            r->Ok_0@ == self.hand.cards@ + self.board.cards@,
            r->Ok_0.text@ == self.hand.cards.text@ + self.board.cards.text@,
    {
        Ok(self.hand.cards.copy().add(self.board.cards.copy()))
    }
}

} // verus!
