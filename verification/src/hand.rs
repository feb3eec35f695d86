//! The interactive look-up: which ranges hold a given starting hand.

use crate::position::Position;
use crate::range::{matching, matching_ranges, Combo, Range};
use crate::text::{lemma_pieces_exist, pieces, same_text, split_at_spaces, trim, trimmed};
use vstd::prelude::*;

verus! {

/// The interactive look-up.
#[derive(Debug, Clone, Copy)]
pub struct Hand {}

/// What a line of input asks for.
#[derive(Debug, Clone)]
pub enum Request {
    /// Leave the look-up.
    Exit,
    /// Look up the ranges that hold the starting hands of an expression,
    /// among all ranges or among those of a position. Where a position was
    /// written that names none, `notice` says so.
    Lookup { hand: String, position: Option<Position>, notice: Option<String> },
    /// The line has too many words.
    Invalid,
}

/// The words of a line: the pieces between the spaces of the line without
/// the white space at its ends.
pub open spec fn words(line: Seq<char>) -> Seq<Seq<char>> {
    pieces(trimmed(line))
}

impl Request {
    /// Whether this is what the line asks for.
    ///
    /// A first word `exit` asks to leave. Otherwise one word asks for the
    /// ranges that hold that hand, and two words ask for it with the
    /// second word as the position, which counts as not given, with a
    /// notice, where it names none. More words ask for nothing.
    pub open spec fn answers(self, line: Seq<char>) -> bool {
        let w = words(line);
        if w[0] == "exit"@ {
            self is Exit
        } else if w.len() == 1 {
            self matches Request::Lookup { hand, position, notice } && hand@ == w[0]
                && position is None && notice is None
        } else if w.len() == 2 {
            self matches Request::Lookup { hand, position, notice } && hand@ == w[0] && position
                == Position::parsed(w[1]) && match Position::parsed(w[1]) {
                Some(_) => notice is None,
                None => notice is Some && notice->Some_0@ == Position::rejection(w[1]),
            }
        } else {
            self is Invalid
        }
    }
}

impl Hand {
    /// What a line of input asks for.
    pub fn interpret(&self, line: &str) -> (request: Request)
        ensures
            request.answers(line@),
    {
        let vars = split_at_spaces(trim(line));
        proof {
            lemma_pieces_exist(trimmed(line@));
        }
        if same_text(vars[0].as_str(), "exit") {
            Request::Exit
        } else if vars.len() == 1 {
            Request::Lookup { hand: vars[0].clone(), position: None, notice: None }
        } else if vars.len() == 2 {
            match Position::from_str(vars[1].as_str()) {
                Ok(position) => Request::Lookup {
                    hand: vars[0].clone(),
                    position: Some(position),
                    notice: None,
                },
                Err(message) => Request::Lookup {
                    hand: vars[0].clone(),
                    position: None,
                    notice: Some(message),
                },
            }
        } else {
            Request::Invalid
        }
    }
}

/// The names of the ranges that hold every one of the sample hands, among
/// those that pass the position filter, in the order of the store.
pub fn hand_analyse(ranges: &Vec<Range>, position: Option<Position>, sample_combos: &Vec<Combo>) -> (names:
    Vec<String>)
    ensures
        names@.len() == matching(ranges@, sample_combos@, position).len(),
        forall|i: int|
            0 <= i < names@.len() ==> (#[trigger] names@[i])@ == matching(
                ranges@,
                sample_combos@,
                position,
            )[i].name@,
{
    let found = matching_ranges(ranges, sample_combos, position);
    let mut names: Vec<String> = Vec::new();
    let mut i: usize = 0;
    while i < found.len()
        invariant
            i <= found.len(),
            names@.len() == i,
            forall|j: int| 0 <= j < i ==> (#[trigger] names@[j])@ == found@[j].name@,
        decreases found.len() - i,
    {
        names.push(found[i].to_string());
        i += 1;
    }
    names
}

} // verus!
