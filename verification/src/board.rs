//! The community cards.

use crate::cards::{parse_rejection, parsed, well_formed, Cards};
use vstd::prelude::*;

verus! {

/// The community cards on the table.
#[derive(Debug, Clone)]
pub struct Board {
    pub cards: Cards,
}

impl Board {
    /// Parses the text of the community cards, two characters per card.
    ///
    /// Fails when the text is not a sequence of cards.
    pub fn from_str(s: &str) -> (r: Result<Board, &'static str>)
        ensures
            well_formed(s@) ==> r is Ok && r->Ok_0.cards@ == parsed(s@) && r->Ok_0.cards.text@
                == s@,
            !well_formed(s@) ==> r is Err && r->Err_0@ == parse_rejection(),
    {
        match Cards::from_str(s) {
            Ok(cards) => Ok(Board { cards }),
            Err(message) => Err(message),
        }
    }
}

impl std::str::FromStr for Board {
    type Err = &'static str;

    /// Parses the text of the community cards, as `Board::from_str` does.
    fn from_str(s: &str) -> (r: Result<Self, Self::Err>)
        ensures
            well_formed(s@) ==> r is Ok && r->Ok_0.cards@ == parsed(s@) && r->Ok_0.cards.text@
                == s@,
            !well_formed(s@) ==> r is Err && r->Err_0@ == parse_rejection(),
    {
        Board::from_str(s)
    }
}

} // verus!
