//! Seats at the table and the relative roles that replace them once a pot
//! has been three-bet.

use crate::text::{same_text, to_ascii_uppercase, upper};
use vstd::prelude::*;

verus! {

/// A seat, or a relative role (`IP`, `OOP`), or no seat at all (`NONE`).
///
/// The variants are declared in the fixed seat order: blinds first, then
/// the seats up to the button, then the relative roles.
#[derive(Debug, PartialEq, Eq, Structural, PartialOrd, Clone, Copy)]
pub enum Position {
    SB,
    BB,
    UTG,
    MP,
    CO,
    BTN,
    OOP,
    IP,
    NONE,
}

impl Position {
    /// Place of the position in the fixed seat order, counted from 0.
    pub open spec fn seat(self) -> int {
        match self {
            Position::SB => 0,
            Position::BB => 1,
            Position::UTG => 2,
            Position::MP => 3,
            Position::CO => 4,
            Position::BTN => 5,
            Position::OOP => 6,
            Position::IP => 7,
            Position::NONE => 8,
        }
    }

    /// The canonical upper-case name of the position.
    pub open spec fn name(self) -> Seq<char> {
        match self {
            Position::SB => "SB"@,
            Position::BB => "BB"@,
            Position::UTG => "UTG"@,
            Position::MP => "MP"@,
            Position::CO => "CO"@,
            Position::BTN => "BTN"@,
            Position::OOP => "OOP"@,
            Position::IP => "IP"@,
            Position::NONE => "NONE"@,
        }
    }

    /// The position that an upper-case text names, if any.
    pub open spec fn named(t: Seq<char>) -> Option<Position> {
        if t == "UTG"@ {
            Some(Position::UTG)
        } else if t == "MP"@ {
            Some(Position::MP)
        } else if t == "CO"@ {
            Some(Position::CO)
        } else if t == "BTN"@ {
            Some(Position::BTN)
        } else if t == "SB"@ {
            Some(Position::SB)
        } else if t == "BB"@ {
            Some(Position::BB)
        } else if t == "OOP"@ {
            Some(Position::OOP)
        } else if t == "IP"@ {
            Some(Position::IP)
        } else if t == "NONE"@ {
            Some(Position::NONE)
        } else {
            None
        }
    }

    /// What a text parses to: the position whose name is the text's
    /// upper-case form.
    pub open spec fn parsed(t: Seq<char>) -> Option<Position> {
        Position::named(upper(t))
    }

    /// The message that rejects a text.
    pub open spec fn rejection(t: Seq<char>) -> Seq<char> {
        "Invalid position: "@ + t
    }

    /// The role opposite to this one: `IP` and `OOP` swap, every other
    /// position is its own opposite.
    pub open spec fn inverted(self) -> Position {
        match self {
            Position::IP => Position::OOP,
            Position::OOP => Position::IP,
            other => other,
        }
    }

    /// The relative role of a player at `self` against one at `villain`:
    /// in position when seated later in the fixed seat order, out of
    /// position otherwise.
    pub open spec fn relative_to(self, villain: Position) -> Position {
        if self.seat() > villain.seat() {
            Position::IP
        } else {
            Position::OOP
        }
    }

    /// Parses a position name, ignoring ASCII case.
    pub fn from_str(s: &str) -> (r: Result<Position, String>)
        ensures
            match Position::parsed(s@) {
                Some(p) => r == Ok::<Position, String>(p),
                None => r is Err && r->Err_0@ == Position::rejection(s@),
            },
    {
        let text = to_ascii_uppercase(s);
        let t = text.as_str();
        if same_text(t, "UTG") {
            Ok(Position::UTG)
        } else if same_text(t, "MP") {
            Ok(Position::MP)
        } else if same_text(t, "CO") {
            Ok(Position::CO)
        } else if same_text(t, "BTN") {
            Ok(Position::BTN)
        } else if same_text(t, "SB") {
            Ok(Position::SB)
        } else if same_text(t, "BB") {
            Ok(Position::BB)
        } else if same_text(t, "OOP") {
            Ok(Position::OOP)
        } else if same_text(t, "IP") {
            Ok(Position::IP)
        } else if same_text(t, "NONE") {
            Ok(Position::NONE)
        } else {
            let mut message = "Invalid position: ".to_owned();
            message.append(s);
            Err(message)
        }
    }

    /// Parses a position name, giving `None` for a text that names none.
    pub fn from(s: &str) -> (r: Option<Position>)
        ensures
            r == Position::parsed(s@),
    {
        match Position::from_str(s) {
            Ok(pos) => Some(pos),
            Err(_) => None,
        }
    }

    /// The canonical upper-case name of the position.
    pub fn to_string(&self) -> (r: String)
        ensures
            r@ == self.name(),
    {
        let name = match self {
            Position::BB => "BB",
            Position::UTG => "UTG",
            Position::MP => "MP",
            Position::CO => "CO",
            Position::BTN => "BTN",
            Position::SB => "SB",
            Position::OOP => "OOP",
            Position::IP => "IP",
            Position::NONE => "NONE",
        };
        name.to_owned()
    }

    /// Whether this is the absent position.
    pub fn is_none(&self) -> (r: bool)
        ensures
            r == (*self == Position::NONE),
    {
        match self {
            Position::NONE => true,
            _ => false,
        }
    }

    /// Place of the position in the fixed seat order.
    pub fn seat_index(&self) -> (i: u8)
        ensures
            i as int == self.seat(),
    {
        match self {
            Position::SB => 0,
            Position::BB => 1,
            Position::UTG => 2,
            Position::MP => 3,
            Position::CO => 4,
            Position::BTN => 5,
            Position::OOP => 6,
            Position::IP => 7,
            Position::NONE => 8,
        }
    }

    /// Replaces a seat by the relative role it has against the villain's
    /// seat: `IP` when this seat comes later in the fixed seat order, `OOP`
    /// otherwise.
    pub fn convert_to_ip_or_oop(&self, villain_positon: Position) -> (r: Position)
        ensures
            r == self.relative_to(villain_positon),
    {
        if self.seat_index() > villain_positon.seat_index() {
            Position::IP
        } else {
            Position::OOP
        }
    }

    /// The opposite role: `IP` for `OOP` and `OOP` for `IP`; any other
    /// position is returned unchanged.
    pub fn invert(&self) -> (r: Position)
        ensures
            r == self.inverted(),
    {
        match self {
            Position::IP => Position::OOP,
            Position::OOP => Position::IP,
            other => *other,
        }
    }
}

impl std::str::FromStr for Position {
    type Err = String;

    /// Parses a position name, ignoring ASCII case, as `Position::from_str`
    /// does.
    fn from_str(s: &str) -> (r: Result<Self, Self::Err>)
        ensures
            match Position::parsed(s@) {
                Some(p) => r == Ok::<Position, String>(p),
                None => r is Err && r->Err_0@ == Position::rejection(s@),
            },
    {
        Position::from_str(s)
    }
}

/// Inverting a role twice gives the role back.
pub proof fn lemma_invert_involution(p: Position)
    ensures
        p.inverted().inverted() == p,
{
}

/// Two distinct seats are given opposite roles, whichever of them is asked.
pub proof fn lemma_relative_roles_opposite(hero: Position, villain: Position)
    requires
        hero != villain,
    ensures
        hero.relative_to(villain) == villain.relative_to(hero).inverted(),
{
}

/// Parsing a text and writing the position out again gives the text in
/// upper case.
pub proof fn lemma_position_round_trip(t: Seq<char>, p: Position)
    requires
        Position::parsed(t) == Some(p),
    ensures
        p.name() == upper(t),
{
}

/// Every position parses back from its own name.
pub proof fn lemma_position_name_parses(p: Position)
    ensures
        Position::parsed(p.name()) == Some(p),
{
    reveal_strlit("UTG");
    reveal_strlit("MP");
    reveal_strlit("CO");
    reveal_strlit("BTN");
    reveal_strlit("SB");
    reveal_strlit("BB");
    reveal_strlit("OOP");
    reveal_strlit("IP");
    reveal_strlit("NONE");
    assert(upper(p.name()) =~= p.name());
    assert("UTG"@.len() == 3 && "BTN"@.len() == 3 && "OOP"@.len() == 3 && "NONE"@.len() == 4);
    assert("MP"@.len() == 2 && "CO"@.len() == 2 && "SB"@.len() == 2 && "BB"@.len() == 2 && "IP"@.len()
        == 2);
    assert("UTG"@[0] == 'U' && "BTN"@[0] == 'B' && "OOP"@[0] == 'O');
    assert("MP"@[0] == 'M' && "CO"@[0] == 'C' && "SB"@[0] == 'S' && "BB"@[0] == 'B' && "IP"@[0]
        == 'I');
}

} // verus!
