//! Pre-flop betting actions and the action that answers each of them.

use crate::text::{same_text, to_ascii_uppercase, upper};
use vstd::prelude::*;

verus! {

/// A pre-flop betting action.
#[derive(Debug, PartialEq, Eq, Structural, PartialOrd, Clone, Copy)]
pub enum Action {
    Open,
    Limp,
    Call,
    ThreeBet,
    ThreeBetCall,
    FourBet,
    FourBetCall,
}

impl Action {
    /// The action with which a hero answers this action of the villain.
    ///
    /// A fixed pairing, not an inverse: an open is answered by a call and a
    /// call stands for an open before it, a limp is answered by a limp, and
    /// each raise is paired with the call of it.
    pub open spec fn counter(self) -> Action {
        match self {
            Action::Open => Action::Call,
            Action::Limp => Action::Limp,
            Action::Call => Action::Open,
            Action::ThreeBet => Action::ThreeBetCall,
            Action::ThreeBetCall => Action::ThreeBet,
            Action::FourBet => Action::FourBetCall,
            Action::FourBetCall => Action::FourBet,
        }
    }

    /// Whether the action lies past the three-bet: the call of a three-bet,
    /// a four-bet, or the call of a four-bet.
    pub open spec fn past_three_bet(self) -> bool {
        self == Action::ThreeBetCall || self == Action::FourBet || self == Action::FourBetCall
    }

    /// The canonical upper-case short name of the action.
    pub open spec fn name(self) -> Seq<char> {
        match self {
            Action::Open => "OPEN"@,
            Action::Limp => "LIMP"@,
            Action::Call => "CALL"@,
            Action::ThreeBet => "3BET"@,
            Action::ThreeBetCall => "3BETCALL"@,
            Action::FourBet => "4BET"@,
            Action::FourBetCall => "4BETCALL"@,
        }
    }

    /// The upper-case long name of the action; the same as the short name
    /// where the action has only one.
    pub open spec fn long_name(self) -> Seq<char> {
        match self {
            Action::Open => "OPEN"@,
            Action::Limp => "LIMP"@,
            Action::Call => "CALL"@,
            Action::ThreeBet => "THREEBET"@,
            Action::ThreeBetCall => "THREEBETCALL"@,
            Action::FourBet => "FOURBET"@,
            Action::FourBetCall => "FOURBETCALL"@,
        }
    }

    /// The action that an upper-case text names, by its long or short name.
    pub open spec fn named(t: Seq<char>) -> Option<Action> {
        if t == "OPEN"@ {
            Some(Action::Open)
        } else if t == "LIMP"@ {
            Some(Action::Limp)
        } else if t == "CALL"@ {
            Some(Action::Call)
        } else if t == "THREEBET"@ || t == "3BET"@ {
            Some(Action::ThreeBet)
        } else if t == "THREEBETCALL"@ || t == "3BETCALL"@ {
            Some(Action::ThreeBetCall)
        } else if t == "FOURBET"@ || t == "4BET"@ {
            Some(Action::FourBet)
        } else if t == "FOURBETCALL"@ || t == "4BETCALL"@ {
            Some(Action::FourBetCall)
        } else {
            None
        }
    }

    /// What a text parses to: the action that its upper-case form names.
    pub open spec fn parsed(t: Seq<char>) -> Option<Action> {
        Action::named(upper(t))
    }

    /// The message that rejects a text.
    pub open spec fn rejection(t: Seq<char>) -> Seq<char> {
        "Invalid action: "@ + t
    }

    /// Parses an action name, long or short, ignoring ASCII case.
    pub fn from_str(s: &str) -> (r: Result<Action, String>)
        ensures
            match Action::parsed(s@) {
                Some(a) => r == Ok::<Action, String>(a),
                None => r is Err && r->Err_0@ == Action::rejection(s@),
            },
    {
        let text = to_ascii_uppercase(s);
        let t = text.as_str();
        if same_text(t, "OPEN") {
            Ok(Action::Open)
        } else if same_text(t, "LIMP") {
            Ok(Action::Limp)
        } else if same_text(t, "CALL") {
            Ok(Action::Call)
        } else if same_text(t, "THREEBET") || same_text(t, "3BET") {
            Ok(Action::ThreeBet)
        } else if same_text(t, "THREEBETCALL") || same_text(t, "3BETCALL") {
            Ok(Action::ThreeBetCall)
        } else if same_text(t, "FOURBET") || same_text(t, "4BET") {
            Ok(Action::FourBet)
        } else if same_text(t, "FOURBETCALL") || same_text(t, "4BETCALL") {
            Ok(Action::FourBetCall)
        } else {
            let mut message = "Invalid action: ".to_owned();
            message.append(s);
            Err(message)
        }
    }

    /// The canonical upper-case short name of the action.
    pub fn to_string(&self) -> (r: String)
        ensures
            r@ == self.name(),
    {
        let name = match self {
            Action::Open => "OPEN",
            Action::Limp => "LIMP",
            Action::Call => "CALL",
            Action::ThreeBet => "3BET",
            Action::ThreeBetCall => "3BETCALL",
            Action::FourBet => "4BET",
            Action::FourBetCall => "4BETCALL",
        };
        name.to_owned()
    }

    /// The action with which the hero answers this action of the villain.
    pub fn to_hero_action(&self) -> (r: Action)
        ensures
            r == self.counter(),
    {
        match self {
            Action::Open => Action::Call,
            Action::Limp => Action::Limp,
            Action::Call => Action::Open,
            Action::ThreeBet => Action::ThreeBetCall,
            Action::ThreeBetCall => Action::ThreeBet,
            Action::FourBet => Action::FourBetCall,
            Action::FourBetCall => Action::FourBet,
        }
    }

    /// Whether the action lies past the three-bet.
    pub fn is_after_three_bet(&self) -> (r: bool)
        ensures
            r == self.past_three_bet(),
    {
        match self {
            Action::ThreeBetCall | Action::FourBet | Action::FourBetCall => true,
            _ => false,
        }
    }
}

impl std::str::FromStr for Action {
    type Err = String;

    /// Parses an action name, long or short, ignoring ASCII case, as
    /// `Action::from_str` does.
    fn from_str(s: &str) -> (r: Result<Self, Self::Err>)
        ensures
            match Action::parsed(s@) {
                Some(a) => r == Ok::<Action, String>(a),
                None => r is Err && r->Err_0@ == Action::rejection(s@),
            },
    {
        Action::from_str(s)
    }
}

/// The answer to an action is an open exactly when the action is a call.
pub proof fn lemma_counter_open(a: Action)
    ensures
        a.counter() == Action::Open <==> a == Action::Call,
{
}

/// Parsing a text and writing the action out again gives the text in
/// upper case where the text was the short name, and the short name that
/// stands for it where the text was the long name.
pub proof fn lemma_action_round_trip(t: Seq<char>, a: Action)
    requires
        Action::parsed(t) == Some(a),
    ensures
        a.name() == upper(t) || a.long_name() == upper(t),
{
}

/// Every action parses back from its own short name and from its long
/// name.
pub proof fn lemma_action_name_parses(a: Action)
    ensures
        Action::parsed(a.name()) == Some(a),
        Action::parsed(a.long_name()) == Some(a),
{
    reveal_strlit("OPEN");
    reveal_strlit("LIMP");
    reveal_strlit("CALL");
    reveal_strlit("THREEBET");
    reveal_strlit("3BET");
    reveal_strlit("THREEBETCALL");
    reveal_strlit("3BETCALL");
    reveal_strlit("FOURBET");
    reveal_strlit("4BET");
    reveal_strlit("FOURBETCALL");
    reveal_strlit("4BETCALL");
    assert(upper(a.name()) =~= a.name());
    assert(upper(a.long_name()) =~= a.long_name());
    assert("OPEN"@.len() == 4 && "LIMP"@.len() == 4 && "CALL"@.len() == 4 && "3BET"@.len() == 4
        && "4BET"@.len() == 4);
    assert("OPEN"@[0] == 'O' && "LIMP"@[0] == 'L' && "CALL"@[0] == 'C' && "3BET"@[0] == '3'
        && "4BET"@[0] == '4');
    assert("THREEBET"@.len() == 8 && "3BETCALL"@.len() == 8 && "4BETCALL"@.len() == 8);
    assert("THREEBET"@[0] == 'T' && "3BETCALL"@[0] == '3' && "4BETCALL"@[0] == '4');
    assert("FOURBET"@.len() == 7);
    assert("THREEBETCALL"@.len() == 12);
    assert("FOURBETCALL"@.len() == 11);
}

} // verus!
