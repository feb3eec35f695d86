use headsup_analyzer::action::Action;
use headsup_analyzer::player::{Pattern, Patterns};
use headsup_analyzer::position::Position;
use headsup_analyzer::range::{
    find, matching_ranges, read_ranges, Combo, HandRange, Range, RangeNotFound,
};

const DATA: &str = r#"
{
  "patterns": [
    {
      "name": "UTGオープン",
      "action": "open",
      "me": "utg",
      "opponent": "none",
      "hands": "ATo+,A8s+,A4s,A5s,77+,KJo+,K9s+,QTs+,JTs"
    },
    {
      "name": "MPオープン",
      "action": "open",
      "me": "mp",
      "opponent": "none",
      "hands": "ATo+,A2s+,66+,KJo+,K8s+,QJo+,Q9s+,J9s+,T9s+"
    },
    {
      "name": "COオープン",
      "action": "open",
      "me": "co",
      "opponent": "none",
      "hands": "A9o+,A2s+,44+,KTo+,K6s+,QTo+,Q9s+,J9s+,JTo,T8s+,98s,87s,76s,65s"
    },
    {
      "name": "BTNオープン",
      "action": "open",
      "me": "btn",
      "opponent": "none",
      "hands": "22+,A2s+,A4o+,K2s+,K9o+,Q6s+,QTo+,J7s+,J9o+,T7s+,T9o+,97s+,86s+,75s+,64s+,54s+"
    },
    {
      "name": "SBオープン",
      "action": "open",
      "me": "sb",
      "opponent": "none",
      "hands": "22+,A2s+,A3o+,K2s+,K8o+,Q2s+,Q9o+,J5s+,J9o+,T6s+,T8o+,96s+,98o+,85s+,74s+,64s+,53s+,43s+"
    },
    {
      "name": "MPコール vs UTG",
      "action": "call",
      "me": "mp",
      "opponent": "utg",
      "hands": "JJ,TT,99,AQs,AJs,KQs"
    },
    {
      "name": "COコール vs UTG(EP)",
      "action": "call",
      "me": "co",
      "opponent": "utg",
      "hands": "JJ,TT,99,AQs,AJs,KQs"
    },
    {
      "name": "COコール vs MP(EP)",
      "action": "call",
      "me": "co",
      "opponent": "mp",
      "hands": "JJ,99,AQs,AJs,KQs"
    },
    {
      "name": "BTNコール vs UTG(EP)",
      "action": "call",
      "me": "btn",
      "opponent": "utg",
      "hands": "TT,99,88,AQs,AJs,ATs,AQo,AJo,KQs,KJs,KQo,QJs,JTs"
    },
    {
      "name": "BTNコール vs MP(EP)",
      "action": "call",
      "me": "btn",
      "opponent": "mp",
      "hands": "TT,99,88,AQs,AJs,ATs,AQo,AJo,KQs,KJs,KQo,QJs,JTs"
    },
    {
      "name": "BTNコール vs CO",
      "action": "call",
      "me": "btn",
      "opponent": "co",
      "hands": "99,88,77,AJs,ATs,AQo,QJs,JTs"
    },
    {
      "name": "SBコール vs UTG(EP)",
      "action": "call",
      "me": "sb",
      "opponent": "utg",
      "hands": "99,88,77,KJs"
    },
    {
      "name": "SBコール vs MP(EP)",
      "action": "call",
      "me": "sb",
      "opponent": "mp",
      "hands": "99,88,77,KJs"
    },
    {
      "name": "BBコール vs UTG(EP)",
      "action": "call",
      "me": "bb",
      "opponent": "utg",
      "hands": "JJ,TT,99,88,77,66,55,44,33,22,AQs,AJs,ATs,A9s,A8s,A7s,A6s,A5s,A4s,A3s,A2s,AQo,AJo,ATo,K9s+,KQo,Q9s+,J9s+,T8s+,97s+,86s+,75s+,64s+,54s"
    },
    {
      "name": "BBコール vs MP(EP)",
      "action": "call",
      "me": "bb",
      "opponent": "mp",
      "hands": "JJ,TT,99,88,77,66,55,44,33,22,AQs,AJs,ATs,A9s,A8s,A7s,A6s,A5s,A4s,A3s,A2s,AQo,AJo,ATo,K9s+,KQo,Q9s+,J9s+,T8s+,97s+,86s+,75s+,64s+,54s"
    },
    {
      "name": "BBコール vs CO",
      "action": "call",
      "me": "bb",
      "opponent": "co",
      "hands": "TT,99,88,77,66,55,44,33,22,AJs,ATs,A9s,A8s,A7s,A6s,A3s,A2s,AQo,AJo,ATo,K7s+,KJo+,Q8s+,QJo,J8s+,T8s+,97s+,86s+,75s+,64s+,54s"
    },
    {
      "name": "BBコール vs BTN",
      "action": "call",
      "me": "bb",
      "opponent": "btn",
      "hands": "77,66,55,44,33,22,A9s,A8s,A7s,A6s,AQo,AJo,ATo,A9o,K5s+,KT+o,Q7s+,QTo+,J8s+,JTo,T7s+,97s+,86s+,75s+,64s+,54s,43s"
    },
    {
      "name": "BBコール vs SB",
      "action": "call",
      "me": "bb",
      "opponent": "sb",
      "hands": "77,66,55,44,33,22,A9s,A8s,A7s,A6s,A5s,A4s,A3s,A2s,AJo,ATo,K9s,K8s,K7s,K6s,K5s,K4s,K3s,K2s,K7o+,QTs,Q9s,Q8s,Q7s,Q6s,Q5s,Q4s,Q3s,Q2s,Q8o+,J9s,J8s,J7s,J6s,J5s,J4s,J3s,J8o+,T8s,T7s,T6s,T5s,T4s,T8o+,94s+,97o+,84s+,87o,74s+,63s+,52s+,42s+,32s"
    },
    {
      "name": "MP3bet vs UTG",
      "action": "3bet",
      "me": "mp",
      "opponent": "utg",
      "hands": "AA,KK,QQ,ATs+,A5s,A4s,AQo+,KQs,KJs"
    },
    {
      "name": "CO3bet vs UTG(EP)",
      "action": "3bet",
      "me": "co",
      "opponent": "utg",
      "hands": "AA,KK,QQ,ATs+,A5s,A4s,AQo+,KJs,65s,54s"
    },
    {
      "name": "CO3bet vs MP(EP)",
      "action": "3bet",
      "me": "co",
      "opponent": "mp",
      "hands": "AA,KK,QQ,ATs+,A5s,A4s,AQo+,KJs,65s,54s"
    },
    {
      "name": "BTN3bet vs UTG(EP)",
      "action": "3bet",
      "me": "btn",
      "opponent": "utg",
      "hands": "JJ+,AKs,A5s,A4s,AKo,AJo,KTs,KQo,76s,65s,54s"
    },
    {
      "name": "BTN3bet vs MP(EP)",
      "action": "3bet",
      "me": "btn",
      "opponent": "mp",
      "hands": "JJ+,AKs,A5s,A4s,AKo,AJo,KTs,KQo,76s,65s,54s"
    },
    {
      "name": "BTN3bet vs CO",
      "action": "3bet",
      "me": "btn",
      "opponent": "co",
      "hands": "TT+,AQs+,A9s,A8s,A5s,A4s,A3s,A2s,AKo,AJo,KTs,KQo,76s,65s,54s"
    },
    {
      "name": "SB3bet vs UTG(EP)",
      "action": "3bet",
      "me": "sb",
      "opponent": "utg",
      "hands": "TT+,ATs+,A5s,A4s,AQo+,KQs"
    },
    {
      "name": "SB3bet vs MP(EP)",
      "action": "3bet",
      "me": "sb",
      "opponent": "mp",
      "hands": "TT+,ATs+,A5s,A4s,AQo+,KQs"
    },
    {
      "name": "SB3bet vs CO",
      "action": "3bet",
      "me": "sb",
      "opponent": "co",
      "hands": "66+,A8s+,A5s,A4s,A3s,AJo+,KTs+,KQo"
    },
    {
      "name": "SB3bet vs BTN",
      "action": "3bet",
      "me": "sb",
      "opponent": "btn",
      "hands": "55+,A2s+,ATo+,K9s+,KJo+,QTs+,QJo+,J9s+,T9s+"
    },
    {
      "name": "BB3bet vs UTG(EP)",
      "action": "3bet",
      "me": "bb",
      "opponent": "utg",
      "hands": "QQ+,AKs,ATs,A5s,A4s,AKo,ATo,K9s"
    },
    {
      "name": "BB3bet vs MP(EP)",
      "action": "3bet",
      "me": "bb",
      "opponent": "mp",
      "hands": "QQ+,AKs,ATs,A5s,A4s,AKo,ATo,K9s"
    },
    {
      "name": "BB3bet vs CO",
      "action": "3bet",
      "me": "bb",
      "opponent": "co",
      "hands": "JJ+,AQs+,A5s,A4s,AKo,A5o,K6s,K5s,K4s,KTo,Q7s,Q6s"
    },
    {
      "name": "BB3bet vs BTN",
      "action": "3bet",
      "me": "bb",
      "opponent": "btn",
      "hands": "88+,ATs+,A5s,A4s,AQo+,A8o,A5o,KJs+,K4s,K3s,K2s,K9o,QJs+,JTs+,J7s,T9o"
    },
    {
      "name": "BB3bet vs SB",
      "action": "3bet",
      "me": "bb",
      "opponent": "sb",
      "hands": "88+,ATs+,AQo+,A5o,A4o,KTs+,QJs,JTs,J2s,T9s,T3s,T2s,93s,83s,73s,72s,62s"
    },
    {
      "name": "IP3betコール",
      "action": "3betcall",
      "me": "ip",
      "opponent": "oop",
      "hands": "QQ,JJ,TT,99,88,77,66,55,A9s+,A5s,A4s,AQo+,KTs+,QTs+,JTs,T9s,76s,65s,54s"
    },
    {
      "name": "IP3betコール(nit)",
      "action": "3betcall",
      "me": "ip",
      "opponent": "oop",
      "option": "nit",
      "hands": "KK,QQ,JJ,TT,99,88,77,66,AKo,ATs+,KQs,QJs,JTs"
    },
    {
      "name": "OOP3betコール",
      "action": "3betcall",
      "me": "oop",
      "opponent": "ip",
      "hands": "QQ,JJ,TT,99,88,77,66,AQs,ATs,AKo,KJs,QJs,JTs"
    },
    {
      "name": "OOP3betコール(nit)",
      "action": "3betcall",
      "me": "oop",
      "opponent": "ip",
      "option": "nit",
      "hands": "QQ,JJ,AKo"
    },
    {
      "name": "IP4bet",
      "action": "4bet",
      "me": "ip",
      "opponent": "oop",
      "hands": "KK+,A7s,A6s,K9s"
    },
    {
      "name": "IP4bet(nit)",
      "action": "4bet",
      "me": "ip",
      "opponent": "oop",
      "option": "nit",
      "hands": "AA,A5s"
    },
    {
      "name": "OOP4bet",
      "action": "4bet",
      "me": "oop",
      "opponent": "ip",
      "option": "nit",
      "hands": "KK+,AKs,AJs,KQs"
    },
    {
      "name": "OOP4bet(nit)",
      "action": "4bet",
      "me": "oop",
      "opponent": "ip",
      "option": "nit",
      "hands": "KK+,AQs+"
    },
    {
      "name": "IP4betコール",
      "action": "4betcall",
      "me": "ip",
      "opponent": "oop",
      "hands": "KK+"
    },
    {
      "name": "IP4betコール(nit)",
      "action": "4betcall",
      "me": "ip",
      "opponent": "oop",
      "option": "nit",
      "hands": "AA"
    },
    {
      "name": "OOP4betコール",
      "action": "4betcall",
      "me": "oop",
      "opponent": "ip",
      "hands": "KK+,AKs"
    },
    {
      "name": "OOP4betコール(nit)",
      "action": "4betcall",
      "me": "oop",
      "opponent": "ip",
      "option": "nit",
      "hands": "KK+,AKs"
    },
    {
      "name": "リンパー",
      "action": "limp",
      "me": "none",
      "opponent": "none",
      "hands": "22+,A2s+,KJ+,QJ+,T9s,98s,87s,76s,65s,54s"
    }
  ]
}
    "#;

fn text_of(record: &serde_json::Value, key: &str) -> String {
    record[key].as_str().unwrap().to_string()
}

fn read_json_data() -> Patterns {
    let model: serde_json::Value = serde_json::from_str(DATA).unwrap();
    let patterns = model["patterns"]
        .as_array()
        .unwrap()
        .iter()
        .map(|record| Pattern {
            name: text_of(record, "name"),
            action: text_of(record, "action"),
            me: text_of(record, "me"),
            opponent: text_of(record, "opponent"),
            hands: text_of(record, "hands"),
        })
        .collect();
    Patterns { patterns }
}

fn no_hands() -> HandRange {
    HandRange { hands: vec![], char_vec: vec![] }
}

fn hands_of(cards: &[(u8, u8)]) -> HandRange {
    HandRange {
        hands: cards.iter().map(|(a, b)| Combo(*a, *b, 100)).collect(),
        char_vec: vec![],
    }
}

fn range(name: &str, action: Action, me: Position, opponent: Position, cards: &[(u8, u8)]) -> Range {
    Range { name: name.to_string(), action, me, opponent, hand_range: hands_of(cards) }
}

fn store() -> Vec<Range> {
    vec![
        range("utg open", Action::Open, Position::UTG, Position::NONE, &[(51, 50), (47, 46)]),
        range("btn open", Action::Open, Position::BTN, Position::NONE, &[(51, 50), (3, 2)]),
        range("ip call", Action::ThreeBetCall, Position::IP, Position::OOP, &[(51, 50)]),
        range("oop call", Action::ThreeBetCall, Position::OOP, Position::IP, &[(47, 46)]),
        range("btn open again", Action::Open, Position::BTN, Position::NONE, &[(7, 6)]),
    ]
}

fn names(found: &Vec<&Range>) -> Vec<String> {
    found.iter().map(|r| r.to_string()).collect()
}

#[test]
fn test_read_ranges() {
    let patterns = read_json_data();
    let expansions: Vec<HandRange> = patterns.patterns.iter().map(|_| no_hands()).collect();
    let ranges = read_ranges(&patterns, &expansions).unwrap();
    println!("{:#?}", ranges[0].hand_range);
    assert_eq!(ranges.len(), 46);
}

#[test]
fn read_ranges_keeps_names_situations_and_hands() {
    let patterns = read_json_data();
    let mut expansions: Vec<HandRange> = patterns.patterns.iter().map(|_| no_hands()).collect();
    expansions[1] = hands_of(&[(51, 50)]);
    let ranges = read_ranges(&patterns, &expansions).unwrap();
    assert_eq!(ranges[1].me, Position::MP);
    assert_eq!(ranges[1].opponent, Position::NONE);
    assert_eq!(ranges[1].action, Action::Open);
    assert_eq!(ranges[1].hand_range.hands.len(), 1);
    assert_eq!(ranges[1].hand_range.hands[0].0, 51);
    assert_eq!(ranges[0].hand_range.hands.len(), 0);
    assert_eq!(ranges[18].action, Action::ThreeBet);
    assert_eq!(ranges[33].me, Position::IP);
    assert_eq!(ranges[33].opponent, Position::OOP);
    assert_eq!(ranges[33].action, Action::ThreeBetCall);
    assert_eq!(ranges[45].me, Position::NONE);
    assert_eq!(ranges[45].action, Action::Limp);
    assert_eq!(ranges[5].to_string(), patterns.patterns[5].name);
}

#[test]
fn read_ranges_rejects_a_record_that_does_not_parse() {
    let mut patterns = read_json_data();
    patterns.patterns[3].me = "button".to_string();
    let expansions: Vec<HandRange> = patterns.patterns.iter().map(|_| no_hands()).collect();
    let failure = read_ranges(&patterns, &expansions).unwrap_err();
    assert_eq!(failure.reason, "invalid pattern");
}

#[test]
fn read_ranges_rejects_a_wrong_number_of_expansions() {
    let patterns = read_json_data();
    let failure = read_ranges(&patterns, &vec![no_hands()]).unwrap_err();
    assert_eq!(failure.reason, "invalid pattern");
}

#[test]
fn to_range_parses_the_situation() {
    let pattern = Pattern {
        name: "SB3bet vs BTN".to_string(),
        action: "3bet".to_string(),
        me: "sb".to_string(),
        opponent: "Btn".to_string(),
        hands: "55+".to_string(),
    };
    let made = pattern.to_range(hands_of(&[(15, 14)])).unwrap();
    assert_eq!(made.name, "SB3bet vs BTN");
    assert_eq!(made.action, Action::ThreeBet);
    assert_eq!(made.me, Position::SB);
    assert_eq!(made.opponent, Position::BTN);
    assert_eq!(made.hand_range.hands.len(), 1);

    let bad = Pattern { action: "raise".to_string(), ..pattern };
    assert_eq!(bad.to_range(no_hands()).unwrap_err().reason, "invalid pattern");
}

#[test]
fn find_gives_the_first_range_of_a_situation() {
    let ranges = store();
    let found = find(&ranges, Position::BTN, Position::NONE, Action::Open).unwrap();
    assert_eq!(found.name, "btn open");
    let found = find(&ranges, Position::OOP, Position::IP, Action::ThreeBetCall).unwrap();
    assert_eq!(found.name, "oop call");
}

#[test]
fn find_fails_with_the_three_keys() {
    let ranges = store();
    let missing = find(&ranges, Position::CO, Position::UTG, Action::Call).unwrap_err();
    assert_eq!(
        missing,
        RangeNotFound { position: Position::CO, opponent: Position::UTG, action: Action::Call }
    );
    assert_eq!(missing.to_string(), "can't find HandRange. CO vs. UTG : CALL");
    let empty: Vec<Range> = vec![];
    assert!(find(&empty, Position::BTN, Position::NONE, Action::Open).is_err());
}

#[test]
fn matching_ranges_without_samples_returns_all_that_pass_the_filter() {
    let ranges = store();
    let none: Vec<Combo> = vec![];
    let all = matching_ranges(&ranges, &none, None);
    assert_eq!(
        names(&all),
        vec!["utg open", "btn open", "ip call", "oop call", "btn open again"]
    );
    let of_button = matching_ranges(&ranges, &none, Some(Position::BTN));
    assert_eq!(names(&of_button), vec!["btn open", "ip call", "oop call", "btn open again"]);
    let of_blind = matching_ranges(&ranges, &none, Some(Position::SB));
    assert_eq!(names(&of_blind), vec!["ip call", "oop call"]);
}

#[test]
fn matching_ranges_asks_for_every_sample() {
    let ranges = store();
    let aces = vec![Combo(51, 50, 100)];
    assert_eq!(
        names(&matching_ranges(&ranges, &aces, None)),
        vec!["utg open", "btn open", "ip call"]
    );
    let aces_and_kings = vec![Combo(51, 50, 100), Combo(47, 46, 100)];
    assert_eq!(names(&matching_ranges(&ranges, &aces_and_kings, None)), vec!["utg open"]);
    assert_eq!(
        names(&matching_ranges(&ranges, &aces, Some(Position::UTG))),
        vec!["utg open", "ip call"]
    );
    let unknown = vec![Combo(20, 10, 100)];
    assert!(matching_ranges(&ranges, &unknown, None).is_empty());
}

#[test]
fn containment_looks_at_the_cards_and_not_at_the_weight() {
    let ranges = store();
    assert!(ranges[0].contains_combo(&Combo(51, 50, 30)));
    assert!(!ranges[0].contains_combo(&Combo(50, 51, 100)));
    assert!(!ranges[0].contains_combo(&Combo(3, 2, 100)));
    assert!(ranges[0].contains_all(&vec![Combo(47, 46, 1), Combo(51, 50, 2)]));
    assert!(!ranges[0].contains_all(&vec![Combo(47, 46, 1), Combo(3, 2, 2)]));
    assert!(ranges[0].contains_all(&vec![]));
    assert!(Combo(1, 2, 3).matches(&Combo(1, 2, 99)));
    assert!(!Combo(1, 2, 3).matches(&Combo(2, 1, 3)));
}

#[test]
fn roles_and_seats_of_a_range() {
    let ranges = store();
    assert!(!ranges[0].is_ip_or_oop());
    assert!(ranges[2].is_ip_or_oop());
    assert!(ranges[3].is_ip_or_oop());
    assert!(ranges[1].equals_me(Position::BTN));
    assert!(!ranges[1].equals_me(Position::UTG));
    let copy = ranges[0].hand_range.copy();
    assert_eq!(copy.hands.len(), 2);
    assert_eq!(copy.hands[1].0, 47);
}
