use headsup_analyzer::position::Position;

const ALL: [Position; 9] = [
    Position::SB,
    Position::BB,
    Position::UTG,
    Position::MP,
    Position::CO,
    Position::BTN,
    Position::OOP,
    Position::IP,
    Position::NONE,
];

#[test]
fn position_test() {
    assert_eq!(Position::from_str("btn"), Ok(Position::BTN));
}

#[test]
fn positions_parse_in_any_case() {
    assert_eq!(Position::from_str("utg"), Ok(Position::UTG));
    assert_eq!(Position::from_str("Mp"), Ok(Position::MP));
    assert_eq!(Position::from_str("CO"), Ok(Position::CO));
    assert_eq!(Position::from_str("sb"), Ok(Position::SB));
    assert_eq!(Position::from_str("bB"), Ok(Position::BB));
    assert_eq!(Position::from_str("oop"), Ok(Position::OOP));
    assert_eq!(Position::from_str("ip"), Ok(Position::IP));
    assert_eq!(Position::from_str("none"), Ok(Position::NONE));
    assert_eq!("btn".parse::<Position>(), Ok(Position::BTN));
}

#[test]
fn unknown_positions_are_rejected_with_their_text() {
    assert_eq!(Position::from_str("button"), Err("Invalid position: button".to_string()));
    assert_eq!(Position::from_str(""), Err("Invalid position: ".to_string()));
    assert_eq!(Position::from("hj"), None);
    assert_eq!(Position::from("co"), Some(Position::CO));
}

#[test]
fn parsing_and_writing_gives_the_upper_case_name() {
    assert_eq!(Position::from_str("btn").unwrap().to_string(), "BTN");
    assert_eq!(Position::from_str("None").unwrap().to_string(), "NONE");
    for position in ALL {
        assert_eq!(Position::from_str(&position.to_string()), Ok(position));
        assert_eq!(
            Position::from_str(&position.to_string().to_lowercase()),
            Ok(position)
        );
    }
}

#[test]
fn only_none_is_none() {
    for position in ALL {
        assert_eq!(position.is_none(), position == Position::NONE);
    }
}

#[test]
fn invert_swaps_the_relative_roles_only() {
    assert_eq!(Position::IP.invert(), Position::OOP);
    assert_eq!(Position::OOP.invert(), Position::IP);
    for position in ALL {
        if position != Position::IP && position != Position::OOP {
            assert_eq!(position.invert(), position);
        }
        assert_eq!(position.invert().invert(), position);
    }
}

#[test]
fn the_later_seat_is_in_position() {
    assert_eq!(Position::BTN.convert_to_ip_or_oop(Position::BB), Position::IP);
    assert_eq!(Position::BB.convert_to_ip_or_oop(Position::BTN), Position::OOP);
    assert_eq!(Position::SB.convert_to_ip_or_oop(Position::BB), Position::OOP);
    assert_eq!(Position::BB.convert_to_ip_or_oop(Position::SB), Position::IP);
    assert_eq!(Position::UTG.convert_to_ip_or_oop(Position::CO), Position::OOP);
    assert_eq!(Position::CO.convert_to_ip_or_oop(Position::CO), Position::OOP);
    assert_eq!(Position::BTN.seat_index(), 5);
    assert_eq!(Position::SB.seat_index(), 0);
}
