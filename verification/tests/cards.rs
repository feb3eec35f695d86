use headsup_analyzer::board::Board;
use headsup_analyzer::card::{Card, Suit, Value};
use headsup_analyzer::cards::{is_connect_values, Cards};
use headsup_analyzer::hand_wrapper::HandWrapper;
use headsup_analyzer::straight::get_straight_patterns;

fn card(value: Value, suit: Suit) -> Card {
    Card { value, suit }
}

#[test]
fn cards_parse_two_characters_each() {
    let cards = Cards::from_str("As2hQdTc").unwrap();
    assert_eq!(
        cards.cards,
        vec![
            card(Value::Ace, Suit::Spade),
            card(Value::Two, Suit::Heart),
            card(Value::Queen, Suit::Diamond),
            card(Value::Ten, Suit::Club),
        ]
    );
    assert_eq!(cards.text, "As2hQdTc");
}

#[test]
fn rank_and_suit_characters_parse_in_any_case() {
    let cards = Cards::from_str("aSkHqDjCtS9h").unwrap();
    assert_eq!(
        cards.values(),
        vec![Value::Ace, Value::King, Value::Queen, Value::Jack, Value::Ten, Value::Nine]
    );
    assert_eq!(cards.cards[0].suit, Suit::Spade);
    assert_eq!(cards.cards[1].suit, Suit::Heart);
    assert_eq!(cards.cards[2].suit, Suit::Diamond);
    assert_eq!(cards.cards[3].suit, Suit::Club);
}

#[test]
fn every_rank_character_has_its_rank() {
    let text = "2s3s4s5s6s7s8s9sTsJsQsKsAs";
    let ranks = Cards::from_str(text).unwrap().values();
    for (i, rank) in ranks.iter().enumerate() {
        assert_eq!(rank.index() as usize, i);
        assert_eq!(Value::from_index(i as u8), *rank);
    }
    assert_eq!(Value::from_char('T'), Some(Value::Ten));
    assert_eq!(Value::from_char('1'), None);
    assert_eq!(Value::from_char('a'), Some(Value::Ace));
    assert_eq!(Suit::from_char('d'), Some(Suit::Diamond));
    assert_eq!(Suit::from_char('C'), Some(Suit::Club));
    assert_eq!(Suit::from_char('x'), None);
    assert_eq!(Suit::Heart.index(), 2);
    assert_eq!(Suit::from_index(1), Suit::Club);
}

#[test]
fn the_empty_text_holds_no_cards() {
    let cards = Cards::from_str("").unwrap();
    assert!(cards.cards.is_empty());
}

#[test]
fn text_of_odd_length_is_rejected() {
    assert_eq!(Cards::from_str("As2").unwrap_err(), "Can't convert chars to Card");
    assert_eq!(Cards::from_str("A").unwrap_err(), "Can't convert chars to Card");
}

#[test]
fn text_with_an_unknown_symbol_is_rejected() {
    assert_eq!(Cards::from_str("Ax").unwrap_err(), "Can't convert chars to Card");
    assert_eq!(Cards::from_str("1s").unwrap_err(), "Can't convert chars to Card");
    assert_eq!(Cards::from_str("As2hZZ").unwrap_err(), "Can't convert chars to Card");
    assert_eq!(Cards::from_str("sA").unwrap_err(), "Can't convert chars to Card");
    assert!("As2h".parse::<Cards>().is_ok());
    assert!("As2".parse::<Cards>().is_err());
}

#[test]
fn adding_joins_cards_and_text() {
    let hand = Cards::from_str("AsKs").unwrap();
    let board = Cards::from_str("2h3h4h").unwrap();
    let all = hand.copy() + board.copy();
    assert_eq!(all.text, "AsKs2h3h4h");
    assert_eq!(all.cards.len(), 5);
    assert_eq!(all.cards[0], card(Value::Ace, Suit::Spade));
    assert_eq!(all.cards[4], card(Value::Four, Suit::Heart));
    let again = hand.add(board);
    assert_eq!(again.cards, all.cards);
    assert_eq!(again.text, all.text);
}

#[test]
fn tallies_count_ranks_and_suits() {
    let cards = Cards::from_str("AsAhKs2s2d2c").unwrap();
    let ranks = cards.rank_tally();
    assert_eq!(ranks.len(), 13);
    assert_eq!(ranks[12], 2);
    assert_eq!(ranks[11], 1);
    assert_eq!(ranks[0], 3);
    assert_eq!(ranks[5], 0);
    assert_eq!(cards.suits(), vec![3, 1, 1, 1]);
    assert!(!cards.suited());
    assert!(Cards::from_str("AsKs").unwrap().suited());
    assert!(!Cards::from_str("").unwrap().suited());
}

#[test]
fn ranks_are_grouped_by_their_count_highest_first() {
    let cards = Cards::from_str("2s2hKdKcAs").unwrap();
    let groups = cards.count_rank();
    assert_eq!(groups.len(), 4);
    assert_eq!(groups[0], vec![Value::Ace]);
    assert_eq!(groups[1], vec![Value::King, Value::Two]);
    assert!(groups[2].is_empty());
    assert!(groups[3].is_empty());
}

#[test]
fn neighbouring_ranks_are_connected() {
    assert!(is_connect_values(Value::Two, Value::Three));
    assert!(is_connect_values(Value::King, Value::Queen));
    assert!(is_connect_values(Value::Ace, Value::Five));
    assert!(is_connect_values(Value::Five, Value::Ace));
    assert!(!is_connect_values(Value::Ace, Value::Two));
    assert!(!is_connect_values(Value::Two, Value::Two));
    assert!(!is_connect_values(Value::Two, Value::Four));
}

#[test]
fn the_straight_table_has_nine_runs_and_the_wheel() {
    let table = get_straight_patterns();
    assert_eq!(table.len(), 10);
    assert_eq!(
        table[0],
        vec![Value::Two, Value::Three, Value::Four, Value::Five, Value::Six]
    );
    assert_eq!(
        table[8],
        vec![Value::Ten, Value::Jack, Value::Queen, Value::King, Value::Ace]
    );
    assert_eq!(
        table[9],
        vec![Value::Ace, Value::Two, Value::Three, Value::Four, Value::Five]
    );
}

#[test]
fn a_board_is_parsed_like_cards() {
    let board = Board::from_str("2h3h4h").unwrap();
    assert_eq!(board.cards.cards.len(), 3);
    assert_eq!(board.cards.text, "2h3h4h");
    assert_eq!(Board::from_str("2h3").unwrap_err(), "Can't convert chars to Card");
    assert!("2h3h4hXX".parse::<Board>().is_err());
}

#[test]
fn own_cards_are_held_in_both_forms() {
    let own = HandWrapper::from_str("AsKd").unwrap();
    assert_eq!(own.cards.cards, vec![card(Value::Ace, Suit::Spade), card(Value::King, Suit::Diamond)]);
    assert_eq!(own.cards.text, "AsKd");
    assert_eq!(own.hand.len(), 2);
    assert!(own.hand.contains(&card(Value::Ace, Suit::Spade)));
    assert!(own.hand.contains(&card(Value::King, Suit::Diamond)));
    let copy = own.copy();
    assert_eq!(copy.hand, own.hand);
    assert_eq!(copy.cards.cards, own.cards.cards);
}

#[test]
fn own_cards_must_be_cards_and_distinct() {
    assert_eq!(HandWrapper::from_str("AsA").unwrap_err(), "Can't convert chars to Card");
    assert_eq!(HandWrapper::from_str("AsKx").unwrap_err(), "Can't convert chars to Card");
    assert_eq!(HandWrapper::from_str("AsAs").unwrap_err(), "Card already added to hand");
    assert_eq!(HandWrapper::from_str("AsKdaS").unwrap_err(), "Card already added to hand");
    assert!("AsKd".parse::<HandWrapper>().is_ok());
}
