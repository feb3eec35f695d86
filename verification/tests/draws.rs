use headsup_analyzer::card::{Suit, Value};
use headsup_analyzer::cards::Cards;
use headsup_analyzer::drawhand::{calculate_straight_draws, DrawHand};

fn draws(text: &str) -> Vec<DrawHand> {
    Cards::from_str(text).unwrap().analyse_drawhand()
}

#[test]
fn four_of_a_suit_and_a_stray_card_give_a_flush_draw() {
    let found = draws("2h7hJhKh9s");
    assert!(found.contains(&DrawHand::FlashDraw(Suit::Heart)));
    assert!(!found.iter().any(|d| matches!(d, DrawHand::BackdoorFlashDraw(_))));
    assert_eq!(found[0], DrawHand::FlashDraw(Suit::Heart));
}

#[test]
fn three_of_a_suit_give_a_backdoor_flush_draw() {
    let found = draws("2d7dJdKh9s");
    assert_eq!(found[0], DrawHand::BackdoorFlashDraw(Suit::Diamond));
    assert!(!found.iter().any(|d| matches!(d, DrawHand::FlashDraw(_))));
}

#[test]
fn five_of_a_suit_or_two_give_no_flush_draw() {
    assert!(!draws("2h7hJhKh9h")
        .iter()
        .any(|d| matches!(d, DrawHand::FlashDraw(_) | DrawHand::BackdoorFlashDraw(_))));
    assert!(!draws("2h7hJsKs9d")
        .iter()
        .any(|d| matches!(d, DrawHand::FlashDraw(_) | DrawHand::BackdoorFlashDraw(_))));
}

#[test]
fn five_cards_hold_their_flush_draw_then_their_straight_draws() {
    assert_eq!(
        draws("4s5sad6s7c"),
        vec![
            DrawHand::BackdoorFlashDraw(Suit::Spade),
            DrawHand::StraightDraw(Value::Three),
            DrawHand::StraightDraw(Value::Eight),
        ]
    );
    assert_eq!(
        draws("2h3h9sJcKd"),
        vec![DrawHand::BackDoorStraightDraw(Value::Ten, Value::Queen)]
    );
    assert_eq!(
        Cards::from_str("2h3h9sJcKd").unwrap().sub_analyse_drawhand(),
        vec![DrawHand::BackDoorStraightDraw(Value::Ten, Value::Queen)]
    );
}

#[test]
fn seven_cards_hold_no_draw() {
    assert!(draws("2h7hJhKh9s3c4d").is_empty());
}

#[test]
fn fewer_than_five_cards_hold_no_draw() {
    assert!(draws("2h7hJhKh").is_empty());
    assert!(draws("").is_empty());
}

#[test]
fn six_cards_hold_the_draws_of_each_choice_of_five() {
    let found = draws("2h7hJhKh9s9d");
    let flush = found.iter().filter(|d| **d == DrawHand::FlashDraw(Suit::Heart)).count();
    let backdoor = found
        .iter()
        .filter(|d| **d == DrawHand::BackdoorFlashDraw(Suit::Heart))
        .count();
    assert_eq!(flush, 2);
    assert_eq!(backdoor, 4);
}

#[test]
fn a_made_straight_holds_no_straight_draw_of_its_own_window() {
    let values = Cards::from_str("5s6h7d8c9s").unwrap().values();
    assert_eq!(
        calculate_straight_draws(values),
        vec![DrawHand::StraightDraw(Value::Four), DrawHand::StraightDraw(Value::Ten)]
    );
}

#[test]
fn the_wheel_window_gives_draws_in_its_own_order() {
    let values = Cards::from_str("Ah2d3cKsKd").unwrap().values();
    assert_eq!(
        calculate_straight_draws(values),
        vec![DrawHand::BackDoorStraightDraw(Value::Four, Value::Five)]
    );
    let values = Cards::from_str("Ah2d3c4sKd").unwrap().values();
    assert_eq!(calculate_straight_draws(values), vec![DrawHand::StraightDraw(Value::Five)]);
}

#[test]
fn no_ranks_give_no_straight_draw() {
    assert!(calculate_straight_draws(vec![]).is_empty());
    assert!(calculate_straight_draws(vec![Value::Two, Value::Nine]).is_empty());
}
