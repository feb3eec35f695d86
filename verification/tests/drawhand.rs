use headsup_analyzer::card::Value;
use headsup_analyzer::cards::Cards;
use headsup_analyzer::drawhand::{calculate_straight_draws, DrawHand};

#[test]
fn test_openend_straight_draws() {
    let values = Cards::from_str("4s5cad6h7c").ok().unwrap().values();

    let actual = calculate_straight_draws(values);

    let straight_draw_three = DrawHand::StraightDraw(Value::Three);
    let straight_draw_eight = DrawHand::StraightDraw(Value::Eight);

    assert_eq!(actual.len(), 2);
    assert_eq!(actual[0], straight_draw_three);
    assert_eq!(actual[1], straight_draw_eight);
}

#[test]
fn test_gutshot_straight_draws() {
    let values = Cards::from_str("2hQh9sJcKd").ok().unwrap().values();

    let actual = calculate_straight_draws(values);

    let straight_draw = DrawHand::StraightDraw(Value::Ten);

    assert_eq!(actual.len(), 1);
    assert_eq!(actual[0], straight_draw);
}

#[test]
fn test_backdoor_straight_draws() {
    let values = Cards::from_str("2h3h9sJcKd").ok().unwrap().values();

    let actual = calculate_straight_draws(values);

    let back_door_straight_draw = DrawHand::BackDoorStraightDraw(Value::Ten, Value::Queen);

    assert_eq!(actual.len(), 1);
    assert_eq!(actual[0], back_door_straight_draw);
}
