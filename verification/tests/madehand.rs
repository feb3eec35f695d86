use headsup_analyzer::card::Value;
use headsup_analyzer::cards::Cards;
use headsup_analyzer::madehand::MadeHand;

fn classify(text: &str) -> MadeHand {
    Cards::from_str(text).unwrap().analyze_madehand().unwrap()
}

#[test]
fn wheel_is_a_five_high_straight() {
    assert_eq!(classify("As2h3d4c5s"), MadeHand::Straight(Value::Five));
    assert_eq!(classify("5s4c3d2hAs"), MadeHand::Straight(Value::Five));
}

#[test]
fn suited_wheel_is_a_five_high_straight_flush() {
    assert_eq!(classify("Ah2h3h4h5h"), MadeHand::StraightFlush(Value::Five));
}

#[test]
fn broadway_of_one_suit_is_royal() {
    assert_eq!(classify("TsJsQsKsAs"), MadeHand::RoyalStraightFlush);
    assert_eq!(classify("AsKsQsJsTs"), MadeHand::RoyalStraightFlush);
}

#[test]
fn broadway_of_mixed_suits_is_an_ace_high_straight() {
    assert_eq!(classify("TsJhQsKsAs"), MadeHand::Straight(Value::Ace));
}

#[test]
fn every_category_is_recognised() {
    assert_eq!(
        classify("2s7h9dJcKs"),
        MadeHand::HighCard(Value::King, Value::Jack, Value::Nine, Value::Seven, Value::Two)
    );
    assert_eq!(
        classify("2s2h9dJcKs"),
        MadeHand::OnePair(Value::Two, Value::King, Value::Jack, Value::Nine)
    );
    assert_eq!(
        classify("2s2h9d9cKs"),
        MadeHand::TwoPair(Value::Nine, Value::Two, Value::King)
    );
    assert_eq!(
        classify("2s2h2d9cKs"),
        MadeHand::ThreeCard(Value::Two, Value::King, Value::Nine)
    );
    assert_eq!(classify("6s7h8d9cTs"), MadeHand::Straight(Value::Ten));
    assert_eq!(classify("2s7s9sJsKs"), MadeHand::Flush(Value::King));
    assert_eq!(classify("2s2h2d9c9s"), MadeHand::FullHouse(Value::Two, Value::Nine));
    assert_eq!(classify("2s2h2d2c9s"), MadeHand::FourCard(Value::Two, Value::Nine));
    assert_eq!(classify("6s7s8s9sTs"), MadeHand::StraightFlush(Value::Ten));
}

#[test]
fn fewer_than_five_cards_are_rejected() {
    let cards = Cards::from_str("As2h3d4c").unwrap();
    assert_eq!(cards.analyze_madehand(), Err("Invalid cards length"));
    let none = Cards::from_str("").unwrap();
    assert_eq!(none.analyze_madehand(), Err("Invalid cards length"));
}

#[test]
fn seven_cards_give_the_best_five() {
    assert_eq!(classify("AsKs2h2dQsJsTs"), MadeHand::RoyalStraightFlush);
    assert_eq!(classify("2s2h2d9c9s9hKs"), MadeHand::FullHouse(Value::Nine, Value::Two));
    assert_eq!(
        classify("2s3h7d9cJsQhKs"),
        MadeHand::HighCard(Value::King, Value::Queen, Value::Jack, Value::Nine, Value::Seven)
    );
}

#[test]
fn six_cards_give_the_best_five() {
    assert_eq!(classify("As2h3d4c5s6h"), MadeHand::Straight(Value::Six));
    assert_eq!(classify("As2h3d4c5s9h"), MadeHand::Straight(Value::Five));
}

#[test]
fn order_of_the_cards_does_not_matter() {
    let a = classify("2s9dKs2hJc");
    let b = classify("KsJc9d2h2s");
    assert_eq!(a, b);
    assert_eq!(a, MadeHand::OnePair(Value::Two, Value::King, Value::Jack, Value::Nine));
}

#[test]
fn combination_lists_choices_in_order_of_places() {
    let cards = Cards::from_str("2s3s4s5s6s7s").unwrap();
    let choices = cards.combination();
    let texts: Vec<Vec<Value>> = choices.iter().map(|c| c.values()).collect();
    assert_eq!(choices.len(), 6);
    assert_eq!(
        texts[0],
        vec![Value::Two, Value::Three, Value::Four, Value::Five, Value::Six]
    );
    assert_eq!(
        texts[1],
        vec![Value::Two, Value::Three, Value::Four, Value::Five, Value::Seven]
    );
    assert_eq!(
        texts[5],
        vec![Value::Three, Value::Four, Value::Five, Value::Six, Value::Seven]
    );
    assert_eq!(Cards::from_str("2s3s4s5s6s7s8s").unwrap().combination().len(), 21);
}

#[test]
fn ranks_come_sorted() {
    let cards = Cards::from_str("Ks2h9dAc2s").unwrap();
    assert_eq!(
        cards.ranks(),
        vec![Value::Two, Value::Two, Value::Nine, Value::King, Value::Ace]
    );
}

#[test]
fn score_orders_hands_as_poker_does() {
    let pair = MadeHand::OnePair(Value::Ace, Value::King, Value::Queen, Value::Jack);
    let two_pair = MadeHand::TwoPair(Value::Three, Value::Two, Value::Four);
    assert!(pair.score() < two_pair.score());
    assert!(pair.is_below(&two_pair));
    assert!(pair < two_pair);
    let low = MadeHand::HighCard(Value::King, Value::Jack, Value::Nine, Value::Seven, Value::Two);
    let high = MadeHand::HighCard(Value::King, Value::Jack, Value::Nine, Value::Seven, Value::Three);
    assert!(low.is_below(&high));
    assert!(!high.is_below(&low));
    assert!(!low.is_below(&low));
    assert_eq!(MadeHand::RoyalStraightFlush.score(), 9 * 13 * 13 * 13 * 13 * 13);
    assert_eq!(MadeHand::Straight(Value::Five).score(), (4 * 13 + 3) * 13 * 13 * 13 * 13);
}
