use chapter_exercises::coins::{
    describe_quarter_state, plus_one, spaces_to_move, value_in_cents, Coin, UsState,
};

#[test]
fn coins_in_cents() {
    assert_eq!(value_in_cents(Coin::Penny), 1);
    assert_eq!(value_in_cents(Coin::Nickel), 5);
    assert_eq!(value_in_cents(Coin::Dime), 10);
    assert_eq!(value_in_cents(Coin::Quarter(UsState::California)), 25);
}

#[test]
fn states_by_year() {
    assert!(UsState::Alabama.existed_in(1819));
    assert!(!UsState::Alabama.existed_in(1818));
    assert!(UsState::California.existed_in(1850));
    assert!(!UsState::California.existed_in(1849));
    assert!(UsState::Alaska.existed_in(1959));
    assert!(!UsState::Alaska.existed_in(1958));
    assert!(UsState::Alaska.existed_in(u16::MAX));
    assert!(!UsState::Alabama.existed_in(0));
}

#[test]
fn state_names() {
    assert_eq!(UsState::Alabama.name(), "Alabama");
    assert_eq!(UsState::Alaska.name(), "Alaska");
    assert_eq!(UsState::California.name(), "California");
}

#[test]
fn quarters_are_described() {
    assert_eq!(
        describe_quarter_state(&Coin::Quarter(UsState::California)),
        Some("California is pretty old, for America!".to_string())
    );
    assert_eq!(
        describe_quarter_state(&Coin::Quarter(UsState::Alabama)),
        Some("Alabama is pretty old, for America!".to_string())
    );
    assert_eq!(
        describe_quarter_state(&Coin::Quarter(UsState::Alaska)),
        Some("Alaska is relatively new.".to_string())
    );
}

#[test]
fn other_coins_are_not_described() {
    assert_eq!(describe_quarter_state(&Coin::Nickel), None);
    assert_eq!(describe_quarter_state(&Coin::Penny), None);
    assert_eq!(describe_quarter_state(&Coin::Dime), None);
}

#[test]
fn one_more_where_there_is_a_number() {
    assert_eq!(plus_one(Some(5)), Some(6));
    assert_eq!(plus_one(Some(-1)), Some(0));
    assert_eq!(plus_one(Some(i32::MAX - 1)), Some(i32::MAX));
    assert_eq!(plus_one(None), None);
}

#[test]
fn rolls_of_the_dice() {
    assert_eq!(spaces_to_move(3), 0);
    assert_eq!(spaces_to_move(7), 0);
    assert_eq!(spaces_to_move(1), 1);
    assert_eq!(spaces_to_move(6), 6);
    assert_eq!(spaces_to_move(0), 0);
    assert_eq!(spaces_to_move(255), 255);
}
