use rust_tour::accounts::build_user;
use rust_tour::coins::{value_in_cents, Coin, UsState};
use rust_tour::conversion::PositiveNumber;
use rust_tour::restaurant::{Appetizer, Breakfast};

#[test]
fn summer_breakfast_has_the_toast_asked_for() {
    let mut meal = Breakfast::summer("Rye");
    assert_eq!(meal.toast, "Rye");
    assert_eq!(meal.seasonal_fruit(), "peaches");
    meal.toast = String::from("Wheat");
    assert_eq!(meal.toast, "Wheat");
    assert_eq!(Breakfast::summer("").toast, "");
}

#[test]
fn appetizers_differ() {
    assert_ne!(Appetizer::Soup, Appetizer::Salad);
    assert_eq!(Appetizer::Soup, Appetizer::Soup);
}

#[test]
fn new_user_is_active_and_signed_in_once() {
    let user = build_user(String::from("alice"), String::from("alice@example.com"));
    assert_eq!(user.username, "alice");
    assert_eq!(user.email, "alice@example.com");
    assert_eq!(user.sign_in_count, 1);
    assert!(user.active);
}

#[test]
fn coins_have_their_worth() {
    assert_eq!(value_in_cents(&Coin::Penny), 1);
    assert_eq!(value_in_cents(&Coin::Nickel), 5);
    assert_eq!(value_in_cents(&Coin::Dime), 10);
    assert_eq!(value_in_cents(&Coin::Quarter(UsState::Alabama)), 25);
    assert_eq!(value_in_cents(&Coin::Quarter(UsState::Alaska)), 25);
    assert_eq!(value_in_cents(&Coin::Quarter(UsState::California)), 25);
}

#[test]
fn positive_numbers_convert() {
    assert_eq!(PositiveNumber::try_from(5).unwrap().0, 5);
    assert_eq!(PositiveNumber::try_from(i32::MAX).unwrap().0, i32::MAX);
    assert_eq!(PositiveNumber::try_from(0).unwrap_err(), "必须是正数");
    assert_eq!(PositiveNumber::try_from(-3).unwrap_err(), "必须是正数");
    let converted: Result<PositiveNumber, String> = 9.try_into();
    assert_eq!(converted.unwrap().0, 9);
}
