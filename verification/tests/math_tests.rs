use rust_tour::math::{
    absolute_value, add, add_and_subtract, factorial, find_first_even, multiply, plus_one, square,
    sum_refs_simple,
};

#[test]
fn add_and_multiply() {
    assert_eq!(add(2, 3), 5);
    assert_eq!(add(10, 20), 30);
    assert_eq!(add(i32::MAX, i32::MIN), -1);
    assert_eq!(multiply(2, 3), 6);
    assert_eq!(multiply(-4, 5), -20);
    assert_eq!(multiply(i32::MIN, 1), i32::MIN);
}

#[test]
fn squares() {
    assert_eq!(square(5), 25);
    assert_eq!(square(-5), 25);
    assert_eq!(square(0), 0);
    assert_eq!(square(46_340), 2_147_395_600);
}

#[test]
fn sum_and_difference() {
    assert_eq!(add_and_subtract(10, 4), (14, 6));
    assert_eq!(add_and_subtract(-1, 1), (0, -2));
}

#[test]
fn absolute_values() {
    assert_eq!(absolute_value(5), 5);
    assert_eq!(absolute_value(-5), 5);
    assert_eq!(absolute_value(0), 0);
    assert_eq!(absolute_value(i32::MAX), i32::MAX);
    assert_eq!(absolute_value(i32::MIN + 1), i32::MAX);
}

#[test]
fn factorials() {
    assert_eq!(factorial(0), 1);
    assert_eq!(factorial(1), 1);
    assert_eq!(factorial(5), 120);
    assert_eq!(factorial(10), 3_628_800);
    assert_eq!(factorial(20), 2_432_902_008_176_640_000);
}

#[test]
fn sums() {
    assert_eq!(sum_refs_simple(&[1, 2, 3]), 6);
    assert_eq!(sum_refs_simple(&[]), 0);
    assert_eq!(sum_refs_simple(&[i32::MAX, -1, 1]), i32::MAX);
    assert_eq!(sum_refs_simple(&[-5]), -5);
}

#[test]
fn plus_one_of_some_and_none() {
    assert_eq!(plus_one(Some(5)), Some(6));
    assert_eq!(plus_one(None), None);
    assert_eq!(plus_one(Some(-1)), Some(0));
    assert_eq!(plus_one(Some(i32::MAX - 1)), Some(i32::MAX));
}

#[test]
fn first_even_number() {
    assert_eq!(find_first_even(&[1, 2, 3, 4]), Some(2));
    assert_eq!(find_first_even(&[1, 3, 5]), None);
    assert_eq!(find_first_even(&[]), None);
    assert_eq!(find_first_even(&[-3, -2, 8]), Some(-2));
    assert_eq!(find_first_even(&[0]), Some(0));
    assert_eq!(find_first_even(&[i32::MIN]), Some(i32::MIN));
    assert_eq!(find_first_even(&[i32::MAX, -1, 7, 6]), Some(6));
}
