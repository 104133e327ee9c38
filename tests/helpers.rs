use bounded_queue::arith::factorial;
use bounded_queue::strings::{calculate_length, calculate_length_by_ref, modify_string};

#[test]
fn factorial_values() {
    assert_eq!(factorial(0), 1);
    assert_eq!(factorial(1), 1);
    assert_eq!(factorial(5), 120);
    assert_eq!(factorial(10), 3628800);
    assert_eq!(factorial(12), 479001600);
}

#[test]
fn lengths_count_bytes() {
    assert_eq!(calculate_length(String::new()), 0);
    assert_eq!(calculate_length(String::from("h\u{e9}llo")), 6);
    assert_eq!(calculate_length_by_ref(&String::from("\u{1f980}")), 4);
}

#[test]
fn modify_string_appends_world() {
    let mut s = String::new();
    modify_string(&mut s);
    assert_eq!(s, " world");
    modify_string(&mut s);
    assert_eq!(s, " world world");
}
