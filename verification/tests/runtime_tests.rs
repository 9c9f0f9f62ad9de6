use snek::numfmt::i64_to_string;
use snek::runtime::{equal_value, error_message, parse_input, print_value};
use snek::values::{FALSE_VAL, MAX_NUM, MIN_NUM, NIL_VAL, TRUE_VAL};

#[test]
fn parse_input_singletons() {
    assert_eq!(parse_input("nil"), Some(NIL_VAL));
    assert_eq!(parse_input("false"), Some(FALSE_VAL));
    assert_eq!(parse_input("true"), Some(TRUE_VAL));
}

#[test]
fn parse_input_numbers() {
    assert_eq!(parse_input("42"), Some(84));
    assert_eq!(parse_input("0"), Some(0));
    assert_eq!(parse_input("-5"), Some(-10));
    assert_eq!(parse_input("+7"), Some(14));
}

#[test]
fn parse_input_range_edges() {
    assert_eq!(parse_input("4611686018427387903"), Some(MAX_NUM * 2));
    assert_eq!(parse_input("4611686018427387904"), None);
    assert_eq!(parse_input("-4611686018427387904"), Some(MIN_NUM * 2));
    assert_eq!(parse_input("-4611686018427387905"), None);
    assert_eq!(parse_input("99999999999999999999999"), None);
}

#[test]
fn parse_input_rejects_junk() {
    assert_eq!(parse_input(""), None);
    assert_eq!(parse_input("-"), None);
    assert_eq!(parse_input("+"), None);
    assert_eq!(parse_input("12x"), None);
    assert_eq!(parse_input("x12"), None);
    assert_eq!(parse_input("1 2"), None);
    assert_eq!(parse_input("NIL"), None);
}

#[test]
fn print_numbers() {
    let heap: Vec<i64> = Vec::new();
    assert_eq!(print_value(84, &heap, 0), "42\n");
    assert_eq!(print_value(0, &heap, 0), "0\n");
    assert_eq!(print_value(-10, &heap, 0), "-5\n");
}

#[test]
fn print_singletons() {
    let heap: Vec<i64> = Vec::new();
    assert_eq!(print_value(TRUE_VAL, &heap, 0), "true\n");
    assert_eq!(print_value(FALSE_VAL, &heap, 0), "false\n");
    assert_eq!(print_value(NIL_VAL, &heap, 0), "nil\n");
}

#[test]
fn print_tuple() {
    // A tuple of two numbers at heap base 8: header 2, elements 4 and 6.
    let heap: Vec<i64> = vec![2, 4, 6];
    assert_eq!(print_value(9, &heap, 8), "(tuple 2 3)\n");
}

#[test]
fn print_cyclic_tuple() {
    // A one-element tuple holding itself prints the revisit as dots.
    let heap: Vec<i64> = vec![1, 9];
    assert_eq!(print_value(9, &heap, 8), "(tuple ...)\n");
}

#[test]
fn equal_booleans_reflexive() {
    let heap: Vec<i64> = Vec::new();
    assert_eq!(equal_value(TRUE_VAL, TRUE_VAL, &heap, 0), TRUE_VAL);
    assert_eq!(equal_value(FALSE_VAL, FALSE_VAL, &heap, 0), TRUE_VAL);
    assert_eq!(equal_value(TRUE_VAL, FALSE_VAL, &heap, 0), FALSE_VAL);
}

#[test]
fn equal_numbers_by_value() {
    let heap: Vec<i64> = Vec::new();
    assert_eq!(equal_value(84, 84, &heap, 0), TRUE_VAL);
    assert_eq!(equal_value(84, 86, &heap, 0), FALSE_VAL);
}

#[test]
fn equal_tuples_structurally() {
    // Two separate tuples (1 2) at indices 0 and 3 of a heap based at 8.
    let heap: Vec<i64> = vec![2, 2, 4, 2, 2, 4];
    assert_eq!(equal_value(9, 33, &heap, 8), TRUE_VAL);
    // A tuple never equals a number or nil.
    assert_eq!(equal_value(9, 4, &heap, 8), FALSE_VAL);
    assert_eq!(equal_value(9, 1, &heap, 8), FALSE_VAL);
}

#[test]
fn equal_tuples_different_lengths() {
    let heap: Vec<i64> = vec![2, 2, 4, 1, 2];
    assert_eq!(equal_value(9, 33, &heap, 8), FALSE_VAL);
}

#[test]
fn error_messages() {
    assert_eq!(error_message(1, 0), "invalid argument");
    assert_eq!(error_message(2, 0), "overflow");
    assert_eq!(error_message(3, 10), "index out of bound, 5");
    assert_eq!(error_message(4, 0), "try to index of nil");
    assert_eq!(error_message(99, 0), "an error ocurred 99");
}

#[test]
fn decimal_rendering() {
    assert_eq!(i64_to_string(0), "0");
    assert_eq!(i64_to_string(3628800), "3628800");
    assert_eq!(i64_to_string(-1), "-1");
    assert_eq!(i64_to_string(i64::MIN), "-9223372036854775808");
    assert_eq!(i64_to_string(i64::MAX), "9223372036854775807");
}
