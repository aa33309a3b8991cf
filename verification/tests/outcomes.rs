use errors::entities::{with_car, without_car};
use errors::parse::{parse_u32, question_result, ParseError};
use errors::search::{find_char, question_option};

#[test]
fn search_finds_first_occurrence() {
    assert_eq!(question_option("some strange", 'a'), Some(8));
}

#[test]
fn search_reports_absence() {
    assert_eq!(question_option("some string", 'z'), None);
    assert_eq!(question_option("some string", 'a'), None);
}

#[test]
fn search_empty_text_is_absent() {
    assert_eq!(question_option("", 'a'), None);
}

#[test]
fn search_picks_earliest_of_several() {
    assert_eq!(find_char("banana", 'a'), Some(1));
    assert_eq!(find_char("banana", 'n'), Some(2));
}

#[test]
fn search_at_position_zero() {
    assert_eq!(find_char("abc", 'a'), Some(0));
}

#[test]
fn parse_rejects_invalid_digit() {
    assert_eq!(parse_u32("j"), Err(ParseError::InvalidDigit));
    assert_eq!(parse_u32("12a"), Err(ParseError::InvalidDigit));
}

#[test]
fn parse_accepts_number() {
    assert_eq!(parse_u32("42"), Ok(42));
    assert_eq!(parse_u32("0"), Ok(0));
    assert_eq!(parse_u32("007"), Ok(7));
}

#[test]
fn parse_rejects_empty_text() {
    assert_eq!(parse_u32(""), Err(ParseError::Empty));
}

#[test]
fn parse_handles_largest_value() {
    assert_eq!(parse_u32("4294967295"), Ok(u32::MAX));
    assert_eq!(parse_u32("4294967296"), Err(ParseError::Overflow));
    assert_eq!(parse_u32("999999999999999999999"), Err(ParseError::Overflow));
}

#[test]
fn parse_failure_carries_nonempty_cause() {
    assert!(!ParseError::Empty.message().is_empty());
    assert!(!ParseError::InvalidDigit.message().is_empty());
    assert!(!ParseError::Overflow.message().is_empty());
}

#[test]
fn question_result_forwards_inner_failure() {
    assert_eq!(question_result(), Err(ParseError::InvalidDigit));
}

#[test]
fn person_without_vehicle_stays_without_one() {
    let p = without_car();
    assert!(p.vehicle.is_none());
    assert_eq!(p.name, "Brad");
    assert_eq!(p.age, 99);
}

#[test]
fn person_with_vehicle_holds_fixed_values() {
    let p = with_car();
    assert_eq!(p.name, "Brad");
    assert_eq!(p.age, 99);
    match p.vehicle {
        Some(v) => {
            assert_eq!(v.brand, "bmw");
            assert_eq!(v.year, 2024);
        }
        None => panic!("vehicle must be present"),
    }
}
