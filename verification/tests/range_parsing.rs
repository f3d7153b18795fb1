use catr::RangeError;
use catr::parse_range;

#[test]
fn parses_simple_range() {
    assert_eq!(parse_range("2:3"), Ok((2, 3)));
}

#[test]
fn parses_multi_digit_bounds() {
    assert_eq!(parse_range("10:250"), Ok((10, 250)));
}

#[test]
fn parses_inverted_range() {
    assert_eq!(parse_range("9:1"), Ok((9, 1)));
}

#[test]
fn extra_segment_is_ignored() {
    assert_eq!(parse_range("1:2:3"), Ok((1, 2)));
}

#[test]
fn missing_separator_is_reported() {
    assert_eq!(parse_range("12"), Err(RangeError::MissingSeparator));
    assert_eq!(parse_range(""), Err(RangeError::MissingSeparator));
}

#[test]
fn empty_bound_is_invalid() {
    assert_eq!(parse_range("1:"), Err(RangeError::InvalidNumber));
    assert_eq!(parse_range(":2"), Err(RangeError::InvalidNumber));
    assert_eq!(parse_range(":"), Err(RangeError::InvalidNumber));
}

#[test]
fn non_numeric_bound_is_invalid() {
    assert_eq!(parse_range("a:2"), Err(RangeError::InvalidNumber));
    assert_eq!(parse_range("1:b"), Err(RangeError::InvalidNumber));
    assert_eq!(parse_range("1.5:2"), Err(RangeError::InvalidNumber));
}

#[test]
fn oversized_bound_is_invalid() {
    assert_eq!(
        parse_range("99999999999999999999999:1"),
        Err(RangeError::InvalidNumber)
    );
}

#[test]
fn leading_zeros_are_accepted() {
    assert_eq!(parse_range("007:010"), Ok((7, 10)));
}
