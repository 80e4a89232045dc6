use bins::number::NumberError;
use bins::range::{FlexibleRange, RangeError, Segment};

fn drain(text: &str) -> Vec<usize> {
    let mut range = FlexibleRange::parse(text).unwrap();
    let mut out = Vec::new();
    while let Some(n) = range.next() {
        out.push(n);
    }
    out
}

#[test]
fn ascending_pair_counts_up_inclusive() {
    assert_eq!(drain("2-5"), vec![2, 3, 4, 5]);
}

#[test]
fn descending_pair_stops_before_upper() {
    assert_eq!(drain("5-2"), vec![5, 4, 3]);
    assert_eq!(drain("9-5"), vec![9, 8, 7, 6]);
}

#[test]
fn single_position() {
    assert_eq!(drain("7"), vec![7]);
    assert_eq!(drain("0"), vec![0]);
}

#[test]
fn segments_in_written_order() {
    assert_eq!(drain("1-3,7,9-5"), vec![1, 2, 3, 7, 9, 8, 7, 6]);
}

#[test]
fn blanks_around_segments_and_bounds() {
    assert_eq!(drain(" 1 - 2 , 4 "), vec![1, 2, 4]);
}

#[test]
fn equal_bounds_yield_one_position() {
    assert_eq!(drain("3-3"), vec![3]);
}

#[test]
fn largest_position_is_accepted() {
    let text = format!("{}", usize::MAX);
    assert_eq!(drain(&text), vec![usize::MAX]);
    let pair = format!("{}-{}", usize::MAX - 1, usize::MAX);
    assert_eq!(drain(&pair), vec![usize::MAX - 1, usize::MAX]);
}

#[test]
fn parse_keeps_bounds_as_written() {
    let range = FlexibleRange::parse("4-1,2").unwrap();
    assert_eq!(range.ranges, vec![Segment { lower: 4, upper: 1 }, Segment { lower: 2, upper: 2 }]);
}

#[test]
fn empty_segment_is_rejected() {
    assert_eq!(FlexibleRange::parse("").unwrap_err(), RangeError::EmptyPart);
    assert_eq!(FlexibleRange::parse("1,,2").unwrap_err(), RangeError::EmptyPart);
    assert_eq!(FlexibleRange::parse("1, ").unwrap_err(), RangeError::EmptyPart);
}

#[test]
fn missing_bound_is_rejected() {
    assert_eq!(FlexibleRange::parse("1-").unwrap_err(), RangeError::IncompletePart);
    assert_eq!(FlexibleRange::parse("-1").unwrap_err(), RangeError::IncompletePart);
    assert_eq!(FlexibleRange::parse("-").unwrap_err(), RangeError::IncompletePart);
}

#[test]
fn two_dashes_are_rejected() {
    assert_eq!(FlexibleRange::parse("1-2-3").unwrap_err(), RangeError::TooManyDashes);
    assert_eq!(FlexibleRange::parse("--").unwrap_err(), RangeError::TooManyDashes);
}

#[test]
fn non_numeric_bound_is_rejected() {
    assert_eq!(
        FlexibleRange::parse("a").unwrap_err(),
        RangeError::InvalidNumber(NumberError::InvalidDigit)
    );
    assert_eq!(
        FlexibleRange::parse("1-x").unwrap_err(),
        RangeError::InvalidNumber(NumberError::InvalidDigit)
    );
    assert_eq!(
        FlexibleRange::parse("+").unwrap_err(),
        RangeError::InvalidNumber(NumberError::InvalidDigit)
    );
}

#[test]
fn too_large_bound_is_rejected() {
    assert_eq!(
        FlexibleRange::parse("99999999999999999999999999").unwrap_err(),
        RangeError::InvalidNumber(NumberError::Overflow)
    );
}

#[test]
fn first_bad_segment_decides_the_error() {
    assert_eq!(FlexibleRange::parse("1,2-,x").unwrap_err(), RangeError::IncompletePart);
    assert_eq!(
        FlexibleRange::parse("x,2-").unwrap_err(),
        RangeError::InvalidNumber(NumberError::InvalidDigit)
    );
}

#[test]
fn plus_sign_is_accepted() {
    assert_eq!(drain("+3"), vec![3]);
}

#[test]
fn range_error_messages() {
    assert_eq!(RangeError::EmptyPart.message(), "empty part in range");
    assert_eq!(RangeError::IncompletePart.message(), "incomplete part in range");
    assert_eq!(RangeError::TooManyDashes.message(), "too many dashes in range");
    assert_eq!(
        RangeError::InvalidNumber(NumberError::InvalidDigit).message(),
        "invalid digit found in string"
    );
    assert_eq!(
        RangeError::InvalidNumber(NumberError::Overflow).message(),
        "number too large to fit in target type"
    );
    assert_eq!(NumberError::Empty.message(), "cannot parse integer from empty string");
}

#[test]
fn exhausted_range_stays_exhausted() {
    let mut range = FlexibleRange::parse("1").unwrap();
    assert_eq!(range.next(), Some(1));
    assert_eq!(range.next(), None);
    assert_eq!(range.next(), None);
}

#[test]
fn clone_leaves_the_range_untouched() {
    let range = FlexibleRange::parse("1-2").unwrap();
    let mut copy = range.clone();
    assert_eq!(copy.next(), Some(1));
    assert_eq!(range.ranges, vec![Segment { lower: 1, upper: 2 }]);
}
