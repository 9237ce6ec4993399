use qa_catalogue::handle_errors::{CustomError, ParseFailure};
use qa_catalogue::types::pagination::{
    extract_pagination, extract_window, parse_index, Pagination, Window,
};
use qa_catalogue::StringHashMap;

fn params(pairs: &[(&str, &str)]) -> StringHashMap<String> {
    let mut map = StringHashMap::new();
    for (key, value) in pairs {
        map.insert(key.to_string(), value.to_string());
    }
    map
}

/// What the standard library makes of the same text.
fn std_reading(text: &str) -> Result<usize, String> {
    text.parse::<usize>().map_err(|error| error.to_string())
}

fn own_reading(text: &str) -> Result<usize, String> {
    parse_index(text).map_err(|failure| failure.to_string())
}

#[test]
fn parse_index_reads_plain_numerals() {
    assert_eq!(parse_index("0"), Ok(0));
    assert_eq!(parse_index("7"), Ok(7));
    assert_eq!(parse_index("10"), Ok(10));
    assert_eq!(parse_index("4096"), Ok(4096));
    assert_eq!(parse_index("0007"), Ok(7));
}

#[test]
fn parse_index_accepts_one_leading_plus() {
    assert_eq!(parse_index("+12"), Ok(12));
    assert_eq!(parse_index("++12"), Err(ParseFailure::InvalidDigit));
    assert_eq!(parse_index("+"), Err(ParseFailure::InvalidDigit));
}

#[test]
fn parse_index_refuses_the_empty_text() {
    assert_eq!(parse_index(""), Err(ParseFailure::Empty));
}

#[test]
fn parse_index_refuses_what_is_no_digit() {
    assert_eq!(parse_index("abc"), Err(ParseFailure::InvalidDigit));
    assert_eq!(parse_index("12a"), Err(ParseFailure::InvalidDigit));
    assert_eq!(parse_index(" 12"), Err(ParseFailure::InvalidDigit));
    assert_eq!(parse_index("12 "), Err(ParseFailure::InvalidDigit));
    assert_eq!(parse_index("1_000"), Err(ParseFailure::InvalidDigit));
    assert_eq!(parse_index("-1"), Err(ParseFailure::InvalidDigit));
    assert_eq!(parse_index("-"), Err(ParseFailure::InvalidDigit));
    assert_eq!(parse_index("1.5"), Err(ParseFailure::InvalidDigit));
    assert_eq!(parse_index("٣"), Err(ParseFailure::InvalidDigit));
    assert_eq!(parse_index("１２"), Err(ParseFailure::InvalidDigit));
}

#[test]
fn parse_index_reaches_the_largest_index_and_no_further() {
    let largest = usize::MAX.to_string();
    assert_eq!(parse_index(&largest), Ok(usize::MAX));
    let mut beyond = largest.clone();
    let last = beyond.pop().unwrap();
    beyond.push(char::from_digit(last.to_digit(10).unwrap() + 1, 10).unwrap());
    assert_eq!(parse_index(&beyond), Err(ParseFailure::PosOverflow));
    let longer = format!("{}0", largest);
    assert_eq!(parse_index(&longer), Err(ParseFailure::PosOverflow));
    let padded = format!("000{}", largest);
    assert_eq!(parse_index(&padded), Ok(usize::MAX));
}

#[test]
fn parse_index_reports_what_goes_wrong_first() {
    let overflow_then_letter = format!("{}9x", usize::MAX);
    assert_eq!(parse_index(&overflow_then_letter), Err(ParseFailure::PosOverflow));
    let letter_then_overflow = format!("x{}9", usize::MAX);
    assert_eq!(parse_index(&letter_then_overflow), Err(ParseFailure::InvalidDigit));
    let letter_at_the_limit = format!("{}x", usize::MAX);
    assert_eq!(parse_index(&letter_at_the_limit), Err(ParseFailure::InvalidDigit));
}

#[test]
fn parse_index_agrees_with_the_standard_library() {
    let largest = usize::MAX.to_string();
    let texts = [
        "".to_string(),
        "0".to_string(),
        "1".to_string(),
        "42".to_string(),
        "+42".to_string(),
        "-42".to_string(),
        "+".to_string(),
        "-".to_string(),
        "+-1".to_string(),
        "++1".to_string(),
        "00000000000000000000000000000000000001".to_string(),
        "12a".to_string(),
        "a12".to_string(),
        " 1".to_string(),
        "1 ".to_string(),
        "1e3".to_string(),
        "0x10".to_string(),
        "٣".to_string(),
        "é".to_string(),
        largest.clone(),
        format!("{}0", largest),
        format!("{}9x", largest),
        format!("{}x", largest),
        format!("+{}", largest),
        "99999999999999999999999999999999999999999".to_string(),
        "99999999999999999999999999999999999999999z".to_string(),
    ];
    for text in texts.iter() {
        assert_eq!(own_reading(text), std_reading(text), "text {:?}", text);
    }
}

#[test]
fn extract_pagination_reads_start_and_end() {
    let range = extract_pagination(params(&[("start", "1"), ("end", "10")]));
    assert_eq!(range, Ok(Pagination { start: 1, end: 10 }));
}

#[test]
fn extract_pagination_does_not_look_at_the_order_or_the_size() {
    let range = extract_pagination(params(&[("end", "2"), ("start", "5")]));
    assert_eq!(range, Ok(Pagination { start: 5, end: 2 }));
    let largest = usize::MAX.to_string();
    let range = extract_pagination(params(&[("start", "0"), ("end", &largest)]));
    assert_eq!(range, Ok(Pagination { start: 0, end: usize::MAX }));
}

#[test]
fn extract_pagination_ignores_other_parameters() {
    let range = extract_pagination(params(&[("start", "0"), ("end", "3"), ("sort", "title")]));
    assert_eq!(range, Ok(Pagination { start: 0, end: 3 }));
}

#[test]
fn extract_pagination_wants_both_parameters() {
    assert_eq!(
        extract_pagination(params(&[("start", "1")])),
        Err(CustomError::MissingParameters)
    );
    assert_eq!(
        extract_pagination(params(&[("end", "1")])),
        Err(CustomError::MissingParameters)
    );
    assert_eq!(extract_pagination(params(&[])), Err(CustomError::MissingParameters));
    assert_eq!(
        extract_pagination(params(&[("offset", "1"), ("limit", "2")])),
        Err(CustomError::MissingParameters)
    );
}

#[test]
fn extract_pagination_reports_a_missing_parameter_before_a_bad_one() {
    assert_eq!(
        extract_pagination(params(&[("start", "abc")])),
        Err(CustomError::MissingParameters)
    );
}

#[test]
fn extract_pagination_refuses_what_is_no_number() {
    assert_eq!(
        extract_pagination(params(&[("start", "one"), ("end", "10")])),
        Err(CustomError::ParseError(ParseFailure::InvalidDigit))
    );
    assert_eq!(
        extract_pagination(params(&[("start", "1"), ("end", "")])),
        Err(CustomError::ParseError(ParseFailure::Empty))
    );
    assert_eq!(
        extract_pagination(params(&[("start", "-1"), ("end", "10")])),
        Err(CustomError::ParseError(ParseFailure::InvalidDigit))
    );
    assert_eq!(
        extract_pagination(params(&[("start", "1"), ("end", "99999999999999999999999999")])),
        Err(CustomError::ParseError(ParseFailure::PosOverflow))
    );
}

#[test]
fn extract_pagination_reports_the_start_first() {
    assert_eq!(
        extract_pagination(params(&[("start", ""), ("end", "x")])),
        Err(CustomError::ParseError(ParseFailure::Empty))
    );
    assert_eq!(
        extract_pagination(params(&[("start", "x"), ("end", "")])),
        Err(CustomError::ParseError(ParseFailure::InvalidDigit))
    );
}

#[test]
fn extract_window_reads_offset_and_limit() {
    let window = extract_window(params(&[("offset", "1"), ("limit", "10")]));
    assert_eq!(window, Ok(Window { offset: 1, limit: 10 }));
    let window = extract_window(params(&[("limit", "0"), ("offset", "+7"), ("sort", "title")]));
    assert_eq!(window, Ok(Window { offset: 7, limit: 0 }));
    let largest = usize::MAX.to_string();
    let window = extract_window(params(&[("offset", &largest), ("limit", &largest)]));
    assert_eq!(window, Ok(Window { offset: usize::MAX, limit: usize::MAX }));
}

#[test]
fn extract_window_wants_both_parameters() {
    assert_eq!(
        extract_window(params(&[("offset", "1")])),
        Err(CustomError::MissingParameters)
    );
    assert_eq!(
        extract_window(params(&[("limit", "x")])),
        Err(CustomError::MissingParameters)
    );
    assert_eq!(extract_window(params(&[])), Err(CustomError::MissingParameters));
    assert_eq!(
        extract_window(params(&[("start", "1"), ("end", "2")])),
        Err(CustomError::MissingParameters)
    );
}

#[test]
fn extract_window_refuses_what_is_no_number() {
    assert_eq!(
        extract_window(params(&[("offset", "one"), ("limit", "10")])),
        Err(CustomError::ParseError(ParseFailure::InvalidDigit))
    );
    assert_eq!(
        extract_window(params(&[("offset", "1"), ("limit", "-1")])),
        Err(CustomError::ParseError(ParseFailure::InvalidDigit))
    );
    assert_eq!(
        extract_window(params(&[("offset", ""), ("limit", "x")])),
        Err(CustomError::ParseError(ParseFailure::Empty))
    );
    assert_eq!(
        extract_window(params(&[("offset", "1"), ("limit", "99999999999999999999999999")])),
        Err(CustomError::ParseError(ParseFailure::PosOverflow))
    );
}
