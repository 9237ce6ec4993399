//! The pagination request and its extraction from raw query parameters.

use vstd::prelude::*;
use vstd::hash_map::StringHashMap;
use vstd::std_specs::iter::IteratorSpec;
use crate::handle_errors::{CustomError, ParseFailure};

verus! {

/// A half-open range of positions in the listing: from `start` up to, and
/// not including, `end`. Nothing here says that the range fits the listing:
/// that is checked when the listing is read.
#[derive(Debug, Clone, Copy, PartialEq, Eq, Structural)]
pub struct Pagination {
    /// The position of the first item wanted.
    pub start: usize,
    /// The position after the last item wanted.
    pub end: usize,
}

/// A request to skip the first `offset` items of the listing and then to
/// take at most `limit`. A listing that ends early cuts it short.
#[derive(Debug, Clone, Copy, PartialEq, Eq, Structural)]
pub struct Window {
    /// How many items are skipped.
    pub offset: usize,
    /// How many items are taken at most.
    pub limit: usize,
}

/// Whether `c` is one of the ten decimal digits.
pub open spec fn is_digit(c: char) -> bool {
    '0' <= c && c <= '9'
}

/// The number that the digit `c` stands for.
pub open spec fn digit_value(c: char) -> nat {
    (c as u32 - '0' as u32) as nat
}

/// The number that a run of decimal digits denotes.
pub open spec fn decimal_value(digits: Seq<char>) -> nat
    decreases digits.len(),
{
    if digits.len() == 0 {
        0
    } else {
        decimal_value(digits.drop_last()) * 10 + digit_value(digits.last())
    }
}

/// How many characters at the head of `text` are decimal digits.
pub open spec fn leading_digits(text: Seq<char>) -> nat
    decreases text.len(),
{
    if text.len() > 0 && is_digit(text[0]) {
        1 + leading_digits(text.drop_first())
    } else {
        0
    }
}

/// The text without the one `+` that may stand in front of it.
pub open spec fn unsigned_part(text: Seq<char>) -> Seq<char> {
    if text.len() > 0 && text[0] == '+' {
        text.drop_first()
    } else {
        text
    }
}

/// Whether `text` is a numeral: decimal digits, at least one, behind at most
/// one `+`.
pub open spec fn is_numeral(text: Seq<char>) -> bool {
    let digits = unsigned_part(text);
    digits.len() > 0 && forall|k: int| 0 <= k < digits.len() ==> is_digit(#[trigger] digits[k])
}

/// What reading `text` as an index gives. The text is read from the left,
/// and what goes wrong first decides the failure: a run of digits that
/// already exceeds the largest index is an overflow even if a character
/// that is no digit follows it.
pub open spec fn index_of_text(text: Seq<char>) -> Result<usize, ParseFailure> {
    let digits = unsigned_part(text);
    let run = digits.take(leading_digits(digits) as int);
    if text.len() == 0 {
        Err(ParseFailure::Empty)
    } else if digits.len() == 0 {
        Err(ParseFailure::InvalidDigit)
    } else if decimal_value(run) > usize::MAX {
        Err(ParseFailure::PosOverflow)
    } else if run.len() < digits.len() {
        Err(ParseFailure::InvalidDigit)
    } else {
        Ok(decimal_value(digits) as usize)
    }
}

/// A run of digits that is followed by the end of the text, or by a
/// character that is no digit, is the whole run at the head of the text.
proof fn lemma_leading_digits(text: Seq<char>, n: int)
    requires
        0 <= n <= text.len(),
        forall|k: int| 0 <= k < n ==> is_digit(#[trigger] text[k]),
        n < text.len() ==> !is_digit(text[n]),
    ensures
        leading_digits(text) == n,
    decreases n,
{
    if n > 0 {
        let rest = text.drop_first();
        assert forall|k: int| 0 <= k < n - 1 implies is_digit(#[trigger] rest[k]) by {
            assert(rest[k] == text[k + 1]);
        }
        lemma_leading_digits(rest, n - 1);
    }
}

/// The run of digits at the head of a text lies within the text, holds
/// digits only, and reaches at least as far as any run of digits that starts
/// there.
proof fn lemma_leading_digits_bounds(text: Seq<char>, n: int)
    requires
        0 <= n <= text.len(),
        forall|k: int| 0 <= k < n ==> is_digit(#[trigger] text[k]),
    ensures
        n <= leading_digits(text) <= text.len(),
        forall|k: int| 0 <= k < leading_digits(text) ==> is_digit(#[trigger] text[k]),
    decreases text.len(),
{
    if text.len() > 0 && is_digit(text[0]) {
        let rest = text.drop_first();
        let m = if n > 0 { n - 1 } else { 0 };
        assert forall|k: int| 0 <= k < m implies is_digit(#[trigger] rest[k]) by {
            assert(rest[k] == text[k + 1]);
        }
        lemma_leading_digits_bounds(rest, m);
        assert forall|k: int| 0 <= k < leading_digits(text) implies is_digit(#[trigger] text[k]) by {
            if k > 0 {
                assert(text[k] == rest[k - 1]);
            }
        }
    }
}

/// A longer run of digits denotes no smaller a number than its head.
proof fn lemma_value_grows(digits: Seq<char>, n: int, m: int)
    requires
        0 <= n <= m <= digits.len(),
    ensures
        decimal_value(digits.take(n)) <= decimal_value(digits.take(m)),
    decreases m - n,
{
    if n < m {
        lemma_value_grows(digits, n, m - 1);
        assert(digits.take(m).drop_last() == digits.take(m - 1));
    }
}

/// Reads `text` as an index.
pub fn parse_index(text: &str) -> (read: Result<usize, ParseFailure>)
    ensures
        read == index_of_text(text@),
{
    broadcast use vstd::string::group_string_axioms;

    let mut probe = text.chars();
    let first = probe.next();
    if first.is_none() {
        return Err(ParseFailure::Empty);
    }
    let signed = first == Some('+');
    let mut rest = if signed {
        probe
    } else {
        text.chars()
    };
    let ghost digits = unsigned_part(text@);
    assert(rest.remaining() == digits);
    let mut value: usize = 0;
    let mut any = false;
    let ghost mut seen: int = 0;
    assert(digits.take(0) == Seq::<char>::empty());
    loop
        invariant
            0 <= seen <= digits.len(),
            rest.obeys_prophetic_iter_laws(),
            rest.remaining() == digits.skip(seen),
            forall|k: int| 0 <= k < seen ==> is_digit(#[trigger] digits[k]),
            value == decimal_value(digits.take(seen)),
            any == (seen > 0),
            digits == unsigned_part(text@),
            text@.len() > 0,
        decreases digits.len() - seen,
    {
        let next = rest.next();
        match next {
            None => {
                proof {
                    lemma_leading_digits(digits, seen);
                    assert(digits.take(seen) == digits);
                }
                return if any {
                    Ok(value)
                } else {
                    Err(ParseFailure::InvalidDigit)
                };
            },
            Some(c) => {
                assert(c == digits[seen]);
                if !(c >= '0' && c <= '9') {
                    proof {
                        lemma_leading_digits(digits, seen);
                    }
                    return Err(ParseFailure::InvalidDigit);
                }
                let digit: usize = (c as u32 - '0' as u32) as usize;
                let scaled = value.checked_mul(10);
                let grown = match scaled {
                    Some(tens) => tens.checked_add(digit),
                    None => None,
                };
                proof {
                    assert(digits.take(seen + 1).drop_last() == digits.take(seen));
                    assert(digits.take(seen + 1).last() == c);
                }
                match grown {
                    Some(more) => {
                        value = more;
                        any = true;
                        proof {
                            seen = seen + 1;
                        }
                    },
                    None => {
                        proof {
                            lemma_leading_digits_bounds(digits, seen + 1);
                            lemma_value_grows(digits, seen + 1, leading_digits(digits) as int);
                        }
                        return Err(ParseFailure::PosOverflow);
                    },
                }
            },
        }
    }
}

/// The value of the parameter `key`, if the request has one.
pub open spec fn parameter(params: Map<Seq<char>, String>, key: Seq<char>) -> Option<Seq<char>> {
    if params.contains_key(key) {
        Some(params[key]@)
    } else {
        None
    }
}

/// The two indices that a pair of parameters denotes. Both must be there;
/// the first is read first, so where neither is a numeral the failure is
/// that of the first.
pub open spec fn pair_of(first: Option<Seq<char>>, second: Option<Seq<char>>) -> Result<
    (usize, usize),
    CustomError,
> {
    match (first, second) {
        (Some(one), Some(other)) => match index_of_text(one) {
            Err(failure) => Err(CustomError::ParseError(failure)),
            Ok(left) => match index_of_text(other) {
                Err(failure) => Err(CustomError::ParseError(failure)),
                Ok(right) => Ok((left, right)),
            },
        },
        _ => Err(CustomError::MissingParameters),
    }
}

/// The range that the two parameters denote.
pub open spec fn range_of(start: Option<Seq<char>>, end: Option<Seq<char>>) -> Result<
    Pagination,
    CustomError,
> {
    match pair_of(start, end) {
        Ok(pair) => Ok(Pagination { start: pair.0, end: pair.1 }),
        Err(error) => Err(error),
    }
}

/// The window that the two parameters denote.
pub open spec fn window_of(offset: Option<Seq<char>>, limit: Option<Seq<char>>) -> Result<
    Window,
    CustomError,
> {
    match pair_of(offset, limit) {
        Ok(pair) => Ok(Window { offset: pair.0, limit: pair.1 }),
        Err(error) => Err(error),
    }
}

/// The range that a request asks for by `start` and `end`.
pub open spec fn pagination_of(params: Map<Seq<char>, String>) -> Result<Pagination, CustomError> {
    range_of(parameter(params, "start"@), parameter(params, "end"@))
}

/// The window that a request asks for by `offset` and `limit`.
pub open spec fn window_request_of(params: Map<Seq<char>, String>) -> Result<Window, CustomError> {
    window_of(parameter(params, "offset"@), parameter(params, "limit"@))
}

/// Whether a request speaks of a range: it names `start`, `end` or both.
/// Such a request is read by `start` and `end` alone.
pub open spec fn names_range(params: Map<Seq<char>, String>) -> bool {
    params.contains_key("start"@) || params.contains_key("end"@)
}

/// Reads the two parameters `first` and `second` as indices.
fn extract_pair(params: &StringHashMap<String>, first: &str, second: &str) -> (pair: Result<
    (usize, usize),
    CustomError,
>)
    ensures
        pair == pair_of(parameter(params@, first@), parameter(params@, second@)),
{
    match (params.get(first), params.get(second)) {
        (Some(one), Some(other)) => {
            let left = match parse_index(one.as_str()) {
                Ok(left) => left,
                Err(failure) => {
                    return Err(CustomError::ParseError(failure));
                },
            };
            let right = match parse_index(other.as_str()) {
                Ok(right) => right,
                Err(failure) => {
                    return Err(CustomError::ParseError(failure));
                },
            };
            Ok((left, right))
        },
        _ => Err(CustomError::MissingParameters),
    }
}

/// Extracts the range from the query parameters `start` and `end`. Whether
/// the range fits the listing is not looked at here.
pub fn extract_pagination(params: StringHashMap<String>) -> (range: Result<
    Pagination,
    CustomError,
>)
    ensures
        range == pagination_of(params@),
{
    match extract_pair(&params, "start", "end") {
        Ok(pair) => Ok(Pagination { start: pair.0, end: pair.1 }),
        Err(error) => Err(error),
    }
}

/// Extracts the window from the query parameters `offset` and `limit`.
pub fn extract_window(params: StringHashMap<String>) -> (window: Result<Window, CustomError>)
    ensures
        window == window_request_of(params@),
{
    match extract_pair(&params, "offset", "limit") {
        Ok(pair) => Ok(Window { offset: pair.0, limit: pair.1 }),
        Err(error) => Err(error),
    }
}

/// A text that is no numeral is never read as an index.
pub proof fn law_only_numerals_are_read(text: Seq<char>)
    requires
        !is_numeral(text),
    ensures
        index_of_text(text) is Err,
{
    let digits = unsigned_part(text);
    if text.len() > 0 && digits.len() > 0 {
        let k = choose|k: int| 0 <= k < digits.len() && !is_digit(#[trigger] digits[k]);
        lemma_leading_digits_bounds(digits, 0);
        if leading_digits(digits) == digits.len() {
            assert(is_digit(digits[k]));
        }
    }
}

/// A numeral whose number is an index is read as that number.
pub proof fn law_numerals_in_range_are_read(text: Seq<char>)
    requires
        is_numeral(text),
        decimal_value(unsigned_part(text)) <= usize::MAX,
    ensures
        index_of_text(text) == Ok::<usize, ParseFailure>(
            decimal_value(unsigned_part(text)) as usize,
        ),
{
    let digits = unsigned_part(text);
    lemma_leading_digits(digits, digits.len() as int);
    assert(digits.take(digits.len() as int) == digits);
}

/// A request that lacks one of the two parameters is refused for that,
/// whatever the other holds.
pub proof fn law_missing_parameter(start: Option<Seq<char>>, end: Option<Seq<char>>)
    requires
        start is None || end is None,
    ensures
        range_of(start, end) == Err::<Pagination, CustomError>(CustomError::MissingParameters),
{
}

/// A request with both parameters, one of which is no numeral, is refused
/// with a parse error.
pub proof fn law_non_numeric_parameter(start: Seq<char>, end: Seq<char>)
    requires
        !is_numeral(start) || !is_numeral(end),
    ensures
        range_of(Some(start), Some(end)) matches Err(CustomError::ParseError(_)),
{
    if !is_numeral(start) {
        law_only_numerals_are_read(start);
    } else {
        law_only_numerals_are_read(end);
    }
}

/// A request with two numerals that are indices yields the range between
/// them, whether or not it is in order.
pub proof fn law_numeric_parameters(start: Seq<char>, end: Seq<char>)
    requires
        is_numeral(start),
        is_numeral(end),
        decimal_value(unsigned_part(start)) <= usize::MAX,
        decimal_value(unsigned_part(end)) <= usize::MAX,
    ensures
        range_of(Some(start), Some(end)) == Ok::<Pagination, CustomError>(
            Pagination {
                start: decimal_value(unsigned_part(start)) as usize,
                end: decimal_value(unsigned_part(end)) as usize,
            },
        ),
{
    law_numerals_in_range_are_read(start);
    law_numerals_in_range_are_read(end);
}

/// A request that lacks the offset or the limit is refused for that,
/// whatever the other holds.
pub proof fn law_missing_window_parameter(offset: Option<Seq<char>>, limit: Option<Seq<char>>)
    requires
        offset is None || limit is None,
    ensures
        window_of(offset, limit) == Err::<Window, CustomError>(CustomError::MissingParameters),
{
}

/// A request with an offset and a limit, one of which is no numeral, is
/// refused with a parse error.
pub proof fn law_non_numeric_window_parameter(offset: Seq<char>, limit: Seq<char>)
    requires
        !is_numeral(offset) || !is_numeral(limit),
    ensures
        window_of(Some(offset), Some(limit)) matches Err(CustomError::ParseError(_)),
{
    if !is_numeral(offset) {
        law_only_numerals_are_read(offset);
    } else {
        law_only_numerals_are_read(limit);
    }
}

/// A request with two numerals that are indices yields the window that
/// they name.
pub proof fn law_numeric_window_parameters(offset: Seq<char>, limit: Seq<char>)
    requires
        is_numeral(offset),
        is_numeral(limit),
        decimal_value(unsigned_part(offset)) <= usize::MAX,
        decimal_value(unsigned_part(limit)) <= usize::MAX,
    ensures
        window_of(Some(offset), Some(limit)) == Ok::<Window, CustomError>(
            Window {
                offset: decimal_value(unsigned_part(offset)) as usize,
                limit: decimal_value(unsigned_part(limit)) as usize,
            },
        ),
{
    law_numerals_in_range_are_read(offset);
    law_numerals_in_range_are_read(limit);
}

} // verus!
