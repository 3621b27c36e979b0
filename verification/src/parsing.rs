//! Reading integers from text, and what can go wrong on the way.

use crate::math::find_first_even;
use crate::math::first_even_index;
use crate::numerals::{decimal_digits, digit_char};
use std::num::ParseIntError;
use vstd::prelude::*;
use vstd::string::to_string_from_display_ensures;
use vstd::string::StringExecFns;

verus! {

/// The standard library's error of a failed integer parse.
#[verifier::external_type_specification]
#[verifier::external_body]
pub struct ExParseIntError(ParseIntError);

/// `c` is one of the digits 0 to 9.
pub open spec fn is_digit(c: char) -> bool {
    '0' <= c <= '9'
}

/// The value of the digit `c`.
pub open spec fn digit_value(c: char) -> int
    recommends
        is_digit(c),
{
    c as int - '0' as int
}

/// `s` holds at least one character, and digits only.
pub open spec fn all_digits(s: Seq<char>) -> bool {
    s.len() > 0 && forall|i: int| 0 <= i < s.len() ==> is_digit(#[trigger] s[i])
}

/// The number that the digits `s` write in base ten.
pub open spec fn digits_value(s: Seq<char>) -> int
    recommends
        all_digits(s),
    decreases s.len(),
{
    if s.len() == 0 {
        0
    } else {
        digits_value(s.drop_last()) * 10 + digit_value(s.last())
    }
}

/// The integer that `s` writes: digits, with at most one sign before them,
/// and nothing else. Text of any other form writes no integer.
pub open spec fn decimal_value(s: Seq<char>) -> Option<int> {
    if s.len() > 0 && s[0] == '-' {
        if all_digits(s.skip(1)) {
            Some(-digits_value(s.skip(1)))
        } else {
            None
        }
    } else if s.len() > 0 && s[0] == '+' {
        if all_digits(s.skip(1)) {
            Some(digits_value(s.skip(1)))
        } else {
            None
        }
    } else if all_digits(s) {
        Some(digits_value(s))
    } else {
        None
    }
}

/// The `i32` that `s` writes, if it writes an integer and that fits.
pub open spec fn parsed_i32(s: Seq<char>) -> Option<i32> {
    match decimal_value(s) {
        Some(value) => if i32::MIN <= value <= i32::MAX {
            Some(value as i32)
        } else {
            None
        },
        None => None,
    }
}

/// The decimal numeral of a number is digits only, and writes that number.
pub proof fn lemma_numeral_writes_its_number(n: nat)
    ensures
        all_digits(decimal_digits(n)),
        digits_value(decimal_digits(n)) == n,
        decimal_value(decimal_digits(n)) == Some(n as int),
    decreases n,
{
    if n < 10 {
        let numeral = decimal_digits(n);
        assert(numeral.len() == 1 && numeral[0] == digit_char(n));
        assert(numeral.drop_last() =~= Seq::<char>::empty());
        assert(digits_value(numeral) == digits_value(numeral.drop_last()) * 10 + digit_value(
            numeral.last(),
        ));
    } else {
        lemma_numeral_writes_its_number(n / 10);
        let front = decimal_digits(n / 10);
        let numeral = decimal_digits(n);
        assert(numeral == front.push(digit_char(n % 10)));
        assert(numeral.drop_last() =~= front);
        assert(numeral.last() == digit_char(n % 10));
        assert forall|i: int| 0 <= i < numeral.len() implies is_digit(#[trigger] numeral[i]) by {
            if i < front.len() {
                assert(numeral[i] == front[i]);
            }
        }
    }
}

/// Calls `str::parse::<i32>` of the standard library. The contract claims
/// what its documentation says: the text is parsed as decimal digits after
/// an optional sign; a sign alone, any other character, an empty text and a
/// value outside the range of `i32` are errors.
#[verifier::external_body]
fn parse_i32(s: &str) -> (result: Result<i32, ParseIntError>)
    ensures
        match result {
            Ok(number) => parsed_i32(s@) == Some(number),
            Err(_) => parsed_i32(s@) is None,
        },
{
    s.parse::<i32>()
}

/// `c` is white space, as Unicode's property `White_Space` defines it.
pub open spec fn is_whitespace(c: char) -> bool {
    let code = c as u32;
    ||| 0x09 <= code <= 0x0D
    ||| code == 0x20
    ||| code == 0x85
    ||| code == 0xA0
    ||| code == 0x1680
    ||| 0x2000 <= code <= 0x200A
    ||| code == 0x2028
    ||| code == 0x2029
    ||| code == 0x202F
    ||| code == 0x205F
    ||| code == 0x3000
}

/// `s` without the white space it begins with.
pub open spec fn trimmed_start(s: Seq<char>) -> Seq<char>
    decreases s.len(),
{
    if s.len() > 0 && is_whitespace(s[0]) {
        trimmed_start(s.drop_first())
    } else {
        s
    }
}

/// `s` without the white space it ends with.
pub open spec fn trimmed_end(s: Seq<char>) -> Seq<char>
    decreases s.len(),
{
    if s.len() > 0 && is_whitespace(s.last()) {
        trimmed_end(s.drop_last())
    } else {
        s
    }
}

/// `s` without the white space at its two ends.
pub open spec fn trimmed(s: Seq<char>) -> Seq<char> {
    trimmed_end(trimmed_start(s))
}

/// Calls `str::trim` of the standard library. The contract claims what its
/// documentation says: the result is the text without its leading and
/// trailing white space, by Unicode's property `White_Space`.
#[verifier::external_body]
fn trim(s: &str) -> (inner: &str)
    ensures
        inner@ == trimmed(s@),
{
    s.trim()
}

/// Why a text is not a number that is wanted.
#[derive(Debug)]
pub enum ParseError {
    /// The text writes no `i32`.
    InvalidNumber(ParseIntError),
    /// The text writes a number below zero.
    NegativeNumber,
}

impl ParseError {
    /// The error in words. For an invalid number, the words end with what
    /// the standard library says of its error.
    pub fn message(&self) -> (text: String)
        ensures
            match self {
                ParseError::InvalidNumber(cause) => exists|shown: String|
                    #[trigger] to_string_from_display_ensures(cause, shown) && text@
                        == "无效的数字: "@ + shown@,
                ParseError::NegativeNumber => text@ == "数字不能为负数"@,
            },
    {
        match self {
            ParseError::InvalidNumber(cause) => {
                let shown = cause.to_string();
                let mut text = "无效的数字: ".to_owned();
                text.append(shown.as_str());
                text
            },
            ParseError::NegativeNumber => "数字不能为负数".to_owned(),
        }
    }

    /// The error that lies beneath this one, where there is one.
    pub fn source(&self) -> (cause: Option<&ParseIntError>)
        ensures
            cause == match self {
                ParseError::InvalidNumber(inner) => Some(inner),
                ParseError::NegativeNumber => None::<&ParseIntError>,
            },
    {
        match self {
            ParseError::InvalidNumber(inner) => Some(inner),
            ParseError::NegativeNumber => None,
        }
    }
}

/// The number that `s` writes, if it is an `i32` and not below zero.
pub fn parse_positive_number(s: &str) -> (result: Result<i32, ParseError>)
    ensures
        match result {
            Ok(number) => parsed_i32(s@) == Some(number) && number >= 0,
            Err(ParseError::InvalidNumber(_)) => parsed_i32(s@) is None,
            Err(ParseError::NegativeNumber) => parsed_i32(s@) matches Some(number) && number < 0,
        },
{
    let number = match parse_i32(s) {
        Ok(number) => number,
        Err(cause) => {
            return Err(ParseError::InvalidNumber(cause));
        },
    };
    if number < 0 {
        Err(ParseError::NegativeNumber)
    } else {
        Ok(number)
    }
}

/// `text` says that a parse failed, and ends with what the standard
/// library says of some error of its own.
pub open spec fn is_failure_message(text: Seq<char>) -> bool {
    exists|cause: ParseIntError, shown: String| #[trigger]
        to_string_from_display_ensures(&cause, shown) && text == "解析失败: "@ + shown@
}

/// Twice the number that `s` writes. Where `s` writes no `i32`, the error
/// says so in words, which end with what the standard library says of its
/// error.
pub fn parse_number_then_double(s: &str) -> (result: Result<i32, String>)
    requires
        parsed_i32(s@) matches Some(number) ==> i32::MIN <= 2 * number <= i32::MAX,
    ensures
        match result {
            Ok(doubled) => parsed_i32(s@) matches Some(number) && doubled == 2 * number,
            Err(text) => parsed_i32(s@) is None && is_failure_message(text@),
        },
{
    match parse_i32(s) {
        Ok(number) => Ok(number * 2),
        Err(cause) => {
            let mut text = "解析失败: ".to_owned();
            text.append(cause.to_string().as_str());
            Err(text)
        },
    }
}

/// The content of a configuration, which must not be empty.
pub fn parse_config(content: &str) -> (result: Result<String, &'static str>)
    ensures
        match result {
            Ok(config) => content@.len() > 0 && config@ == content@,
            Err(text) => content@.len() == 0 && text@ == "配置文件为空"@,
        },
{
    if content.is_empty() {
        Err("配置文件为空")
    } else {
        Ok(content.to_owned())
    }
}

/// Why data could not be processed.
#[derive(Debug)]
pub enum DataError {
    /// The data write no `i32`.
    InvalidNumber(ParseIntError),
    /// The data write a number above 100.
    TooLarge,
}

/// The least number that can be doubled within `i32`.
pub const LEAST_DOUBLED: i32 = -1073741824;

/// Twice the number that `file_content` writes between white space, which
/// must be an `i32` of at most 100.
pub fn process_data(file_content: &str) -> (result: Result<i32, DataError>)
    requires
        parsed_i32(trimmed(file_content@)) matches Some(number) ==> number >= LEAST_DOUBLED,
    ensures
        match result {
            Ok(doubled) => parsed_i32(trimmed(file_content@)) matches Some(number) && number
                <= 100 && doubled == 2 * number,
            Err(DataError::InvalidNumber(_)) => parsed_i32(trimmed(file_content@)) is None,
            Err(DataError::TooLarge) => parsed_i32(trimmed(file_content@)) matches Some(number)
                && number > 100,
        },
{
    let number = match parse_i32(trim(file_content)) {
        Ok(number) => number,
        Err(cause) => {
            return Err(DataError::InvalidNumber(cause));
        },
    };
    if number > 100 {
        return Err(DataError::TooLarge);
    }
    Ok(number * 2)
}

/// The numbers that the texts of `strings` write, in their order, if each
/// writes an `i32`; else the position of the first text that writes none.
pub open spec fn parsed_all(strings: Seq<&str>) -> Result<Seq<i32>, int>
    decreases strings.len(),
{
    if strings.len() == 0 {
        Ok(Seq::empty())
    } else {
        match parsed_all(strings.drop_last()) {
            Ok(numbers) => match parsed_i32(strings.last()@) {
                Some(number) => Ok(numbers.push(number)),
                None => Err(strings.len() - 1),
            },
            Err(at) => Err(at),
        }
    }
}

/// The first even number among those that `strings` write. The first text
/// that writes no `i32` makes the whole an error.
pub fn parse_and_find_even(strings: &[&str]) -> (result: Result<Option<i32>, ParseIntError>)
    ensures
        match result {
            Ok(found) => parsed_all(strings@) matches Ok(numbers) && found == if first_even_index(
                numbers,
            ) < numbers.len() {
                Some(numbers[first_even_index(numbers)])
            } else {
                None::<i32>
            },
            Err(_) => parsed_all(strings@) is Err,
        },
{
    let mut numbers: Vec<i32> = Vec::new();
    let mut next: usize = 0;
    while next < strings.len()
        invariant
            next <= strings@.len(),
            parsed_all(strings@.take(next as int)) == Ok::<Seq<i32>, int>(numbers@),
        decreases strings@.len() - next,
    {
        proof {
            let longer = strings@.take(next + 1);
            assert(longer.drop_last() == strings@.take(next as int));
            assert(longer.last() == strings@[next as int]);
        }
        match parse_i32(strings[next]) {
            Ok(number) => {
                numbers.push(number);
            },
            Err(cause) => {
                proof {
                    lemma_parse_failure_stays(strings@, next + 1);
                }
                return Err(cause);
            },
        }
        next += 1;
    }
    assert(strings@.take(next as int) == strings@);
    Ok(find_first_even(numbers.as_slice()))
}

/// Once the first `n` texts hold one that writes no number, so do all.
proof fn lemma_parse_failure_stays(strings: Seq<&str>, n: int)
    requires
        0 <= n <= strings.len(),
        parsed_all(strings.take(n)) is Err,
    ensures
        parsed_all(strings) is Err,
    decreases strings.len() - n,
{
    if n < strings.len() {
        let longer = strings.take(n + 1);
        assert(longer.drop_last() == strings.take(n));
        lemma_parse_failure_stays(strings, n + 1);
    } else {
        assert(strings.take(n) == strings);
    }
}

} // verus!
