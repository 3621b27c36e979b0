use rust_tour::numerals::decimal_text;
use rust_tour::parsing::{
    parse_and_find_even, parse_config, parse_number_then_double, parse_positive_number,
    process_data, DataError, ParseError,
};

#[test]
fn positive_numbers_are_parsed() {
    assert_eq!(parse_positive_number("42").unwrap(), 42);
    assert_eq!(parse_positive_number("0").unwrap(), 0);
    assert_eq!(parse_positive_number("+7").unwrap(), 7);
    assert_eq!(parse_positive_number("007").unwrap(), 7);
    assert_eq!(parse_positive_number("-0").unwrap(), 0);
    assert_eq!(parse_positive_number("2147483647").unwrap(), i32::MAX);
}

#[test]
fn negative_numbers_are_refused() {
    assert!(matches!(parse_positive_number("-5"), Err(ParseError::NegativeNumber)));
    assert!(matches!(parse_positive_number("-2147483648"), Err(ParseError::NegativeNumber)));
}

#[test]
fn what_is_no_number_is_refused() {
    for text in [
        "", "+", "-", "abc", "three", " 1", "1 ", "1_0", "0x10", "+-1", "--1", "1.0", "٣",
        "2147483648", "-2147483649", "99999999999999999999",
    ] {
        assert!(matches!(parse_positive_number(text), Err(ParseError::InvalidNumber(_))));
    }
}

#[test]
fn messages_say_what_went_wrong() {
    let negative = parse_positive_number("-5").unwrap_err();
    assert_eq!(negative.message(), "数字不能为负数");
    assert!(negative.source().is_none());
    let invalid = parse_positive_number("abc").unwrap_err();
    let cause = "abc".parse::<i32>().unwrap_err();
    assert_eq!(invalid.message(), format!("无效的数字: {}", cause));
    assert_eq!(invalid.source(), Some(&cause));
}

#[test]
fn numbers_are_doubled() {
    assert_eq!(parse_number_then_double("42"), Ok(84));
    assert_eq!(parse_number_then_double("-3"), Ok(-6));
    assert_eq!(parse_number_then_double("0"), Ok(0));
    assert_eq!(parse_number_then_double("1073741823"), Ok(2_147_483_646));
    assert_eq!(parse_number_then_double("-1073741824"), Ok(i32::MIN));
}

#[test]
fn doubling_reports_a_failed_parse() {
    let cause = "x".parse::<i32>().unwrap_err();
    assert_eq!(parse_number_then_double("x"), Err(format!("解析失败: {}", cause)));
    let cause = "".parse::<i32>().unwrap_err();
    assert_eq!(parse_number_then_double(""), Err(format!("解析失败: {}", cause)));
}

#[test]
fn configuration_must_not_be_empty() {
    assert_eq!(parse_config(""), Err("配置文件为空"));
    assert_eq!(parse_config("key=value"), Ok("key=value".to_string()));
    assert_eq!(parse_config(" "), Ok(" ".to_string()));
}

#[test]
fn data_are_trimmed_parsed_and_doubled() {
    assert_eq!(process_data("42").unwrap(), 84);
    assert_eq!(process_data(" 42 \n").unwrap(), 84);
    assert_eq!(process_data("\t-7\r\n").unwrap(), -14);
    assert_eq!(process_data("\u{3000}100\u{a0}").unwrap(), 200);
    assert_eq!(process_data("\u{2003}\u{85}0\u{1680}\u{2028}\u{2029}\u{202f}\u{205f}").unwrap(), 0);
}

#[test]
fn data_above_one_hundred_are_too_large() {
    assert!(matches!(process_data("101"), Err(DataError::TooLarge)));
    assert!(matches!(process_data(" 2147483647 "), Err(DataError::TooLarge)));
}

#[test]
fn data_that_write_no_number_are_invalid() {
    for text in ["", "   ", "4 2", "x", "\u{200b}1", "1\u{180e}", "2147483648"] {
        assert!(matches!(process_data(text), Err(DataError::InvalidNumber(_))));
    }
}

#[test]
fn first_even_among_parsed_numbers() {
    assert_eq!(parse_and_find_even(&["1", "2", "3", "4"]), Ok(Some(2)));
    assert_eq!(parse_and_find_even(&["1", "3"]), Ok(None));
    assert_eq!(parse_and_find_even(&[]), Ok(None));
    assert_eq!(parse_and_find_even(&["-4"]), Ok(Some(-4)));
}

#[test]
fn first_failed_parse_is_reported() {
    let cause = "three".parse::<i32>().unwrap_err();
    assert_eq!(parse_and_find_even(&["1", "2", "three", "4"]), Err(cause));
    let cause = "".parse::<i32>().unwrap_err();
    assert_eq!(parse_and_find_even(&["2", "", "x"]), Err(cause));
}

#[test]
fn a_numeral_is_parsed_as_its_number() {
    for number in [0i32, 1, 9, 10, 99, 100, 12_345, 1_000_000, i32::MAX - 1, i32::MAX] {
        let numeral = decimal_text(number as u32);
        assert_eq!(parse_positive_number(&numeral).unwrap(), number);
    }
}

fn is_listed_white_space(c: char) -> bool {
    let code = c as u32;
    (0x09..=0x0D).contains(&code)
        || code == 0x20
        || code == 0x85
        || code == 0xA0
        || code == 0x1680
        || (0x2000..=0x200A).contains(&code)
        || code == 0x2028
        || code == 0x2029
        || code == 0x202F
        || code == 0x205F
        || code == 0x3000
}

#[test]
fn white_space_is_what_the_standard_library_takes_for_it() {
    for code in 0..=0x10FFFFu32 {
        if let Some(c) = char::from_u32(code) {
            assert_eq!(c.is_whitespace(), is_listed_white_space(c));
        }
    }
}

#[test]
fn every_white_space_character_is_trimmed() {
    for code in 0..=0x3000u32 {
        if let Some(c) = char::from_u32(code) {
            let text = format!("{}{}7{}", c, c, c);
            if is_listed_white_space(c) {
                assert_eq!(process_data(&text).unwrap(), 14);
            } else if !c.is_ascii_digit() {
                assert!(matches!(process_data(&text), Err(DataError::InvalidNumber(_))));
            }
        }
    }
}

#[test]
fn signs_and_digits_are_parsed_as_written() {
    for number in [i32::MIN, -2_000_000_000, -100, -1, 0, 1, 100, 2_000_000_000, i32::MAX] {
        let written = format!("{}", number);
        let parsed = parse_number_then_double_or_none(&written, number);
        assert_eq!(parsed, number.checked_mul(2));
        let padded = if number < 0 {
            format!("-000{}", (number as i64).abs())
        } else {
            format!("+000{}", number)
        };
        assert_eq!(parse_number_then_double_or_none(&padded, number), number.checked_mul(2));
    }
}

fn parse_number_then_double_or_none(text: &str, number: i32) -> Option<i32> {
    if number.checked_mul(2).is_none() {
        return None;
    }
    parse_number_then_double(text).ok()
}
