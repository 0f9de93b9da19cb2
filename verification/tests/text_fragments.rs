use eacal::fragments::{parse_day_and_month, parse_hour_and_minute};
use eacal::text::{chars_of, parse_number, space, split, trim};

fn chars(text: &str) -> Vec<char> {
    text.chars().collect()
}

fn texts(fields: &Vec<Vec<char>>) -> Vec<String> {
    fields.iter().map(|f| f.iter().collect()).collect()
}

#[test]
fn chars_of_gives_every_character() {
    assert_eq!(chars_of("15. 3."), vec!['1', '5', '.', ' ', '3', '.']);
    assert_eq!(chars_of(""), Vec::<char>::new());
    assert_eq!(chars_of("čas"), vec!['č', 'a', 's']);
}

#[test]
fn space_agrees_with_std() {
    for n in 0u32..0x3100 {
        if let Some(c) = char::from_u32(n) {
            assert_eq!(space(c), c.is_whitespace(), "U+{:04X}", n);
        }
    }
}

#[test]
fn split_keeps_empty_fields() {
    assert_eq!(texts(&split(&chars("15. 3."), '.')), vec!["15", " 3", ""]);
    assert_eq!(texts(&split(&chars(""), '.')), vec![""]);
    assert_eq!(texts(&split(&chars("."), '.')), vec!["", ""]);
    assert_eq!(texts(&split(&chars("08:00"), ':')), vec!["08", "00"]);
    assert_eq!(texts(&split(&chars("abc"), ':')), vec!["abc"]);
}

#[test]
fn split_agrees_with_std() {
    for text in ["a.b.c", "..", ".a", "a.", "1. 2. 3.", "no dots", " . . "] {
        let expected: Vec<String> = text.split('.').map(|f| f.to_string()).collect();
        assert_eq!(texts(&split(&chars(text), '.')), expected);
    }
}

#[test]
fn trim_drops_white_space_at_both_ends() {
    assert_eq!(trim(&chars("  15 ")), chars("15"));
    assert_eq!(trim(&chars("\t\n3\u{a0}")), chars("3"));
    assert_eq!(trim(&chars("   ")), chars(""));
    assert_eq!(trim(&chars("")), chars(""));
    assert_eq!(trim(&chars("a b")), chars("a b"));
}

#[test]
fn parse_number_reads_decimal_digits() {
    assert_eq!(parse_number(&chars("15")), Some(15));
    assert_eq!(parse_number(&chars("08")), Some(8));
    assert_eq!(parse_number(&chars("0")), Some(0));
    assert_eq!(parse_number(&chars("+7")), Some(7));
    assert_eq!(parse_number(&chars("4294967295")), Some(4294967295));
    assert_eq!(parse_number(&chars("0000000000004294967295")), Some(4294967295));
}

#[test]
fn parse_number_refuses_what_is_no_number() {
    assert_eq!(parse_number(&chars("")), None);
    assert_eq!(parse_number(&chars("+")), None);
    assert_eq!(parse_number(&chars("-1")), None);
    assert_eq!(parse_number(&chars("++1")), None);
    assert_eq!(parse_number(&chars(" 1")), None);
    assert_eq!(parse_number(&chars("1a")), None);
    assert_eq!(parse_number(&chars("4294967296")), None);
    assert_eq!(parse_number(&chars("99999999999999999999999999")), None);
}

#[test]
fn parse_number_agrees_with_std() {
    for text in ["12", "012", "+12", "-12", "", "+", "1 2", "١٢", "4294967295", "4294967296"] {
        assert_eq!(parse_number(&chars(text)), text.parse::<u32>().ok(), "{:?}", text);
    }
}

#[test]
fn day_and_month_are_read_in_this_order() {
    assert_eq!(parse_day_and_month("15. 3."), Some((15, 3)));
    assert_eq!(parse_day_and_month("1.12."), Some((1, 12)));
    assert_eq!(parse_day_and_month(" 15 . 3 "), Some((15, 3)));
    assert_eq!(parse_day_and_month("15..3"), Some((15, 3)));
    assert_eq!(parse_day_and_month("15. 3. 2024"), Some((15, 3)));
}

#[test]
fn a_date_needs_two_numbers() {
    assert_eq!(parse_day_and_month(""), None);
    assert_eq!(parse_day_and_month("15."), None);
    assert_eq!(parse_day_and_month("15"), None);
    assert_eq!(parse_day_and_month("15. March"), None);
    assert_eq!(parse_day_and_month("x. 3."), None);
    assert_eq!(parse_day_and_month("1 5. 3."), None);
}

#[test]
fn hour_and_minute_are_read_in_this_order() {
    assert_eq!(parse_hour_and_minute("08:00"), Some((8, 0)));
    assert_eq!(parse_hour_and_minute("8:45"), Some((8, 45)));
    assert_eq!(parse_hour_and_minute("23:59:59"), Some((23, 59)));
    assert_eq!(parse_hour_and_minute("25:61"), Some((25, 61)));
}

#[test]
fn a_clock_time_needs_two_numbers_without_white_space() {
    assert_eq!(parse_hour_and_minute(""), None);
    assert_eq!(parse_hour_and_minute("08"), None);
    assert_eq!(parse_hour_and_minute("08:"), None);
    assert_eq!(parse_hour_and_minute(":00"), None);
    assert_eq!(parse_hour_and_minute("08: 00"), None);
    assert_eq!(parse_hour_and_minute(" 08:00"), None);
    assert_eq!(parse_hour_and_minute("08.00"), None);
}
