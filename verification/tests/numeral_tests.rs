use md_translate::numeral::{decimal_string, parse_number};

#[test]
fn numbers_are_written_in_base_ten() {
    assert_eq!(decimal_string(0), "0");
    assert_eq!(decimal_string(7), "7");
    assert_eq!(decimal_string(10), "10");
    assert_eq!(decimal_string(1234567890), "1234567890");
    assert_eq!(decimal_string(u64::MAX), "18446744073709551615");
}

#[test]
fn numbers_are_read_back() {
    assert_eq!(parse_number("0", 255), Some(0));
    assert_eq!(parse_number("255", 255), Some(255));
    assert_eq!(parse_number("007", 255), Some(7));
    assert_eq!(parse_number("+12", 255), Some(12));
    assert_eq!(parse_number("18446744073709551615", u64::MAX), Some(u64::MAX));
}

#[test]
fn what_is_no_number_is_refused() {
    assert_eq!(parse_number("", 255), None);
    assert_eq!(parse_number("+", 255), None);
    assert_eq!(parse_number("-1", 255), None);
    assert_eq!(parse_number("1 ", 255), None);
    assert_eq!(parse_number(" 1", 255), None);
    assert_eq!(parse_number("1a", 255), None);
    assert_eq!(parse_number("++1", 255), None);
    assert_eq!(parse_number("٣", 255), None);
}

#[test]
fn numbers_over_the_bound_are_refused() {
    assert_eq!(parse_number("256", 255), None);
    assert_eq!(parse_number("1000", 255), None);
    assert_eq!(parse_number("18446744073709551616", u64::MAX), None);
    assert_eq!(parse_number("99999999999999999999999", u64::MAX), None);
}

#[test]
fn reading_undoes_writing() {
    for n in [0u64, 1, 9, 10, 99, 100, 65535, 4294967295, u64::MAX] {
        assert_eq!(parse_number(&decimal_string(n), u64::MAX), Some(n));
    }
}
