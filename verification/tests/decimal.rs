use manifest_rewrite::decimal::{decimal_string, parse_i32};

#[test]
fn parse_i32_reads_plain_numbers() {
    assert_eq!(parse_i32("0"), Some(0));
    assert_eq!(parse_i32("7"), Some(7));
    assert_eq!(parse_i32("42"), Some(42));
    assert_eq!(parse_i32("+42"), Some(42));
    assert_eq!(parse_i32("-42"), Some(-42));
    assert_eq!(parse_i32("-0"), Some(0));
    assert_eq!(parse_i32("007"), Some(7));
}

#[test]
fn parse_i32_reads_the_ends_of_the_range() {
    assert_eq!(parse_i32("2147483647"), Some(i32::MAX));
    assert_eq!(parse_i32("-2147483648"), Some(i32::MIN));
    assert_eq!(parse_i32("2147483648"), None);
    assert_eq!(parse_i32("-2147483649"), None);
    assert_eq!(parse_i32("00000000000000000002147483647"), Some(i32::MAX));
    assert_eq!(parse_i32("99999999999999999999999999999999"), None);
}

#[test]
fn parse_i32_refuses_what_is_no_number() {
    for text in ["", "+", "-", "--1", "+-1", "1 ", " 1", "1.0", "1e3", "0x10", "1_000", "one", "١٢"] {
        assert_eq!(parse_i32(text), None, "{:?}", text);
    }
}

#[test]
fn parse_i32_agrees_with_the_standard_parser() {
    let texts = [
        "", "0", "1", "-1", "+1", "12", "0012", "-0012", "+0", "-", "+", "2147483647",
        "2147483648", "-2147483648", "-2147483649", "21474836470", "4294967296", "a", "1a", "a1",
        "1-", "1+", "++1", " 12", "12\n", "１２", "9223372036854775807", "-9223372036854775808",
        "000000000000000000000000000000000000", "-000000000000000000000000000000000001",
    ];
    for text in texts {
        assert_eq!(parse_i32(text), text.parse::<i32>().ok(), "{:?}", text);
    }
    for n in [-100000i32, -1001, -10, -9, 9, 10, 99, 100, 65535, 123456789, i32::MAX - 1, i32::MIN + 1] {
        assert_eq!(parse_i32(&n.to_string()), Some(n));
    }
}

#[test]
fn decimal_string_writes_numbers() {
    assert_eq!(decimal_string(0), "0");
    assert_eq!(decimal_string(7), "7");
    assert_eq!(decimal_string(10), "10");
    assert_eq!(decimal_string(159), "159");
    assert_eq!(decimal_string(1000000), "1000000");
    assert_eq!(decimal_string(usize::MAX), usize::MAX.to_string());
}

#[test]
fn decimal_string_is_read_back() {
    for n in [0usize, 1, 9, 10, 11, 99, 100, 101, 4096, 65535, 2147483647] {
        assert_eq!(parse_i32(&decimal_string(n)), Some(n as i32));
    }
    assert_eq!(parse_i32(&decimal_string(2147483648)), None);
}
