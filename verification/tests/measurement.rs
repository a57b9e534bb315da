use hydroponics::tasks::measurement::Measurement;
use hydroponics::text::{ascii_bytes, bytes_eq, find_byte, push_bytes, push_decimal};

/// The reading that `text` parses to, where it is a whole number of
/// thousandths.
fn parsed(text: &str) -> Option<i32> {
    Measurement::parse(text.as_bytes()).map(|reading| {
        assert!(!reading.excess, "{:?}", text);
        reading.thousandths
    })
}

/// The reading that `text` parses to, with its excess.
fn parsed_with_excess(text: &str) -> Option<(i32, bool)> {
    Measurement::parse(text.as_bytes()).map(|reading| (reading.thousandths, reading.excess))
}

fn printed(thousandths: i32) -> String {
    let mut out = Vec::new();
    Measurement { thousandths, excess: false }.push_two_decimals(&mut out);
    String::from_utf8(out).unwrap()
}

fn printed_with_excess(thousandths: i32) -> String {
    let mut out = Vec::new();
    Measurement { thousandths, excess: true }.push_two_decimals(&mut out);
    String::from_utf8(out).unwrap()
}

#[test]
fn parses_plain_numerals() {
    assert_eq!(parsed("7.4"), Some(7_400));
    assert_eq!(parsed("7.402"), Some(7_402));
    assert_eq!(parsed("1200.0"), Some(1_200_000));
    assert_eq!(parsed("1413"), Some(1_413_000));
    assert_eq!(parsed("0.07"), Some(70));
    assert_eq!(parsed("0"), Some(0));
    assert_eq!(parsed("007.40"), Some(7_400));
}

#[test]
fn parses_signs() {
    assert_eq!(parsed("-0.004"), Some(-4));
    assert_eq!(parsed("+3"), Some(3_000));
    assert_eq!(parsed("-12.5"), Some(-12_500));
    assert_eq!(parsed("-0"), Some(0));
}

#[test]
fn parses_numerals_with_one_part_missing() {
    assert_eq!(parsed(".5"), Some(500));
    assert_eq!(parsed("5."), Some(5_000));
    assert_eq!(parsed("-.25"), Some(-250));
}

#[test]
fn refuses_what_is_no_numeral() {
    for text in [
        "", "-", "+", ".", "-.", "abc", "7,4", "7.4.1", "1e3", "7.4 ", " 7.4", "7.4\u{0}", "--7",
        "+-7", "7-", "NaN", "inf", "٧",
    ] {
        assert_eq!(parsed(text), None, "{:?}", text);
    }
}

#[test]
fn keeps_zeros_after_the_third_decimal_exact() {
    assert_eq!(parsed("7.4000"), Some(7_400));
    assert_eq!(parsed("1100.0000"), Some(1_100_000));
    assert_eq!(parsed("7.400"), Some(7_400));
    assert_eq!(parsed("-5.30000000000000000000000000000000000000000000"), Some(-5_300));
    assert_eq!(parsed(".0000"), Some(0));
}

#[test]
fn marks_what_lies_beyond_the_third_decimal() {
    assert_eq!(parsed_with_excess("7.4004"), Some((7_400, true)));
    assert_eq!(parsed_with_excess("7.4021"), Some((7_402, true)));
    assert_eq!(parsed_with_excess("1.2345"), Some((1_234, true)));
    assert_eq!(parsed_with_excess("5.2999"), Some((5_299, true)));
    assert_eq!(parsed_with_excess("7.40000000000000000001"), Some((7_400, true)));
    assert_eq!(parsed_with_excess("7.40010"), Some((7_400, true)));
    assert_eq!(parsed_with_excess("0.0009"), Some((0, true)));
    assert_eq!(parsed_with_excess("7.4"), Some((7_400, false)));
}

#[test]
fn takes_the_thousandths_under_a_value_below_zero() {
    assert_eq!(parsed_with_excess("-0.0004"), Some((-1, true)));
    assert_eq!(parsed_with_excess("-7.4004"), Some((-7_401, true)));
    assert_eq!(parsed_with_excess("-7.4000"), Some((-7_400, false)));
    assert_eq!(parsed_with_excess("-0.0000"), Some((0, false)));
}

#[test]
fn refuses_what_is_no_digit_after_the_third_decimal() {
    assert_eq!(parsed_with_excess("7.4000x"), None);
    assert_eq!(parsed_with_excess("7.4000 "), None);
    assert_eq!(parsed_with_excess("7.4000.1"), None);
    assert_eq!(parsed_with_excess("7.40001e3"), None);
}

#[test]
fn keeps_to_the_range_of_a_reading() {
    assert_eq!(parsed("2147483.647"), Some(i32::MAX));
    assert_eq!(parsed("2147483.648"), None);
    assert_eq!(parsed("-2147483.648"), Some(i32::MIN));
    assert_eq!(parsed("-2147483.649"), None);
    assert_eq!(parsed("2147484"), None);
    assert_eq!(parsed("99999999999999999999999999999999999999"), None);
    assert_eq!(parsed("000000000000000000000000000000000001.5"), Some(1_500));
    assert_eq!(parsed_with_excess("2147483.6479"), Some((i32::MAX, true)));
    assert_eq!(parsed_with_excess("2147483.6480"), None);
    assert_eq!(parsed_with_excess("-2147483.6479"), Some((i32::MIN, true)));
    assert_eq!(parsed_with_excess("-2147483.6480"), Some((i32::MIN, false)));
    assert_eq!(parsed_with_excess("-2147483.6481"), None);
}

#[test]
fn compares_the_reading_as_it_was_sent() {
    let at = Measurement { thousandths: 7_400, excess: false };
    let over = Measurement { thousandths: 7_400, excess: true };
    let under = Measurement { thousandths: 7_399, excess: true };
    assert!(!at.exceeds(7_400));
    assert!(over.exceeds(7_400));
    assert!(!under.exceeds(7_400));
    assert!(!at.falls_below(7_400));
    assert!(!over.falls_below(7_400));
    assert!(under.falls_below(7_400));
    assert!(at.exceeds(7_399));
    assert!(at.falls_below(7_401));
    assert!(over.falls_below(7_401));
    assert!(Measurement { thousandths: -1, excess: true }.falls_below(0));
}

#[test]
fn prints_two_decimals() {
    assert_eq!(printed(7_400), "7.40");
    assert_eq!(printed(1_200_000), "1200.00");
    assert_eq!(printed(0), "0.00");
    assert_eq!(printed(70), "0.07");
    assert_eq!(printed(5), "0.00");
    assert_eq!(printed(-12_500), "-12.50");
}

#[test]
fn rounds_to_the_nearest_hundredth() {
    assert_eq!(printed(7_404), "7.40");
    assert_eq!(printed(7_406), "7.41");
    assert_eq!(printed(999), "1.00");
    assert_eq!(printed(9_996), "10.00");
    assert_eq!(printed(-7_406), "-7.41");
}

#[test]
fn rounds_halves_to_even() {
    assert_eq!(printed(7_405), "7.40");
    assert_eq!(printed(7_415), "7.42");
    assert_eq!(printed(125), "0.12");
    assert_eq!(printed(375), "0.38");
    assert_eq!(printed(-125), "-0.12");
    assert_eq!(printed(15), "0.02");
}

#[test]
fn rounds_up_what_lies_beyond_a_half() {
    assert_eq!(printed_with_excess(7_405), "7.41");
    assert_eq!(printed_with_excess(7_415), "7.42");
    assert_eq!(printed_with_excess(7_404), "7.40");
    assert_eq!(printed_with_excess(7_406), "7.41");
    assert_eq!(printed_with_excess(125), "0.13");
    assert_eq!(printed_with_excess(-7_406), "-7.41");
    assert_eq!(printed_with_excess(-7_405), "-7.40");
    assert_eq!(printed_with_excess(-7_407), "-7.41");
    assert_eq!(printed_with_excess(-1), "-0.00");
    assert_eq!(printed_with_excess(i32::MAX), "2147483.65");
    assert_eq!(printed_with_excess(i32::MIN), "-2147483.65");
}

#[test]
fn keeps_the_sign_of_what_rounds_to_zero() {
    assert_eq!(printed(-4), "-0.00");
    assert_eq!(printed(4), "0.00");
}

#[test]
fn prints_the_ends_of_the_range() {
    assert_eq!(printed(i32::MAX), "2147483.65");
    assert_eq!(printed(i32::MIN), "-2147483.65");
    assert!(printed(i32::MIN).len() <= 11);
}

#[test]
fn printing_appends() {
    let mut out = b"low, ".to_vec();
    Measurement { thousandths: 4_900, excess: false }.push_two_decimals(&mut out);
    assert_eq!(out, b"low, 4.90");
}

#[test]
fn decimal_numerals() {
    for (n, text) in [(0u32, "0"), (7, "7"), (10, "10"), (13, "13"), (4_294_967_295, "4294967295")]
    {
        let mut out = Vec::new();
        push_decimal(&mut out, n);
        assert_eq!(out, text.as_bytes());
    }
}

#[test]
fn byte_helpers() {
    assert_eq!(ascii_bytes("GET"), b"GET");
    assert!(bytes_eq(b"GET", b"GET"));
    assert!(!bytes_eq(b"GET", b"GEt"));
    assert!(!bytes_eq(b"GET", b"GETS"));
    assert!(bytes_eq(b"", b""));
    assert_eq!(find_byte(b"GET / HTTP", 0, b' '), 3);
    assert_eq!(find_byte(b"GET / HTTP", 4, b' '), 5);
    assert_eq!(find_byte(b"GET", 0, b' '), 3);
    assert_eq!(find_byte(b"GET", 3, b' '), 3);
    let mut out = b"ab".to_vec();
    push_bytes(&mut out, b"cd");
    assert_eq!(out, b"abcd");
}
