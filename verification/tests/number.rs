use playerctl_rust_wrapper::number::digit_of;
use playerctl_rust_wrapper::number::parse_u64;
use playerctl_rust_wrapper::text::chars_of;

fn parse(text: &str) -> Option<u64> {
    parse_u64(&chars_of(text))
}

#[test]
fn digits_have_their_value() {
    assert_eq!(digit_of('0'), Some(0));
    assert_eq!(digit_of('7'), Some(7));
    assert_eq!(digit_of('9'), Some(9));
    assert_eq!(digit_of('/'), None);
    assert_eq!(digit_of(':'), None);
    assert_eq!(digit_of('a'), None);
    assert_eq!(digit_of('٣'), None);
}

#[test]
fn numbers_are_read_in_base_ten() {
    assert_eq!(parse("0"), Some(0));
    assert_eq!(parse("12345"), Some(12345));
    assert_eq!(parse("5000000"), Some(5_000_000));
    assert_eq!(parse("007"), Some(7));
    assert_eq!(parse("+42"), Some(42));
}

#[test]
fn numbers_reach_the_largest_u64() {
    assert_eq!(parse("18446744073709551615"), Some(u64::MAX));
    assert_eq!(parse("0000000000000000000018446744073709551615"), Some(u64::MAX));
    assert_eq!(parse("18446744073709551616"), None);
    assert_eq!(parse("18446744073709551620"), None);
    assert_eq!(parse("99999999999999999999"), None);
    assert_eq!(parse("100000000000000000000"), None);
}

#[test]
fn what_is_no_number_is_refused() {
    for text in ["", "+", "-", "-1", "-0", "++1", "+-1", "abc", "12a", "a12", " 12", "12 ", "1 2", "1.5",
        "1e3", "0x10", "١٢"]
    {
        assert_eq!(parse(text), None);
    }
}

#[test]
fn parse_agrees_with_std() {
    for text in ["", "+", "-", "0", "+0", "-0", "1", "+1", "-1", "00", "18446744073709551615",
        "18446744073709551616", "+18446744073709551615", "1_000", " 1", "1 ", "٣", "12345678901234567890123"]
    {
        assert_eq!(parse(text), text.parse::<u64>().ok());
    }
}
