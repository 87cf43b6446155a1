use leaderboard::params::parse_u32;
use leaderboard::text::u64_dec_string;

#[test]
fn parses_plain_numbers() {
    assert_eq!(parse_u32("0"), Some(0));
    assert_eq!(parse_u32("42"), Some(42));
    assert_eq!(parse_u32("4294967295"), Some(u32::MAX));
}

#[test]
fn accepts_leading_zeros() {
    assert_eq!(parse_u32("007"), Some(7));
    assert_eq!(parse_u32("00"), Some(0));
}

#[test]
fn rejects_empty_and_signs() {
    assert_eq!(parse_u32(""), None);
    assert_eq!(parse_u32("-1"), None);
    assert_eq!(parse_u32("+1"), None);
}

#[test]
fn rejects_non_digits() {
    assert_eq!(parse_u32("1a"), None);
    assert_eq!(parse_u32("a1"), None);
    assert_eq!(parse_u32("1.5"), None);
    assert_eq!(parse_u32(" 1"), None);
}

#[test]
fn rejects_overflow() {
    assert_eq!(parse_u32("4294967296"), None);
    assert_eq!(parse_u32("99999999999999999999"), None);
}

#[test]
fn renders_decimal_strings() {
    assert_eq!(u64_dec_string(0), "0");
    assert_eq!(u64_dec_string(9), "9");
    assert_eq!(u64_dec_string(10), "10");
    assert_eq!(u64_dec_string(1234567890123), "1234567890123");
    assert_eq!(u64_dec_string(u64::MAX), "18446744073709551615");
}

#[test]
fn parse_inverts_rendering() {
    for n in [0u64, 1, 7, 10, 99, 100, 4294967295] {
        assert_eq!(parse_u32(&u64_dec_string(n)), Some(n as u32));
    }
}
