use iron_gcd::decimal::parse_u64;
use iron_gcd::decimal::u64_to_string;
use iron_gcd::gcd::gcd;
use iron_gcd::gcd::gcd_of_list;

#[test]
fn gcd_known_values() {
    assert_eq!(gcd(12, 18), 6);
    assert_eq!(gcd(17, 5), 1);
    assert_eq!(gcd(1, 1), 1);
    assert_eq!(gcd(u64::MAX, u64::MAX), u64::MAX);
}

#[test]
fn gcd_is_symmetric() {
    assert_eq!(gcd(12, 18), gcd(18, 12));
    assert_eq!(gcd(17, 5), gcd(5, 17));
    assert_eq!(gcd(1000000007, 998244353), gcd(998244353, 1000000007));
}

#[test]
fn gcd_of_a_number_with_itself() {
    assert_eq!(gcd(7, 7), 7);
    assert_eq!(gcd(123456789, 123456789), 123456789);
}

#[test]
fn gcd_of_list_reduces_left_to_right() {
    assert_eq!(gcd_of_list(&vec![12, 18]), 6);
    assert_eq!(gcd_of_list(&vec![12, 18, 8]), 2);
    assert_eq!(gcd_of_list(&vec![9]), 9);
    assert_eq!(gcd_of_list(&vec![0]), 0);
}

#[test]
fn parse_accepts_plain_and_signed_digits() {
    assert_eq!(parse_u64("12"), Some(12));
    assert_eq!(parse_u64("+7"), Some(7));
    assert_eq!(parse_u64("0"), Some(0));
    assert_eq!(parse_u64("007"), Some(7));
    assert_eq!(parse_u64("18446744073709551615"), Some(u64::MAX));
}

#[test]
fn parse_rejects_what_is_not_a_u64() {
    assert_eq!(parse_u64(""), None);
    assert_eq!(parse_u64("+"), None);
    assert_eq!(parse_u64("abc"), None);
    assert_eq!(parse_u64("-3"), None);
    assert_eq!(parse_u64(" 12"), None);
    assert_eq!(parse_u64("12 "), None);
    assert_eq!(parse_u64("1.5"), None);
    assert_eq!(parse_u64("18446744073709551616"), None);
}

#[test]
fn parse_agrees_with_std_on_a_sample() {
    for s in ["", "+", "9", "+42", "99999999999999999999", "4e2", "½"] {
        assert_eq!(parse_u64(s), s.parse::<u64>().ok(), "on {:?}", s);
    }
}

#[test]
fn renders_decimal_text() {
    assert_eq!(u64_to_string(0), "0");
    assert_eq!(u64_to_string(6), "6");
    assert_eq!(u64_to_string(12345), "12345");
    assert_eq!(u64_to_string(u64::MAX), "18446744073709551615");
}
