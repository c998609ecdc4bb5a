use leaderboard_lambda::digits::{format_dec, parse_dec};

#[test]
fn format_zero() {
    assert_eq!(format_dec(0), "0");
}

#[test]
fn format_plain_numbers() {
    assert_eq!(format_dec(7), "7");
    assert_eq!(format_dec(42), "42");
    assert_eq!(format_dec(120), "120");
    assert_eq!(format_dec(1000), "1000");
}

#[test]
fn format_u32_limit() {
    assert_eq!(format_dec(4294967295), "4294967295");
}

#[test]
fn parse_plain_digits() {
    assert_eq!(parse_dec("42", u64::MAX), Some(42));
    assert_eq!(parse_dec("0", u64::MAX), Some(0));
}

#[test]
fn parse_leading_plus() {
    assert_eq!(parse_dec("+42", u64::MAX), Some(42));
}

#[test]
fn parse_leading_zeros() {
    assert_eq!(parse_dec("042", u64::MAX), Some(42));
    assert_eq!(parse_dec("000", u64::MAX), Some(0));
}

#[test]
fn parse_rejects_empty() {
    assert_eq!(parse_dec("", u64::MAX), None);
    assert_eq!(parse_dec("+", u64::MAX), None);
}

#[test]
fn parse_rejects_stray_characters() {
    assert_eq!(parse_dec("12a", u64::MAX), None);
    assert_eq!(parse_dec("1 2", u64::MAX), None);
    assert_eq!(parse_dec("-1", u64::MAX), None);
    assert_eq!(parse_dec("1.5", u64::MAX), None);
    assert_eq!(parse_dec("x", u64::MAX), None);
}

#[test]
fn parse_respects_bound() {
    let max = u32::MAX as u64;
    assert_eq!(parse_dec("4294967295", max), Some(4294967295));
    assert_eq!(parse_dec("4294967296", max), None);
    assert_eq!(parse_dec("99999999999999999999", max), None);
}

#[test]
fn parse_bound_zero() {
    assert_eq!(parse_dec("0", 0), Some(0));
    assert_eq!(parse_dec("1", 0), None);
}

#[test]
fn round_trip_exact() {
    for n in [0u64, 1, 9, 10, 99, 100, 42, 120, 4294967295] {
        assert_eq!(parse_dec(&format_dec(n), u64::MAX), Some(n));
    }
}
