use serverlist_bot::decimal::{as_signed, as_unsigned, i64_text, parse_i64, u64_text, IntErrorKind};

fn std_kind(s: &str) -> Result<i64, IntErrorKind> {
    match s.parse::<i64>() {
        Ok(v) => Ok(v),
        Err(e) => Err(match e.kind() {
            std::num::IntErrorKind::Empty => IntErrorKind::Empty,
            std::num::IntErrorKind::InvalidDigit => IntErrorKind::InvalidDigit,
            std::num::IntErrorKind::PosOverflow => IntErrorKind::PosOverflow,
            std::num::IntErrorKind::NegOverflow => IntErrorKind::NegOverflow,
            _ => panic!("unexpected kind"),
        }),
    }
}

#[test]
fn parse_matches_std_on_samples() {
    let samples = [
        "", "+", "-", "0", "-0", "+0", "7", "+42", "-42", "007", "12a", "a12", " 1", "1 ",
        "9223372036854775807", "9223372036854775808", "-9223372036854775808",
        "-9223372036854775809", "99999999999999999999", "-99999999999999999999",
        "99999999999999999999x", "1x99999999999999999999", "--1", "+-1", "١٢", "12.5",
        "184467440737095516150",
    ];
    for s in samples.iter() {
        assert_eq!(parse_i64(s), std_kind(s), "input {:?}", s);
    }
}

#[test]
fn parse_error_kinds() {
    assert_eq!(parse_i64(""), Err(IntErrorKind::Empty));
    assert_eq!(parse_i64("-"), Err(IntErrorKind::InvalidDigit));
    assert_eq!(parse_i64("9223372036854775808"), Err(IntErrorKind::PosOverflow));
    assert_eq!(parse_i64("-9223372036854775809"), Err(IntErrorKind::NegOverflow));
    assert_eq!(parse_i64("99999999999999999999x"), Err(IntErrorKind::PosOverflow));
}

#[test]
fn decimal_text_matches_std() {
    for v in [0i64, 1, -1, 9, 10, -10, 123456789, i64::MAX, i64::MIN] {
        assert_eq!(i64_text(v), v.to_string());
    }
    for v in [0u64, 5, 10, 99, 100, 18446744073709551615] {
        assert_eq!(u64_text(v), v.to_string());
    }
}

#[test]
fn decimal_round_trip() {
    for v in [0i64, 7, -7, 1234567890123, -987654321, i64::MAX, i64::MIN] {
        assert_eq!(parse_i64(&i64_text(v)), Ok(v));
    }
}

#[test]
fn bit_casts_match_as() {
    for a in [0u64, 1, 9223372036854775807, 9223372036854775808, u64::MAX] {
        assert_eq!(as_signed(a), a as i64);
    }
    for i in [0i64, 1, -1, i64::MAX, i64::MIN] {
        assert_eq!(as_unsigned(i), i as u64);
    }
}
