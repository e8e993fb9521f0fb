use pruning_args::decimal::{parse_u64, IntErrorKind};

fn kind(s: &str) -> IntErrorKind {
    parse_u64(s).unwrap_err().kind()
}

#[test]
fn parses_decimal_numbers() {
    assert_eq!(parse_u64("0"), Ok(0));
    assert_eq!(parse_u64("1000"), Ok(1000));
    assert_eq!(parse_u64("+17"), Ok(17));
    assert_eq!(parse_u64("007"), Ok(7));
    assert_eq!(parse_u64("18446744073709551615"), Ok(u64::MAX));
}

#[test]
fn rejects_as_std_does() {
    for s in ["", "+", "-", "-1", "1-", " 1", "1 ", "1_000", "١", "++1", "0x10"] {
        assert_eq!(parse_u64(s).map_err(|e| e.kind()), s.parse::<u64>().map_err(|e| match e.kind() {
            std::num::IntErrorKind::Empty => IntErrorKind::Empty,
            std::num::IntErrorKind::InvalidDigit => IntErrorKind::InvalidDigit,
            std::num::IntErrorKind::PosOverflow => IntErrorKind::PosOverflow,
            _ => unreachable!(),
        }), "{s:?}");
    }
    assert_eq!(kind(""), IntErrorKind::Empty);
    assert_eq!(kind("+"), IntErrorKind::InvalidDigit);
    assert_eq!(kind("-5"), IntErrorKind::InvalidDigit);
    assert_eq!(kind("18446744073709551616"), IntErrorKind::PosOverflow);
    assert_eq!(kind("99999999999999999999x"), IntErrorKind::PosOverflow);
    assert_eq!(kind("1844674407370955161x"), IntErrorKind::InvalidDigit);
}

#[test]
fn agrees_with_std_on_a_range_of_inputs() {
    let samples = [
        "1", "12", "123456789", "4294967296", "18446744073709551614", "18446744073709551620",
        "184467440737095516150", "+0", "+18446744073709551615", "1e3", "12a", "a12",
    ];
    for s in samples {
        let std = s.parse::<u64>().map_err(|e| format!("{:?}", e.kind()));
        let ours = parse_u64(s).map_err(|e| format!("{:?}", e.kind()));
        assert_eq!(ours, std, "{s:?}");
    }
    for n in [0u64, 9, 10, 99, 100, 12345, u64::MAX / 10, u64::MAX] {
        assert_eq!(parse_u64(&n.to_string()), Ok(n));
    }
}
