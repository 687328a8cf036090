use okx_client::ws::numeric::{check_float_syntax, parse_i64, FloatParseError, IntParseError};
use std::num::IntErrorKind;

fn std_kind(s: &str) -> Result<i64, IntParseError> {
    match s.parse::<i64>() {
        Ok(v) => Ok(v),
        Err(e) => Err(match e.kind() {
            IntErrorKind::Empty => IntParseError::Empty,
            IntErrorKind::InvalidDigit => IntParseError::InvalidDigit,
            IntErrorKind::PosOverflow => IntParseError::PosOverflow,
            IntErrorKind::NegOverflow => IntParseError::NegOverflow,
            _ => panic!("unexpected kind"),
        }),
    }
}

#[test]
fn parse_i64_exact_values() {
    assert_eq!(parse_i64("1597026383085"), Ok(1597026383085));
    assert_eq!(parse_i64("-12"), Ok(-12));
    assert_eq!(parse_i64("+7"), Ok(7));
    assert_eq!(parse_i64("0"), Ok(0));
    assert_eq!(parse_i64("9223372036854775807"), Ok(i64::MAX));
    assert_eq!(parse_i64("-9223372036854775808"), Ok(i64::MIN));
}

#[test]
fn parse_i64_each_error_kind() {
    assert_eq!(parse_i64(""), Err(IntParseError::Empty));
    assert_eq!(parse_i64("-"), Err(IntParseError::InvalidDigit));
    assert_eq!(parse_i64("+"), Err(IntParseError::InvalidDigit));
    assert_eq!(parse_i64("12a"), Err(IntParseError::InvalidDigit));
    assert_eq!(parse_i64(" 1"), Err(IntParseError::InvalidDigit));
    assert_eq!(parse_i64("9223372036854775808"), Err(IntParseError::PosOverflow));
    assert_eq!(parse_i64("-9223372036854775809"), Err(IntParseError::NegOverflow));
    assert_eq!(parse_i64("99999999999999999999x"), Err(IntParseError::PosOverflow));
}

#[test]
fn parse_i64_agrees_with_std() {
    let samples = [
        "", "+", "-", "0", "-0", "+0", "00012", "1.5", "1e3", "--1", "+-1", "١", "12 ", "٣4",
        "9223372036854775806", "9223372036854775807", "9223372036854775808", "92233720368547758070",
        "-9223372036854775807", "-9223372036854775808", "-9223372036854775809",
        "-92233720368547758080", "18446744073709551616", "123456789012345678901234567890",
        "-1x", "x", "1_000", "0x10", "+123", "-123", "1234567890123456789",
    ];
    for s in samples {
        assert_eq!(parse_i64(s), std_kind(s), "input {:?}", s);
    }
    for n in [-1000i64, -1, 0, 1, 42, 1_700_000_000_000, i64::MAX - 1, i64::MIN + 1] {
        let s = n.to_string();
        assert_eq!(parse_i64(&s), Ok(n));
    }
}

#[test]
fn float_syntax_accepts_what_std_accepts() {
    let samples = [
        "", "+", "-", ".", "1", "1.", ".5", "1.5", "-1.5", "+1.5", "1e5", "1E5", "1e+5", "1e-5",
        "1.e5", ".5e5", ".e5", "e5", "1e", "1e+", "inf", "INF", "-inf", "+Infinity", "infinity",
        "infinit", "nan", "NaN", "-nan", "nan1", "1.2.3", " 1", "1 ", "0x10", "1_0", "12345.6789",
        "0.0000001", "1e400", "Inf", "iNfInItY", "1d", "--1", "1e5.5", "3.", "00.00", "1ee5",
        "٣", "1e٣",
    ];
    for s in samples {
        let std_ok = s.parse::<f64>().is_ok();
        assert_eq!(check_float_syntax(s).is_ok(), std_ok, "input {:?}", s);
    }
}

#[test]
fn float_syntax_error_kinds() {
    assert_eq!(check_float_syntax(""), Err(FloatParseError::Empty));
    assert_eq!(check_float_syntax("abc"), Err(FloatParseError::Invalid));
    assert_eq!(check_float_syntax("+"), Err(FloatParseError::Invalid));
    assert_eq!(check_float_syntax("8533.02"), Ok(()));
}
