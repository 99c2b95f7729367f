use web_service::number::{i32_to_text, parse_i32, ParseIntError};

#[test]
fn parses_plain_and_signed_numbers() {
    assert_eq!(parse_i32("0"), Ok(0));
    assert_eq!(parse_i32("42"), Ok(42));
    assert_eq!(parse_i32("+42"), Ok(42));
    assert_eq!(parse_i32("-42"), Ok(-42));
    assert_eq!(parse_i32("007"), Ok(7));
    assert_eq!(parse_i32("2147483647"), Ok(i32::MAX));
    assert_eq!(parse_i32("-2147483648"), Ok(i32::MIN));
}

#[test]
fn parse_errors_match_the_standard_library() {
    let cases = [
        "", "+", "-", "x", "1x", " 1", "1 ", "++1", "2147483648", "-2147483649",
        "99999999999x", "1_000", "٣", "-0", "+0",
    ];
    for c in cases {
        let expected = c.parse::<i32>();
        let got = parse_i32(c);
        match (expected, got) {
            (Ok(a), Ok(b)) => assert_eq!(a, b, "{c:?}"),
            (Err(e), Err(k)) => {
                let kind = match e.kind() {
                    std::num::IntErrorKind::Empty => ParseIntError::Empty,
                    std::num::IntErrorKind::InvalidDigit => ParseIntError::InvalidDigit,
                    std::num::IntErrorKind::PosOverflow => ParseIntError::PosOverflow,
                    std::num::IntErrorKind::NegOverflow => ParseIntError::NegOverflow,
                    _ => panic!("unexpected kind"),
                };
                assert_eq!(kind, k, "{c:?}");
                assert_eq!(e.to_string(), k.to_string(), "{c:?}");
            }
            (a, b) => panic!("{c:?}: {a:?} vs {b:?}"),
        }
    }
}

#[test]
fn overflow_kinds() {
    assert_eq!(parse_i32("2147483648"), Err(ParseIntError::PosOverflow));
    assert_eq!(parse_i32("-2147483649"), Err(ParseIntError::NegOverflow));
    assert_eq!(parse_i32("99999999999x"), Err(ParseIntError::PosOverflow));
    assert_eq!(parse_i32("12x99999999999"), Err(ParseIntError::InvalidDigit));
}

#[test]
fn writes_decimal_text() {
    assert_eq!(i32_to_text(0), "0");
    assert_eq!(i32_to_text(7), "7");
    assert_eq!(i32_to_text(1234), "1234");
    assert_eq!(i32_to_text(-56), "-56");
    assert_eq!(i32_to_text(i32::MAX), "2147483647");
    assert_eq!(i32_to_text(i32::MIN), "-2147483648");
}

#[test]
fn text_reads_back_as_the_same_number() {
    for v in [0, 1, -1, 9, 10, -10, 123456, -98765, i32::MAX, i32::MIN] {
        assert_eq!(i32_to_text(v), v.to_string());
        assert_eq!(parse_i32(&i32_to_text(v)), Ok(v));
    }
}
