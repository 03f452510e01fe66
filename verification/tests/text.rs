use lifelog_audio_compression::text::{decimal_text, hex_text, parse_unsigned_text, IntParseError};

const NUMBERS: &[&str] = &[
    "", "+", "-", "0", "00", "+0", "-0", "42", "+42", "-42", "4x2", " 42", "42 ", "4294967295",
    "4294967296", "18446744073709551615", "18446744073709551616", "99999999999999999999x", "x99",
    "١٢", "1_000",
];

#[test]
fn parse_u64_matches_std() {
    for s in NUMBERS {
        let mine = parse_unsigned_text(s, u64::MAX);
        match s.parse::<u64>() {
            Ok(v) => assert_eq!(mine, Ok(v), "{s:?}"),
            Err(e) => {
                let m = mine.unwrap_err();
                assert_eq!(m.message(), e.to_string(), "{s:?}");
            }
        }
    }
}

#[test]
fn parse_u32_matches_std() {
    for s in NUMBERS {
        let mine = parse_unsigned_text(s, u32::MAX as u64);
        match s.parse::<u32>() {
            Ok(v) => assert_eq!(mine, Ok(v as u64), "{s:?}"),
            Err(e) => assert_eq!(mine.unwrap_err().message(), e.to_string(), "{s:?}"),
        }
    }
}

#[test]
fn parse_errors_have_their_kinds() {
    assert_eq!(parse_unsigned_text("", u64::MAX), Err(IntParseError::Empty));
    assert_eq!(parse_unsigned_text("12a", u64::MAX), Err(IntParseError::InvalidDigit));
    assert_eq!(parse_unsigned_text("4294967296", u32::MAX as u64), Err(IntParseError::PosOverflow));
}

#[test]
fn decimal_and_hex_match_std() {
    for n in [0u64, 1, 9, 10, 16000, 123456789, u64::MAX] {
        assert_eq!(decimal_text(n), n.to_string());
    }
    for n in [0u128, 9, 10, 15, 16, 255, 1_700_000_000_000, u128::MAX] {
        assert_eq!(hex_text(n), format!("{n:x}"));
    }
}
