use osm_tile_downloader::decimal::{parse_decimal, to_decimal};

#[test]
fn decimal_of_small_and_large_numbers() {
    assert_eq!(to_decimal(0), "0");
    assert_eq!(to_decimal(9), "9");
    assert_eq!(to_decimal(10), "10");
    assert_eq!(to_decimal(1234567890), "1234567890");
    assert_eq!(to_decimal(u64::MAX), "18446744073709551615");
}

#[test]
fn decimal_agrees_with_the_standard_library() {
    let mut n: u64 = 1;
    for _ in 0..200 {
        assert_eq!(to_decimal(n), n.to_string());
        assert_eq!(to_decimal(n - 1), (n - 1).to_string());
        n = n.wrapping_mul(6364136223846793005).wrapping_add(1442695040888963407) | 1;
    }
}

#[test]
fn parse_plain_numbers() {
    assert_eq!(parse_decimal("0", u64::MAX), Some(0));
    assert_eq!(parse_decimal("42", u64::MAX), Some(42));
    assert_eq!(parse_decimal("007", u64::MAX), Some(7));
    assert_eq!(parse_decimal("+5", u64::MAX), Some(5));
    assert_eq!(parse_decimal("18446744073709551615", u64::MAX), Some(u64::MAX));
    assert_eq!(parse_decimal("00000000000000000000000000000000000001", u64::MAX), Some(1));
}

#[test]
fn parse_rejects_what_is_no_number() {
    for text in ["", "+", "-", "-1", "++1", "1+", " 1", "1 ", "1.0", "1e3", "0x10", "1_000", "abc", "\u{663}", "1\u{663}", "+\u{e9}"] {
        assert_eq!(parse_decimal(text, u64::MAX), None, "{:?}", text);
    }
}

#[test]
fn parse_rejects_numbers_above_the_limit() {
    assert_eq!(parse_decimal("255", 255), Some(255));
    assert_eq!(parse_decimal("256", 255), None);
    assert_eq!(parse_decimal("18446744073709551616", u64::MAX), None);
    assert_eq!(parse_decimal("184467440737095516150", u64::MAX), None);
    assert_eq!(parse_decimal("99999999999999999999999999", u64::MAX), None);
    assert_eq!(parse_decimal("0", 0), Some(0));
    assert_eq!(parse_decimal("1", 0), None);
}

#[test]
fn parse_agrees_with_the_standard_library() {
    let texts = [
        "", "+", "-", "0", "+0", "-0", "1", "+1", "-1", "00", "0123", "255", "256", "65535",
        "4294967295", "4294967296", "18446744073709551615", "18446744073709551616",
        "+18446744073709551615", "1 ", " 1", "1a", "a1", "١٢٣", "1.5", "++1", "+-1", "1e5",
    ];
    for text in texts {
        assert_eq!(parse_decimal(text, u64::MAX), text.parse::<u64>().ok(), "{:?}", text);
        assert_eq!(
            parse_decimal(text, 255),
            text.parse::<u8>().ok().map(u64::from),
            "{:?}",
            text
        );
    }
}
