use nasa_api::decimal::{parse_u32, u32_to_string};

#[test]
fn numerals_are_written_like_to_string() {
    for n in [0u32, 1, 9, 10, 99, 100, 4096, 65535, 1000000, u32::MAX] {
        assert_eq!(u32_to_string(n), n.to_string());
    }
}

#[test]
fn numerals_are_read_like_str_parse() {
    let cases = [
        "", "+", "-", "0", "00", "+0", "-0", "7", "+7", "-7", "42", "0042", "4294967295",
        "4294967296", "99999999999", "1 ", " 1", "1a", "++1", "+-1", "١",
    ];
    for c in cases {
        assert_eq!(parse_u32(c), c.parse::<u32>().ok(), "{:?}", c);
    }
}

#[test]
fn numeral_roundtrip() {
    for n in [0u32, 5, 10, 123, 65536, u32::MAX - 1, u32::MAX] {
        assert_eq!(parse_u32(&u32_to_string(n)), Some(n));
    }
}
