use nasa_api::Date;

fn date(year: u32, month: u8, day: u8) -> Date {
    Date { year, month, day }
}

#[test]
fn date_is_written_yyyy_mm_dd() {
    assert_eq!(date(2015, 9, 7).to_string(), "2015-09-07");
    assert_eq!(date(1995, 12, 31).to_string(), "1995-12-31");
    assert_eq!(date(0, 0, 0).to_string(), "0000-00-00");
    assert_eq!(date(7, 1, 2).to_string(), "0007-01-02");
}

#[test]
fn wide_fields_are_not_cut() {
    assert_eq!(date(12345, 123, 255).to_string(), "12345-123-255");
    assert_eq!(date(u32::MAX, 255, 9).to_string(), "4294967295-255-09");
}

#[test]
fn date_is_read_back() {
    assert_eq!(Date::parse("2015-09-07"), Some(date(2015, 9, 7)));
    assert_eq!(Date::parse("1995-06-16"), Some(date(1995, 6, 16)));
}

#[test]
fn date_roundtrip() {
    for d in [
        date(2015, 9, 7),
        date(0, 0, 0),
        date(u32::MAX, 255, 255),
        date(10, 10, 10),
        date(999, 9, 99),
    ] {
        let text = d.to_string();
        assert_eq!(Date::parse(&text), Some(d));
    }
}

#[test]
fn parse_is_loose() {
    // No padding needed, extra pieces after a third dash ignored, `+` allowed.
    assert_eq!(Date::parse("2015-9-7"), Some(date(2015, 9, 7)));
    assert_eq!(Date::parse("2015-09-07-12:00"), Some(date(2015, 9, 7)));
    assert_eq!(Date::parse("+2015-+09-07"), Some(date(2015, 9, 7)));
    assert_eq!(Date::parse("00002015-009-0007"), Some(date(2015, 9, 7)));
}

#[test]
fn parse_refuses_what_does_not_read() {
    assert_eq!(Date::parse("2015-09"), None);
    assert_eq!(Date::parse("20150907"), None);
    assert_eq!(Date::parse(""), None);
    assert_eq!(Date::parse("--"), None);
    assert_eq!(Date::parse("2015-09-"), None);
    assert_eq!(Date::parse("2015-256-01"), None);
    assert_eq!(Date::parse("2015-09-1x"), None);
    assert_eq!(Date::parse("2015 -09-07"), None);
    assert_eq!(Date::parse("4294967296-01-01"), None);
    assert_eq!(Date::parse("-2015-09-07"), None);
    assert_eq!(Date::parse("2015-+-07"), None);
    assert_eq!(Date::parse("２０１５-09-07"), None);
}

#[test]
fn parse_agrees_with_str_parse() {
    let cases = ["1-2-3", "99-255-0", "0-0-0", "1-256-3", "a-1-1", "1-1-+", "+1-+1-+1", "1--1"];
    for c in cases {
        let parts: Vec<&str> = c.split('-').collect();
        let expected = match (
            parts[0].parse::<u32>(),
            parts[1].parse::<u8>(),
            parts[2].parse::<u8>(),
        ) {
            (Ok(year), Ok(month), Ok(day)) => Some(Date { year, month, day }),
            _ => None,
        };
        assert_eq!(Date::parse(c), expected, "{}", c);
    }
}
