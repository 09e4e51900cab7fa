//! Times in ISO 8601.

use pg_ha::schedule::{is_due, parse_moment};

fn seconds(s: &str) -> Option<i64> {
    parse_moment(s).map(|m| m.seconds())
}

#[test]
fn test_moments_in_seconds() {
    assert_eq!(seconds("1970-01-01T00:00:00Z"), Some(0));
    assert_eq!(seconds("2000-03-01T00:00:00Z"), Some(951_868_800));
    assert_eq!(seconds("2024-02-29T12:34:56Z"), Some(1_709_210_096));
    assert_eq!(seconds("2030-01-01T00:00:00Z"), Some(1_893_456_000));
    assert_eq!(seconds("1969-12-31T23:59:59Z"), Some(-1));
    assert_eq!(seconds("0001-01-01T00:00:00Z"), Some(-62_135_596_800));
}

#[test]
fn test_forms_of_a_moment() {
    assert_eq!(seconds("2030-01-01T00:00"), Some(1_893_456_000));
    assert_eq!(seconds("2030-01-01T00:00Z"), Some(1_893_456_000));
    assert_eq!(seconds("2030-01-01T00:00:01"), Some(1_893_456_001));
    assert_eq!(seconds("2030-01-01T00:00:01.999Z"), Some(1_893_456_001));
    assert_eq!(seconds("2030-01-01T01:30:00+01:30"), Some(1_893_456_000));
    assert_eq!(seconds("2029-12-31T19:00:00.5-05:00"), Some(1_893_456_000));
}

#[test]
fn test_what_is_no_moment() {
    for s in [
        "",
        "tomorrow",
        "2030-01-01",
        "2030-01-01 00:00:00",
        "2030-13-01T00:00:00Z",
        "2030-00-01T00:00:00Z",
        "2030-04-31T00:00:00Z",
        "2100-02-29T00:00:00Z",
        "2030-01-00T00:00:00Z",
        "2030-01-01T24:00:00Z",
        "2030-01-01T00:60:00Z",
        "2030-01-01T00:00:60Z",
        "2030-01-01T00:00:0",
        "2030-01-01T00:00:00.Z",
        "2030-01-01T00:00:00+24:00",
        "2030-01-01T00:00:00+0100",
        "2030-01-01T00:00:00ZZ",
        "0000-01-01T00:00:00Z",
    ] {
        assert_eq!(parse_moment(s), None, "{s}");
    }
}

#[test]
fn test_every_day_follows_the_one_before() {
    let mut last = seconds("1999-12-31T00:00:00Z").unwrap();
    for year in 2000..2005 {
        for month in 1..=12 {
            for day in 1..=31 {
                if let Some(s) = seconds(&format!("{year}-{month:02}-{day:02}T00:00:00Z")) {
                    assert_eq!(s, last + 86_400);
                    last = s;
                }
            }
        }
    }
}

#[test]
fn test_times_come() {
    assert!(!is_due("2030-01-01T00:00:00Z", 1_893_455_999));
    assert!(is_due("2030-01-01T00:00:00Z", 1_893_456_000));
    assert!(is_due("1960-01-01T00:00:00Z", 0));
    assert!(!is_due("never", u64::MAX));
}
