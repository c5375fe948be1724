use rollback::decimal::{parse_version, version_text};
use rollback::text::chars_of;

#[test]
fn version_text_of_small_numbers() {
    assert_eq!(version_text(0), chars_of("0"));
    assert_eq!(version_text(7), chars_of("7"));
    assert_eq!(version_text(10), chars_of("10"));
    assert_eq!(version_text(42), chars_of("42"));
    assert_eq!(version_text(20240131120000), chars_of("20240131120000"));
}

#[test]
fn version_text_of_negative_numbers() {
    assert_eq!(version_text(-1), chars_of("-1"));
    assert_eq!(version_text(-120), chars_of("-120"));
}

#[test]
fn version_text_at_the_limits() {
    assert_eq!(version_text(i64::MAX), chars_of("9223372036854775807"));
    assert_eq!(version_text(i64::MIN), chars_of("-9223372036854775808"));
}

#[test]
fn version_text_agrees_with_the_standard_library() {
    for version in [0i64, 1, 9, 10, 99, 100, 12345, -5, -10, i64::MAX, i64::MIN] {
        assert_eq!(version_text(version), chars_of(&version.to_string()));
    }
}

#[test]
fn parse_version_reads_digits() {
    assert_eq!(parse_version(&chars_of("0")), Some(0));
    assert_eq!(parse_version(&chars_of("42")), Some(42));
    assert_eq!(parse_version(&chars_of("20240131120000")), Some(20240131120000));
}

#[test]
fn parse_version_accepts_leading_zeros() {
    assert_eq!(parse_version(&chars_of("007")), Some(7));
    assert_eq!(parse_version(&chars_of("0000")), Some(0));
}

#[test]
fn parse_version_rejects_what_is_no_run_of_digits() {
    assert_eq!(parse_version(&chars_of("")), None);
    assert_eq!(parse_version(&chars_of("12a")), None);
    assert_eq!(parse_version(&chars_of("-3")), None);
    assert_eq!(parse_version(&chars_of("+3")), None);
    assert_eq!(parse_version(&chars_of(" 3")), None);
    assert_eq!(parse_version(&chars_of("٣")), None);
}

#[test]
fn parse_version_stops_at_the_largest_version() {
    assert_eq!(parse_version(&chars_of("9223372036854775807")), Some(i64::MAX));
    assert_eq!(parse_version(&chars_of("9223372036854775808")), None);
    assert_eq!(parse_version(&chars_of("99999999999999999999999")), None);
    assert_eq!(parse_version(&chars_of("0009223372036854775807")), Some(i64::MAX));
}
