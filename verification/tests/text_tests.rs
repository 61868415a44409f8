use meeting_indexer::coords::parse_coord_micro;
use meeting_indexer::text::{chars_of, contains_str, i64_to_string, parse_u64_range,
    percent_encode, strip_trailing_str, u64_to_string};
use meeting_indexer::times::{hms_seconds, parse_hhmm, parse_hhmmss, span_seconds};

#[test]
fn decimal_formatting() {
    assert_eq!(u64_to_string(0), "0");
    assert_eq!(u64_to_string(5400), "5400");
    assert_eq!(u64_to_string(18_446_744_073_709_551_615), "18446744073709551615");
    assert_eq!(i64_to_string(-1), "-1");
    assert_eq!(i64_to_string(52_090_000), "52090000");
    assert_eq!(i64_to_string(-5_120_000), "-5120000");
    assert_eq!(i64_to_string(i64::MIN), "-9223372036854775808");
}

#[test]
fn decimal_parsing() {
    let v = chars_of("5400");
    assert_eq!(parse_u64_range(&v, 0, 4), Some(5400));
    let bad = chars_of("54a0");
    assert_eq!(parse_u64_range(&bad, 0, 4), None);
    let empty = chars_of("");
    assert_eq!(parse_u64_range(&empty, 0, 0), None);
    let long = chars_of("1234567890123456789");
    assert_eq!(parse_u64_range(&long, 0, 19), None);
}

#[test]
fn clock_times() {
    assert_eq!(parse_hhmm("19:30"), Some((19, 30)));
    assert_eq!(parse_hhmm("7:05"), Some((7, 5)));
    assert_eq!(parse_hhmm("24:00"), None);
    assert_eq!(parse_hhmm("19:60"), None);
    assert_eq!(parse_hhmm("1930"), None);
    assert_eq!(parse_hhmm("19:30:00"), None);
    assert_eq!(parse_hhmmss("01:30:00"), Some((1, 30, 0)));
    assert_eq!(parse_hhmmss("23:59:59"), Some((23, 59, 59)));
    assert_eq!(parse_hhmmss("19:30"), None);
}

#[test]
fn durations() {
    assert_eq!(span_seconds(19, 30, 21, 0), Some(5400));
    assert_eq!(span_seconds(21, 0, 19, 30), None);
    assert_eq!(span_seconds(10, 0, 10, 0), Some(0));
    assert_eq!(hms_seconds(1, 30, 0), 5400);
    assert_eq!(hms_seconds(0, 45, 30), 2730);
}

#[test]
fn coordinates() {
    assert_eq!(parse_coord_micro(&chars_of("52.09")), Some(52_090_000));
    assert_eq!(parse_coord_micro(&chars_of("5.12")), Some(5_120_000));
    assert_eq!(parse_coord_micro(&chars_of("-5.1")), Some(-5_100_000));
    assert_eq!(parse_coord_micro(&chars_of("0")), Some(0));
    assert_eq!(parse_coord_micro(&chars_of("180")), Some(180_000_000));
    assert_eq!(parse_coord_micro(&chars_of("52.1234567")), Some(52_123_456));
    assert_eq!(parse_coord_micro(&chars_of("abc")), None);
    assert_eq!(parse_coord_micro(&chars_of("1e5")), None);
    assert_eq!(parse_coord_micro(&chars_of("")), None);
    assert_eq!(parse_coord_micro(&chars_of("-")), None);
    assert_eq!(parse_coord_micro(&chars_of("52.")), None);
}

#[test]
fn searching_and_stripping() {
    assert!(contains_str(&chars_of("VM,O"), "VM"));
    assert!(!contains_str(&chars_of("O,HY"), "VM"));
    assert!(contains_str(&chars_of("anything"), ""));
    let stripped = strip_trailing_str(chars_of("https://x.org///"), "/");
    let s: String = stripped.iter().collect();
    assert_eq!(s, "https://x.org");
}

#[test]
fn percent_encoding() {
    assert_eq!(percent_encode("Hoofdstraat 12 Utrecht"), "Hoofdstraat%2012%20Utrecht");
    assert_eq!(percent_encode("abc-_.~XYZ019"), "abc-_.~XYZ019");
    assert_eq!(percent_encode("a&b=c"), "a%26b%3Dc");
    assert_eq!(percent_encode("caf\u{e9}"), "caf%C3%A9");
}
