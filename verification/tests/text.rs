use annoyodoro::duration::{parse_duration, Duration, ParseDurationError};
use annoyodoro::format::{
    format_duration, format_signed_duration, notification_body, push_clock, push_decimal,
    HumanReadableDuration,
};

const SEC: u64 = 1_000_000_000;

#[test]
fn durations_in_seconds_and_nanoseconds() {
    assert_eq!(Duration::Seconds(8).as_secs(), 8);
    assert_eq!(Duration::Minutes(20).as_secs(), 1200);
    assert_eq!(Duration::Minutes(20).as_nanos(), 1200 * SEC);
    assert_eq!(Duration::Seconds(0).as_nanos(), 0);
    assert_eq!(Duration::Minutes(u16::MAX).as_nanos(), 65535 * 60 * SEC);
    assert_eq!(Duration::Seconds(u16::MAX).as_nanos(), 65535 * SEC);
}

#[test]
fn durations_are_parsed() {
    assert_eq!(parse_duration("8s"), Ok(Duration::Seconds(8)));
    assert_eq!(parse_duration("20m"), Ok(Duration::Minutes(20)));
    assert_eq!(parse_duration("0s"), Ok(Duration::Seconds(0)));
    assert_eq!(parse_duration("007m"), Ok(Duration::Minutes(7)));
    assert_eq!(parse_duration("+5m"), Ok(Duration::Minutes(5)));
    assert_eq!(parse_duration("65535s"), Ok(Duration::Seconds(65535)));
    assert_eq!(parse_duration("0000065535m"), Ok(Duration::Minutes(65535)));
}

#[test]
fn bad_numbers_are_rejected() {
    for text in ["", "s", "m", "+s", "-5s", "65536s", "99999999999999999999m", "1.5m", "5 s", " 5s", "5ss", "++5s", "5+s", "x", "5", "\u{663}s"] {
        assert_eq!(parse_duration(text), Err(ParseDurationError::InvalidNumber), "{text:?}");
    }
}

#[test]
fn bad_units_are_rejected() {
    for text in ["5h", "5S", "5M", "12 ", "5\u{e9}", "55", "+5+"] {
        assert_eq!(parse_duration(text), Err(ParseDurationError::UnknownUnit), "{text:?}");
    }
}

#[test]
fn number_is_checked_before_the_unit() {
    assert_eq!(parse_duration("xh"), Err(ParseDurationError::InvalidNumber));
    assert_eq!(parse_duration("h"), Err(ParseDurationError::InvalidNumber));
}

#[test]
fn durations_are_written_as_number_and_unit() {
    assert_eq!(Duration::Seconds(8).to_text(), "8s");
    assert_eq!(Duration::Minutes(20).to_text(), "20m");
    assert_eq!(Duration::Seconds(0).to_text(), "0s");
    assert_eq!(Duration::Minutes(65535).to_text(), "65535m");
}

#[test]
fn written_durations_parse_back() {
    for duration in [
        Duration::Seconds(0),
        Duration::Seconds(9),
        Duration::Seconds(10),
        Duration::Minutes(100),
        Duration::Minutes(65535),
    ] {
        assert_eq!(parse_duration(&duration.to_text()), Ok(duration));
    }
}

#[test]
fn durations_are_shown_as_minutes_and_seconds() {
    assert_eq!(format_duration(0), "0:00");
    assert_eq!(format_duration(5 * SEC), "0:05");
    assert_eq!(format_duration(59 * SEC + 999_999_999), "0:59");
    assert_eq!(format_duration(60 * SEC), "1:00");
    assert_eq!(format_duration(20 * 60 * SEC), "20:00");
    assert_eq!(format_duration(19 * 60 * SEC + 52 * SEC), "19:52");
    assert_eq!(format_duration(100 * 60 * SEC + 10 * SEC), "100:10");
    assert_eq!(format_duration(u64::MAX), "307445734:33");
}

#[test]
fn negative_durations_carry_a_sign() {
    assert_eq!(format_signed_duration(0), "0:00");
    assert_eq!(format_signed_duration(65 * SEC as i64), "1:05");
    assert_eq!(format_signed_duration(-65 * SEC as i64), "-1:05");
    assert_eq!(format_signed_duration(-1), "-0:00");
    assert_eq!(format_signed_duration(-(SEC as i64)), "-0:01");
    assert_eq!(format_signed_duration(i64::MAX), "153722867:16");
    assert_eq!(format_signed_duration(i64::MIN), "-153722867:16");
}

#[test]
fn coming_break_is_announced_with_the_time_left() {
    assert_eq!(notification_body(60 * SEC), "Next break in 1:00");
    assert_eq!(notification_body(0), "Next break in 0:00");
    assert_eq!(notification_body(125 * SEC + 7), "Next break in 2:05");
}

#[test]
fn human_readable_durations() {
    assert_eq!(HumanReadableDuration(0).to_text(), "0:00");
    assert_eq!(HumanReadableDuration(299 * SEC as i64).to_text(), "4:59");
    assert_eq!(HumanReadableDuration(-299 * SEC as i64).to_text(), "-4:59");
    assert_eq!(HumanReadableDuration(-600 * SEC as i64 - 1).to_text(), "-10:00");
}

#[test]
fn numbers_are_appended_in_decimal() {
    let mut text = String::from("n=");
    push_decimal(&mut text, 0);
    push_decimal(&mut text, 7);
    push_decimal(&mut text, 10);
    push_decimal(&mut text, 1234567890);
    push_decimal(&mut text, u64::MAX);
    assert_eq!(text, "n=0710123456789018446744073709551615");
    let mut clock = String::from("at ");
    push_clock(&mut clock, 3599);
    assert_eq!(clock, "at 59:59");
}
