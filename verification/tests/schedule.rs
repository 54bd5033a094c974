use pulse_orbit::alerts::NANOS_PER_SEC;
use pulse_orbit::schedule::{
    history_since_modifier, interval_reload_due, parse_u64, poll_interval_from_setting,
    window_start_minute, HistorySchedule,
};

#[test]
fn parse_u64_like_from_str() {
    assert_eq!(parse_u64("5000"), Some(5000));
    assert_eq!(parse_u64("+42"), Some(42));
    assert_eq!(parse_u64("0"), Some(0));
    assert_eq!(parse_u64("18446744073709551615"), Some(u64::MAX));
    assert_eq!(parse_u64("18446744073709551616"), None);
    assert_eq!(parse_u64(""), None);
    assert_eq!(parse_u64("+"), None);
    assert_eq!(parse_u64("-1"), None);
    assert_eq!(parse_u64(" 5"), None);
    assert_eq!(parse_u64("12a"), None);
    for s in ["", "+", "7", "+7", "99999999999999999999", "1_000", "١"] {
        assert_eq!(parse_u64(s), s.parse::<u64>().ok(), "{s}");
    }
}

#[test]
fn poll_interval_setting_in_range_or_default() {
    assert_eq!(poll_interval_from_setting(Some("5000")), 5000);
    assert_eq!(poll_interval_from_setting(Some("1000")), 1000);
    assert_eq!(poll_interval_from_setting(Some("10000")), 10000);
    assert_eq!(poll_interval_from_setting(Some("999")), 2000);
    assert_eq!(poll_interval_from_setting(Some("10001")), 2000);
    assert_eq!(poll_interval_from_setting(Some("fast")), 2000);
    assert_eq!(poll_interval_from_setting(None), 2000);
}

#[test]
fn interval_reloads_after_a_minute() {
    let s = NANOS_PER_SEC;
    assert!(!interval_reload_due(0, 60 * s - 1));
    assert!(interval_reload_due(0, 60 * s));
}

#[test]
fn window_starts_on_five_minute_boundaries() {
    assert_eq!(window_start_minute(0), 0);
    assert_eq!(window_start_minute(4), 0);
    assert_eq!(window_start_minute(5), 5);
    assert_eq!(window_start_minute(59), 55);
}

#[test]
fn flush_once_per_boundary_minute() {
    let mut s = HistorySchedule::new(3, 14);
    assert!(!s.take_flush(4));
    assert!(s.take_flush(5));
    assert_eq!(s.last_flush_minute, 5);
    assert!(!s.take_flush(5));
    assert!(!s.take_flush(6));
    assert!(s.take_flush(10));
}

#[test]
fn purge_once_per_hour() {
    let mut s = HistorySchedule::new(0, 14);
    assert!(!s.take_purge(14));
    assert!(s.take_purge(15));
    assert!(!s.take_purge(15));
    assert_eq!(s.last_purge_hour, 15);
}

#[test]
fn history_modifier_text() {
    assert_eq!(history_since_modifier(6), "-6 hours");
    assert_eq!(history_since_modifier(24), "-24 hours");
    assert_eq!(history_since_modifier(0), "-0 hours");
}
