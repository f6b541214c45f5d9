use clavirio::timestamp::{friendly_timestamp, timestamp_prefix};

#[test]
fn prefix_of_iso_text() {
    let ts = timestamp_prefix(Some("2026-03-08T12:00:00.000000000+01:00".to_string()));
    assert_eq!(ts, "2026-03-08T12:00:00");
    assert_eq!(timestamp_prefix(None), "1970-01-01T00:00:00");
}

#[test]
fn friendly_timestamps() {
    assert_eq!(friendly_timestamp("2026-03-06T22:01:05"), "Mar 06  22:01");
    assert_eq!(friendly_timestamp("2026-12-31T23:59:59"), "Dec 31  23:59");
    // month out of range, or not a number
    assert_eq!(friendly_timestamp("2026-13-01T00:00:00"), "??? 01  00:00");
    assert_eq!(friendly_timestamp("2026-xx-01T00:00:00"), "Jan 01  00:00");
    assert_eq!(friendly_timestamp("2026-+4-01T00:00:00"), "Apr 01  00:00");
    // too short to be a timestamp
    assert_eq!(friendly_timestamp("t1"), "t1");
}
