use std::time::Duration;
use tibprice::utils::{format_duration, format_std_duration};

#[test]
fn test_format_duration() {
    assert_eq!(format_duration(500 - 1), "499ms");
    assert_eq!(format_duration(500), "500ms");
    assert_eq!(format_duration(1000 - 1), "999ms");
    assert_eq!(format_duration(1000), "1s");
    assert_eq!(format_duration(5000 - 1), "5s");
    assert_eq!(format_duration(5000), "5s");
    assert_eq!(format_duration(60000 - 1), "1m");
    assert_eq!(format_duration(60000), "1m");
    assert_eq!(format_duration(90000 - 1), "1m 30s");
    assert_eq!(format_duration(90000), "1m 30s");
    assert_eq!(format_duration(3600000 - 1), "1h");
    assert_eq!(format_duration(3600000), "1h");
    assert_eq!(format_duration(3660000), "1h 1m");
    assert_eq!(format_duration(7200000), "2h");
    assert_eq!(format_duration(7260000), "2h 1m");
    assert_eq!(format_duration(9000000 - 1), "2h 30m");
    assert_eq!(format_duration(9000000), "2h 30m");
}

#[test]
fn test_format_std_duration() {
    assert_eq!(format_std_duration(Duration::from_millis(500)), "500ms");
    assert_eq!(format_std_duration(Duration::from_secs(1)), "1s");
    assert_eq!(format_std_duration(Duration::from_secs(60)), "1m");
    assert_eq!(format_std_duration(Duration::from_secs(90)), "1m 30s");
    assert_eq!(format_std_duration(Duration::from_secs(3600)), "1h");
    assert_eq!(format_std_duration(Duration::from_secs(3660)), "1h 1m");
}

#[test]
fn format_duration_edges() {
    assert_eq!(format_duration(0), "0ms");
    // Rounding to the nearest second, halves upward.
    assert_eq!(format_duration(1499), "1s");
    assert_eq!(format_duration(1500), "2s");
    // Rounding can carry into the next unit.
    assert_eq!(format_duration(59499), "59s");
    assert_eq!(format_duration(59500), "1m");
    assert_eq!(format_duration(3599499), "59m 59s");
    assert_eq!(format_duration(3599500), "1h");
    assert_eq!(format_duration(36_000_000), "10h");
    assert_eq!(format_duration(86_400_000), "24h");
    assert_eq!(format_duration(90_000_000), "25h");
}

#[test]
fn format_std_duration_truncates_submillisecond_parts() {
    assert_eq!(format_std_duration(Duration::from_micros(499_900)), "499ms");
    assert_eq!(format_std_duration(Duration::from_nanos(1)), "0ms");
}
