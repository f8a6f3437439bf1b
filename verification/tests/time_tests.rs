use gitopo::git::time::format_relative_time_with_now;

#[test]
fn git_relative_time_boundaries() {
    // Commit timestamp in the future (clock skew) must not underflow
    assert_eq!(format_relative_time_with_now(100, 50), "just now");
    assert_eq!(format_relative_time_with_now(100, 100), "0s ago");
    assert_eq!(format_relative_time_with_now(0, 59), "59s ago");
    assert_eq!(format_relative_time_with_now(0, 60), "1m ago");
    assert_eq!(format_relative_time_with_now(0, 3_599), "59m ago");
    assert_eq!(format_relative_time_with_now(0, 3_600), "1h ago");
    assert_eq!(format_relative_time_with_now(0, 86_399), "23h ago");
    assert_eq!(format_relative_time_with_now(0, 86_400), "1d ago");
    assert_eq!(format_relative_time_with_now(0, 2_591_999), "29d ago");
    assert_eq!(format_relative_time_with_now(0, 2_592_000), "1mo ago");
    assert_eq!(format_relative_time_with_now(0, 31_536_000), "1y ago");
}

#[test]
fn time_relative_time_boundaries() {
    assert_eq!(format_relative_time_with_now(100, 50), "just now");
    assert_eq!(format_relative_time_with_now(100, 100), "0s ago");
    assert_eq!(format_relative_time_with_now(0, 59), "59s ago");
    assert_eq!(format_relative_time_with_now(0, 60), "1m ago");
    assert_eq!(format_relative_time_with_now(0, 3_599), "59m ago");
    assert_eq!(format_relative_time_with_now(0, 3_600), "1h ago");
    assert_eq!(format_relative_time_with_now(0, 86_399), "23h ago");
    assert_eq!(format_relative_time_with_now(0, 86_400), "1d ago");
    assert_eq!(format_relative_time_with_now(0, 2_591_999), "29d ago");
    assert_eq!(format_relative_time_with_now(0, 2_592_000), "1mo ago");
    assert_eq!(format_relative_time_with_now(0, 31_536_000), "1y ago");
}

#[test]
fn extreme_timestamps_do_not_overflow() {
    // Hostile/corrupt commit times must not panic via i64 over/underflow.
    assert_eq!(
        format_relative_time_with_now(i64::MIN, 0),
        format!("{}y ago", i64::MAX / 31_536_000)
    );
    // A far-future commit time saturates to "just now" rather than panicking.
    assert_eq!(format_relative_time_with_now(i64::MAX, i64::MIN), "just now");
}

#[test]
fn relative_time_uses_the_largest_fitting_unit() {
    assert_eq!(format_relative_time_with_now(1_000, 1_000 + 7_260), "2h ago");
    assert_eq!(format_relative_time_with_now(0, 5 * 86_400 + 3), "5d ago");
    assert_eq!(format_relative_time_with_now(0, 11 * 2_592_000), "11mo ago");
    assert_eq!(format_relative_time_with_now(0, 31_535_999), "12mo ago");
    assert_eq!(format_relative_time_with_now(0, 3 * 31_536_000 + 5), "3y ago");
    assert_eq!(format_relative_time_with_now(-10, 5), "15s ago");
}

