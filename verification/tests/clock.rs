use works_after_reinstall::clock::format_iso8601;

#[test]
fn formats_the_epoch() {
    assert_eq!(format_iso8601(0), "1970-01-01T00:00:00Z");
}

#[test]
fn formats_a_recent_instant() {
    assert_eq!(format_iso8601(1_789_757_667), "2026-09-18T18:54:27Z");
}

#[test]
fn handles_leap_days() {
    assert_eq!(format_iso8601(951_782_400), "2000-02-29T00:00:00Z");
    assert_eq!(format_iso8601(1_709_251_199), "2024-02-29T23:59:59Z");
    assert_eq!(format_iso8601(4_107_542_400), "2100-03-01T00:00:00Z");
}
