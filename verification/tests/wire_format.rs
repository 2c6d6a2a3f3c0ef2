use task_scheduler::wire::{
    encode_boundary, now_epoch_seconds, resolve_boundaries, wait_timeout_wire,
    DEFAULT_END_OFFSET_SECONDS, FIFTY_YEARS_SECONDS, MAX_ENCODABLE_SECONDS,
};

#[test]
fn wait_timeout_five_minutes_is_pt5m() {
    assert_eq!(wait_timeout_wire(5), "PT5M");
}

#[test]
fn wait_timeout_other_values() {
    assert_eq!(wait_timeout_wire(0), "PT0M");
    assert_eq!(wait_timeout_wire(1), "PT1M");
    assert_eq!(wait_timeout_wire(123), "PT123M");
    assert_eq!(wait_timeout_wire(65535), "PT65535M");
}

#[test]
fn boundary_encoding_matches_calendar_rendering() {
    let direct = chrono::DateTime::<chrono::Utc>::from_timestamp(0, 0)
        .unwrap()
        .to_rfc3339();
    assert_eq!(encode_boundary(0).unwrap(), direct);
    assert_eq!(encode_boundary(0).unwrap(), "1970-01-01T00:00:00+00:00");

    let when: i64 = 1_700_000_000;
    let direct = chrono::DateTime::<chrono::Utc>::from_timestamp(when, 0)
        .unwrap()
        .to_rfc3339();
    assert_eq!(encode_boundary(when).unwrap(), direct);
}

#[test]
fn boundary_encoding_accepts_the_documented_range() {
    assert!(encode_boundary(MAX_ENCODABLE_SECONDS).is_ok());
    assert!(encode_boundary(-MAX_ENCODABLE_SECONDS).is_ok());
}

#[test]
fn boundary_defaults() {
    let now: i64 = 1_700_000_000;
    let (s, e) = resolve_boundaries(Some(10), Some(20), now);
    assert_eq!((s, e), (10, 20));
    let (s, e) = resolve_boundaries(Some(10), None, now);
    assert_eq!(s, 10);
    assert_eq!(e, now + DEFAULT_END_OFFSET_SECONDS);
    let (s, e) = resolve_boundaries(None, None, now);
    assert_eq!(s, now);
    assert_eq!(e, now + DEFAULT_END_OFFSET_SECONDS);
}

#[test]
fn default_end_is_at_least_fifty_years_out() {
    let now: i64 = 1_700_000_000;
    let (_, e) = resolve_boundaries(Some(now), None, now);
    assert!(e - now >= FIFTY_YEARS_SECONDS);
    assert_eq!(DEFAULT_END_OFFSET_SECONDS, 100 * 52 * 7 * 86400);
}

#[test]
fn clock_reads_nonnegative() {
    let now = now_epoch_seconds();
    assert!(now >= 0);
    // A sane build machine is well past the epoch and well short of the
    // calendar ceiling.
    assert!(now < MAX_ENCODABLE_SECONDS);
}
