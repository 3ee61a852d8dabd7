use loglens::timestamp::{compare, to_epoch_nanos};
use std::cmp::Ordering;

#[test]
fn parses_z_suffixed_rfc3339() {
    assert_eq!(
        to_epoch_nanos("2026-08-21T10:15:03Z"),
        to_epoch_nanos("2026-08-21T10:15:03+00:00")
    );
}

#[test]
fn parses_numeric_offsets_relative_to_utc() {
    // 10:15:03+02:00 is 08:15:03 UTC, one hour behind 09:15:03Z.
    let plus_two = to_epoch_nanos("2026-08-21T10:15:03+02:00").unwrap();
    let utc = to_epoch_nanos("2026-08-21T09:15:03Z").unwrap();
    assert_eq!(plus_two + 3_600_000_000_000, utc);
    assert_eq!(plus_two, to_epoch_nanos("2026-08-21T08:15:03Z").unwrap());
}

#[test]
fn parses_fractional_seconds() {
    let a = to_epoch_nanos("2026-08-21T10:15:03.5Z").unwrap();
    let b = to_epoch_nanos("2026-08-21T10:15:03Z").unwrap();
    assert_eq!(a - b, 500_000_000);
}

#[test]
fn parses_unix_epoch_seconds() {
    // 2026-08-21T10:15:03Z: 20686 days since the epoch times 86400, plus
    // the 10:15:03 time-of-day offset.
    assert_eq!(to_epoch_nanos("1787307303"), to_epoch_nanos("2026-08-21T10:15:03Z"));
}

#[test]
fn rejects_a_bare_date_as_epoch_seconds() {
    assert_eq!(to_epoch_nanos("20260821"), None);
}

#[test]
fn rejects_unrecognized_shapes() {
    assert_eq!(to_epoch_nanos("Aug 21 10:15:03"), None);
    assert_eq!(to_epoch_nanos("not a timestamp"), None);
}

#[test]
fn compare_orders_recognized_formats_chronologically_across_shapes() {
    assert_eq!(compare("1787307303", "2026-08-21T10:15:04Z"), Ordering::Less);
}

#[test]
fn compare_falls_back_to_text_for_unrecognized_formats() {
    assert_eq!(compare("banana", "apple"), Ordering::Greater);
}
