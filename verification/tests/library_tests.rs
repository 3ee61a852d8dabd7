use loglens::text::is_whitespace;
use loglens::timestamp::{compare, to_epoch_nanos};
use loglens::{
    parse_line, passes_filters, passes_filters_and_message, summarize_with_all_filters,
    summarize_with_all_filters_and_lines, summarize, summarize_with_filters,
    summarize_with_filters_and_lines, Entry, Level,
};
use std::cmp::Ordering;

const LEVELS: [Level; 5] = [Level::Trace, Level::Debug, Level::Info, Level::Warn, Level::Error];

fn lines(text: &str) -> Vec<&str> {
    text.lines().collect()
}

fn entry(timestamp: &str, level: Level, message: &str) -> Entry {
    Entry { timestamp: timestamp.to_string(), level, message: message.to_string() }
}

const README_LOG: &str = "2026-08-21T10:15:03Z INFO server started on port 8080\n2026-08-21T10:15:04Z WARN client disconnected early\n2026-08-21T10:16:41Z ERROR failed to write segment: disk full\n";

#[test]
fn level_names_parse_back_to_their_level() {
    for level in LEVELS {
        assert_eq!(Level::parse(level.as_str()), Some(level));
    }
}

#[test]
fn level_accepts_exactly_the_listed_spellings() {
    let accepted = [
        ("TRACE", Level::Trace),
        ("trace", Level::Trace),
        ("DEBUG", Level::Debug),
        ("debug", Level::Debug),
        ("INFO", Level::Info),
        ("info", Level::Info),
        ("WARN", Level::Warn),
        ("WARNING", Level::Warn),
        ("warn", Level::Warn),
        ("warning", Level::Warn),
        ("ERROR", Level::Error),
        ("error", Level::Error),
    ];
    for (name, level) in accepted {
        assert_eq!(Level::parse(name), Some(level), "{name}");
    }
    for name in ["Warn", "Error", "", "INFO ", "fatal", "err"] {
        assert_eq!(Level::parse(name), None, "{name}");
    }
}

#[test]
fn level_ranks_follow_severity() {
    let ranks: Vec<u8> = LEVELS.iter().map(|l| l.rank()).collect();
    assert_eq!(ranks, vec![0, 1, 2, 3, 4]);
}

#[test]
fn parse_line_splits_on_runs_of_whitespace() {
    let e = parse_line("2026-08-21T10:15:03Z   WARN \t careful  now").unwrap();
    assert_eq!(e.timestamp, "2026-08-21T10:15:03Z");
    assert_eq!(e.level, Level::Warn);
    assert_eq!(e.message, "careful  now");
}

#[test]
fn parse_line_without_message_gives_an_empty_message() {
    let e = parse_line("2026-08-21T10:15:03Z info").unwrap();
    assert_eq!(e.level, Level::Info);
    assert_eq!(e.message, "");
    let e = parse_line("ts\u{3000}debug\u{a0}message").unwrap();
    assert_eq!(e.timestamp, "ts");
    assert_eq!(e.level, Level::Debug);
    assert_eq!(e.message, "message");
}

#[test]
fn parse_line_rejects_lines_without_a_level_token() {
    assert!(parse_line("justonetoken").is_none());
    assert!(parse_line("").is_none());
    assert!(parse_line(" 2026-08-21T10:15:03Z INFO leading space").is_none());
    assert!(parse_line("2026-08-21T10:15:03Z Info mixed case").is_none());
}

#[test]
fn whitespace_matches_the_standard_library() {
    for code in 0..=0x10FFFFu32 {
        if let Some(c) = char::from_u32(code) {
            assert_eq!(is_whitespace(c), c.is_whitespace(), "U+{code:04X}");
        }
    }
}

#[test]
fn epoch_seconds_with_fraction() {
    assert_eq!(to_epoch_nanos("1787307303.25"), Some(1_787_307_303_250_000_000));
    assert_eq!(to_epoch_nanos("123456789"), Some(123_456_789_000_000_000));
    assert_eq!(to_epoch_nanos("1787307303."), None);
    assert_eq!(to_epoch_nanos("1787307303.2x"), None);
    assert_eq!(to_epoch_nanos("12345678901"), None);
    assert_eq!(to_epoch_nanos("17873073o3"), None);
}

#[test]
fn fraction_beyond_nanoseconds_is_truncated() {
    let a = to_epoch_nanos("2026-08-21T10:15:03.1234567891Z").unwrap();
    let b = to_epoch_nanos("2026-08-21T10:15:03Z").unwrap();
    assert_eq!(a - b, 123_456_789);
    assert_eq!(to_epoch_nanos("2026-08-21T10:15:03.Z"), None);
}

#[test]
fn rfc3339_epoch_origin_and_before() {
    assert_eq!(to_epoch_nanos("1970-01-01T00:00:00Z"), Some(0));
    assert_eq!(to_epoch_nanos("1969-12-31T23:59:59Z"), Some(-1_000_000_000));
    assert_eq!(to_epoch_nanos("0000-03-01T00:00:00Z"), Some(-719_468 * 86_400 * 1_000_000_000));
}

#[test]
fn rfc3339_leap_years() {
    let day = 86_400_000_000_000i128;
    let d = |s: &str| to_epoch_nanos(s).unwrap();
    assert_eq!(d("2024-03-01T00:00:00Z") - d("2024-02-28T00:00:00Z"), 2 * day);
    assert_eq!(d("2100-03-01T00:00:00Z") - d("2100-02-28T00:00:00Z"), day);
    assert_eq!(d("2000-03-01T00:00:00Z") - d("2000-02-28T00:00:00Z"), 2 * day);
    assert_eq!(d("2027-01-01T00:00:00Z") - d("2026-01-01T00:00:00Z"), 365 * day);
    assert_eq!(d("2025-01-01T00:00:00Z") - d("2024-01-01T00:00:00Z"), 366 * day);
}

#[test]
fn rfc3339_separators_and_offsets() {
    let utc = to_epoch_nanos("2026-08-21T10:15:03Z");
    assert_eq!(to_epoch_nanos("2026-08-21t10:15:03z"), utc);
    assert_eq!(to_epoch_nanos("2026-08-21 10:15:03Z"), utc);
    assert_eq!(to_epoch_nanos("2026-08-21T05:45:03-04:30"), utc);
    assert_eq!(to_epoch_nanos("2026-08-21T10:15:03+24:00"), None);
    assert_eq!(to_epoch_nanos("2026-08-21T10:15:03+02:60"), None);
    assert_eq!(to_epoch_nanos("2026-08-21T10:15:03+0200"), None);
    assert_eq!(to_epoch_nanos("2026-08-21T10:15:03"), None);
}

#[test]
fn rfc3339_field_ranges() {
    assert_eq!(to_epoch_nanos("2026-13-21T10:15:03Z"), None);
    assert_eq!(to_epoch_nanos("2026-00-21T10:15:03Z"), None);
    assert_eq!(to_epoch_nanos("2026-08-00T10:15:03Z"), None);
    assert_eq!(to_epoch_nanos("2026-08-32T10:15:03Z"), None);
    assert_eq!(to_epoch_nanos("2026-08-21T24:15:03Z"), None);
    assert_eq!(to_epoch_nanos("2026-08-21T10:60:03Z"), None);
    assert_eq!(to_epoch_nanos("2026-08-21T10:15:61Z"), None);
    // A leap second is accepted and lands on the next minute's first second.
    assert_eq!(
        to_epoch_nanos("2026-08-21T10:15:60Z"),
        to_epoch_nanos("2026-08-21T10:16:00Z")
    );
}

#[test]
fn compare_is_antisymmetric_and_reflexive() {
    let tokens = ["1787307303", "2026-08-21T10:15:04Z", "banana", "apple", "", "2026-08-21T10:15:03+00:00"];
    for a in tokens {
        assert_eq!(compare(a, a), Ordering::Equal);
        for b in tokens {
            assert_eq!(compare(a, b), compare(b, a).reverse());
        }
    }
    assert_eq!(compare("1787307303", "2026-08-21T10:15:03Z"), Ordering::Equal);
    assert_eq!(compare("2026-08-21T10:15:03Z", "zzz"), Ordering::Less);
}

#[test]
fn passes_filters_checks_each_filter_that_is_set() {
    let e = entry("2026-08-21T10:15:03Z", Level::Warn, "m");
    assert!(passes_filters(&e, None, None, None, None));
    assert!(passes_filters(&e, Some(Level::Warn), None, None, None));
    assert!(!passes_filters(&e, Some(Level::Error), None, None, None));
    assert!(passes_filters(&e, None, Some(Level::Warn), None, None));
    assert!(!passes_filters(&e, None, Some(Level::Info), None, None));
    assert!(passes_filters(&e, None, None, Some("1787307303"), Some("1787307303")));
    assert!(!passes_filters(&e, None, None, Some("1787307304"), None));
    assert!(!passes_filters(&e, None, None, None, Some("2026-08-21T10:15:02Z")));
}

#[test]
fn blank_lines_count_as_unparsed() {
    let summary = summarize(&lines("\n   \n\t\n2026-08-21T10:00:00Z INFO up\n"));
    assert_eq!(summary.total_lines, 4);
    assert_eq!(summary.unparsed_lines, 3);
    assert_eq!(summary.info, 1);
    let summary = summarize(&lines("2026-08-21T10:00:00Z INFO up\n\nnot a log line\n"));
    assert_eq!((summary.total_lines, summary.unparsed_lines, summary.info), (3, 2, 1));
}

#[test]
fn every_line_is_accounted_for_without_filters() {
    let text = "2026-08-21T10:00:00Z TRACE a\n2026-08-21T10:00:01Z DEBUG b\nnoise\n2026-08-21T10:00:02Z INFO c\n2026-08-21T10:00:03Z warning d\n2026-08-21T10:00:04Z error e\nmore noise\n";
    let s = summarize(&lines(text));
    let counted: usize = LEVELS.iter().map(|l| s.count_for(*l)).sum();
    assert_eq!(counted + s.unparsed_lines, s.total_lines);
    assert_eq!(s.total_lines, 7);
    assert_eq!(s.unparsed_lines, 2);
    assert_eq!((s.trace, s.debug, s.info, s.warn, s.error), (1, 1, 1, 1, 1));
}

#[test]
fn filters_only_remove_and_keep_unparsed_counts() {
    let text = "2026-08-21T10:00:00Z INFO a\nnoise\n2026-08-21T10:00:01Z ERROR b\n2026-08-21T10:00:02Z WARN c\n";
    let all = summarize(&lines(text));
    let some = summarize_with_filters(&lines(text), Some(Level::Warn), None, None, Some("2026-08-21T10:00:01Z"));
    assert_eq!(some.total_lines, all.total_lines);
    assert_eq!(some.unparsed_lines, all.unparsed_lines);
    for l in LEVELS {
        assert!(some.count_for(l) <= all.count_for(l));
    }
    assert_eq!((some.info, some.warn, some.error), (0, 0, 1));
    assert_eq!(some.first_timestamp.as_deref(), Some("2026-08-21T10:00:01Z"));
}

#[test]
fn grouped_lines_match_the_counts() {
    let text = "2026-08-21T10:00:00Z INFO a\n2026-08-21T10:00:01Z ERROR b\n2026-08-21T10:00:02Z INFO c\n";
    let (summary, groups) = summarize_with_filters_and_lines(&lines(text), None, None, None, None);
    for l in LEVELS {
        assert_eq!(groups.for_level(l).len(), summary.count_for(l));
        assert!(groups.for_level(l).iter().all(|e| e.level == l));
    }
    assert_eq!(groups.for_level(Level::Info)[1].message, "c");
}

#[test]
fn no_span_without_counted_entries() {
    let s = summarize_with_filters(&lines("2026-08-21T10:00:00Z INFO a\n"), Some(Level::Error), None, None, None);
    assert_eq!(s.first_timestamp, None);
    assert_eq!(s.last_timestamp, None);
}

#[test]
fn summary_json_matches_the_readme() {
    let summary = summarize(&lines(README_LOG));
    assert_eq!(
        summary.to_json(None),
        "{\"total_lines\":3,\"unparsed_lines\":0,\"trace\":0,\"debug\":0,\"info\":1,\"warn\":1,\"error\":1,\"first_timestamp\":\"2026-08-21T10:15:03Z\",\"last_timestamp\":\"2026-08-21T10:16:41Z\"}"
    );
}

#[test]
fn empty_summary_json_has_nulls_and_zeros() {
    assert_eq!(
        summarize(&[]).to_json(None),
        "{\"total_lines\":0,\"unparsed_lines\":0,\"trace\":0,\"debug\":0,\"info\":0,\"warn\":0,\"error\":0,\"first_timestamp\":null,\"last_timestamp\":null}"
    );
}

#[test]
fn large_counts_render_in_decimal() {
    let many: Vec<&str> = std::iter::repeat("x").take(1234).collect();
    let json = summarize(&many).to_json(None);
    assert!(json.starts_with("{\"total_lines\":1234,\"unparsed_lines\":1234,"));
}

#[test]
fn entry_json_escapes_special_characters() {
    let e = entry("t\"s", Level::Error, "a\\b\nc\rd\te\u{1}f\u{1f}g\u{7f}h");
    assert_eq!(
        e.to_json(),
        "{\"timestamp\":\"t\\\"s\",\"level\":\"ERROR\",\"message\":\"a\\\\b\\nc\\rd\\te\\u0001f\\u001fg\u{7f}h\"}"
    );
}

#[test]
fn entry_json_keeps_non_ascii_text() {
    let e = entry("2026-08-21T10:15:03Z", Level::Info, "grüße ✓");
    assert_eq!(
        e.to_json(),
        "{\"timestamp\":\"2026-08-21T10:15:03Z\",\"level\":\"INFO\",\"message\":\"grüße ✓\"}"
    );
}

#[test]
fn calendar_order_is_chronological_order() {
    let stamps = [
        "1969-12-31T23:59:59Z",
        "1970-01-01T00:00:00Z",
        "2024-02-28T23:59:59Z",
        "2024-02-29T00:00:00Z",
        "2024-03-01T00:00:00Z",
        "2024-12-31T23:59:59Z",
        "2025-01-01T00:00:00Z",
        "2026-08-21T10:15:03Z",
        "2026-08-21T10:15:04Z",
    ];
    for pair in stamps.windows(2) {
        assert!(to_epoch_nanos(pair[0]).unwrap() < to_epoch_nanos(pair[1]).unwrap(), "{pair:?}");
        assert_eq!(compare(pair[0], pair[1]), Ordering::Less);
    }
}

#[test]
fn message_filter_keeps_only_matching_messages() {
    let text = "2026-08-21T10:00:00Z ERROR disk full\n2026-08-21T10:00:01Z ERROR network down\n2026-08-21T10:00:02Z INFO disk ok\nnoise\n";
    let s = summarize_with_all_filters(&lines(text), None, None, None, None, Some("disk"));
    assert_eq!((s.total_lines, s.unparsed_lines, s.error, s.info), (4, 1, 1, 1));
    assert_eq!(s.last_timestamp.as_deref(), Some("2026-08-21T10:00:02Z"));
    let (s, groups) =
        summarize_with_all_filters_and_lines(&lines(text), Some(Level::Error), None, None, None, Some("disk"));
    assert_eq!((s.error, s.info), (1, 0));
    assert_eq!(groups.for_level(Level::Error)[0].message, "disk full");
    let e = entry("t", Level::Info, "grüße");
    assert!(passes_filters_and_message(&e, None, None, None, None, Some("üß")));
    assert!(passes_filters_and_message(&e, None, None, None, None, Some("")));
    assert!(!passes_filters_and_message(&e, None, None, None, None, Some("ßx")));
}

#[test]
fn parse_line_gives_back_what_was_written() {
    for level in LEVELS {
        for msg in ["", "disk full", "x  y\tz"] {
            let line = format!("{} {} {}", "2026-08-21T10:15:03Z", level.as_str(), msg);
            let e = parse_line(&line).unwrap();
            assert_eq!((e.timestamp.as_str(), e.level, e.message.as_str()), ("2026-08-21T10:15:03Z", level, msg));
            assert!(line.starts_with(&e.timestamp) && line.ends_with(&e.message));
        }
    }
}
