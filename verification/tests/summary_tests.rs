use loglens::{
    parse_line, summarize, summarize_with_filters, summarize_with_filters_and_lines,
    summarize_with_min_level, Level,
};

fn lines(text: &str) -> Vec<&str> {
    text.lines().collect()
}

#[test]
fn parses_a_well_formed_line() {
    let entry = parse_line("2026-08-21T10:15:03Z ERROR disk full").unwrap();
    assert_eq!(entry.timestamp, "2026-08-21T10:15:03Z");
    assert_eq!(entry.level, Level::Error);
    assert_eq!(entry.message, "disk full");
}

#[test]
fn rejects_a_line_without_a_recognized_level() {
    assert!(parse_line("2026-08-21T10:15:03Z something happened").is_none());
}

#[test]
fn summary_counts_by_level_and_tracks_span() {
    let text = "2026-08-21T10:00:00Z INFO up\n2026-08-21T10:00:01Z ERROR down\nnot a log line\n";
    let summary = summarize(&lines(text));
    assert_eq!(summary.total_lines, 3);
    assert_eq!(summary.info, 1);
    assert_eq!(summary.error, 1);
    assert_eq!(summary.unparsed_lines, 1);
    assert_eq!(summary.first_timestamp.as_deref(), Some("2026-08-21T10:00:00Z"));
    assert_eq!(summary.last_timestamp.as_deref(), Some("2026-08-21T10:00:01Z"));
}

#[test]
fn parses_level_names_case_insensitively() {
    assert_eq!(Level::parse("warn"), Some(Level::Warn));
    assert_eq!(Level::parse("WARNING"), Some(Level::Warn));
    assert_eq!(Level::parse("nonsense"), None);
}

#[test]
fn min_level_drops_lower_levels_from_counts_and_span() {
    let text = "2026-08-21T10:00:00Z INFO up\n2026-08-21T10:00:01Z ERROR down\n2026-08-21T10:00:02Z INFO steady\n";
    let summary = summarize_with_min_level(&lines(text), Some(Level::Error));
    assert_eq!(summary.total_lines, 3);
    assert_eq!(summary.unparsed_lines, 0);
    assert_eq!(summary.info, 0);
    assert_eq!(summary.error, 1);
    assert_eq!(summary.first_timestamp.as_deref(), Some("2026-08-21T10:00:01Z"));
    assert_eq!(summary.last_timestamp.as_deref(), Some("2026-08-21T10:00:01Z"));
}

#[test]
fn min_level_still_counts_unparsed_lines() {
    let text = "not a log line\n2026-08-21T10:00:00Z INFO up\n";
    let summary = summarize_with_min_level(&lines(text), Some(Level::Error));
    assert_eq!(summary.total_lines, 2);
    assert_eq!(summary.unparsed_lines, 1);
    assert_eq!(summary.info, 0);
}

#[test]
fn exact_level_keeps_only_that_level_unlike_min_level() {
    let text = "2026-08-21T10:00:00Z INFO up\n2026-08-21T10:00:01Z WARN careful\n2026-08-21T10:00:02Z ERROR down\n";
    let summary = summarize_with_filters(&lines(text), None, Some(Level::Warn), None, None);
    assert_eq!(summary.total_lines, 3);
    assert_eq!(summary.info, 0);
    assert_eq!(summary.warn, 1);
    assert_eq!(summary.error, 0);
    assert_eq!(summary.first_timestamp.as_deref(), Some("2026-08-21T10:00:01Z"));
}

#[test]
fn exact_level_still_counts_unparsed_lines() {
    let text = "not a log line\n2026-08-21T10:00:00Z INFO up\n";
    let summary = summarize_with_filters(&lines(text), None, Some(Level::Error), None, None);
    assert_eq!(summary.total_lines, 2);
    assert_eq!(summary.unparsed_lines, 1);
    assert_eq!(summary.info, 0);
}

#[test]
fn exact_level_combines_with_time_range() {
    let text = "2026-08-21T10:00:00Z WARN in range\n2026-08-21T12:00:00Z WARN out of range\n2026-08-21T10:30:00Z ERROR in range but wrong level\n";
    let summary = summarize_with_filters(
        &lines(text),
        None,
        Some(Level::Warn),
        Some("2026-08-21T09:00:00Z"),
        Some("2026-08-21T11:00:00Z"),
    );
    assert_eq!(summary.warn, 1);
    assert_eq!(summary.error, 0);
}

#[test]
fn time_range_drops_entries_outside_the_window() {
    let text = "2026-08-21T09:00:00Z INFO early\n2026-08-21T10:00:00Z INFO in range\n2026-08-21T11:00:00Z INFO late\n";
    let summary = summarize_with_filters(
        &lines(text),
        None,
        None,
        Some("2026-08-21T09:30:00Z"),
        Some("2026-08-21T10:30:00Z"),
    );
    assert_eq!(summary.total_lines, 3);
    assert_eq!(summary.info, 1);
    assert_eq!(summary.first_timestamp.as_deref(), Some("2026-08-21T10:00:00Z"));
    assert_eq!(summary.last_timestamp.as_deref(), Some("2026-08-21T10:00:00Z"));
}

#[test]
fn time_range_bounds_are_inclusive() {
    let text = "2026-08-21T10:00:00Z INFO edge\n";
    let summary = summarize_with_filters(
        &lines(text),
        None,
        None,
        Some("2026-08-21T10:00:00Z"),
        Some("2026-08-21T10:00:00Z"),
    );
    assert_eq!(summary.info, 1);
}

#[test]
fn time_range_bound_can_use_a_different_recognized_format_than_the_log() {
    // Log lines are RFC 3339; the lower bound is given as Unix epoch
    // seconds for the same instant as the second line.
    let text = "2026-08-21T09:00:00Z INFO early\n2026-08-21T10:15:03Z INFO on the bound\n2026-08-21T11:00:00Z INFO late\n";
    let summary = summarize_with_filters(&lines(text), None, None, Some("1787307303"), None);
    assert_eq!(summary.info, 2);
    assert_eq!(summary.first_timestamp.as_deref(), Some("2026-08-21T10:15:03Z"));
}

#[test]
fn time_range_combines_with_min_level() {
    let text = "2026-08-21T10:00:00Z ERROR in range but filtered by level\n2026-08-21T12:00:00Z ERROR out of range\n";
    let summary = summarize_with_filters(
        &lines(text),
        Some(Level::Warn),
        None,
        Some("2026-08-21T09:00:00Z"),
        Some("2026-08-21T11:00:00Z"),
    );
    assert_eq!(summary.error, 1);
    assert_eq!(summary.first_timestamp.as_deref(), Some("2026-08-21T10:00:00Z"));
}

#[test]
fn collects_matching_lines_grouped_by_level() {
    let text = "2026-08-21T10:00:00Z INFO up\n2026-08-21T10:00:01Z ERROR down\n2026-08-21T10:00:02Z ERROR still down\nnot a log line\n";
    let (summary, lines) = summarize_with_filters_and_lines(&lines(text), None, None, None, None);
    assert_eq!(summary.error, 2);
    assert_eq!(lines.for_level(Level::Info).len(), 1);
    assert_eq!(lines.for_level(Level::Error).len(), 2);
    assert_eq!(lines.for_level(Level::Error)[0].message, "down");
    assert_eq!(lines.for_level(Level::Error)[1].message, "still down");
    assert!(lines.for_level(Level::Debug).is_empty());
}

#[test]
fn collected_lines_respect_the_same_filters_as_the_summary() {
    let text = "2026-08-21T10:00:00Z INFO up\n2026-08-21T10:00:01Z ERROR down\n";
    let (summary, lines) =
        summarize_with_filters_and_lines(&lines(text), Some(Level::Error), None, None, None);
    assert_eq!(summary.info, 0);
    assert!(lines.for_level(Level::Info).is_empty());
    assert_eq!(lines.for_level(Level::Error).len(), 1);
}

#[test]
fn level_lines_to_json_nests_entries_per_level() {
    let text = "2026-08-21T10:00:00Z INFO up\n";
    let (_, lines) = summarize_with_filters_and_lines(&lines(text), None, None, None, None);
    assert_eq!(
        lines.to_json(),
        "{\"trace\":[],\"debug\":[],\"info\":[{\"timestamp\":\"2026-08-21T10:00:00Z\",\"level\":\"INFO\",\"message\":\"up\"}],\"warn\":[],\"error\":[]}"
    );
}

#[test]
fn summary_to_json_nests_lines_when_given() {
    let text = "2026-08-21T10:00:00Z INFO up\n";
    let (summary, lines) = summarize_with_filters_and_lines(&lines(text), None, None, None, None);
    let json = summary.to_json(Some(&lines));
    assert!(json.contains("\"lines\":{"));
    assert!(json.contains("\"info\":[{\"timestamp\""));
}

#[test]
fn summary_to_json_omits_lines_when_not_given() {
    let summary = summarize(&[]);
    assert!(!summary.to_json(None).contains("\"lines\""));
}
