use loglens::cli::{apply_env_defaults, split_complete_lines, Args, EnvVars};
use loglens::Level;

#[test]
fn split_complete_lines_leaves_a_trailing_partial_line_in_the_buffer() {
    let mut buffer = String::from("2026-08-21T10:00:00Z INFO up\npartial line still comi");
    let lines = split_complete_lines(&mut buffer);
    assert_eq!(lines, vec!["2026-08-21T10:00:00Z INFO up"]);
    assert_eq!(buffer, "partial line still comi");
}

#[test]
fn split_complete_lines_strips_carriage_returns() {
    let mut buffer = String::from("2026-08-21T10:00:00Z INFO up\r\n");
    let lines = split_complete_lines(&mut buffer);
    assert_eq!(lines, vec!["2026-08-21T10:00:00Z INFO up"]);
    assert_eq!(buffer, "");
}

#[test]
fn split_complete_lines_handles_several_lines_in_one_chunk() {
    let mut buffer = String::from("a\nb\nc\n");
    let lines = split_complete_lines(&mut buffer);
    assert_eq!(lines, vec!["a", "b", "c"]);
}

fn bare_args(path: &str) -> Args {
    Args {
        path: path.to_string(),
        json: false,
        min_level: None,
        level: None,
        since: None,
        until: None,
        follow: false,
        lines: false,
        grep: None,
    }
}

/// The `LOGLENS_*` variables as the given name/value pairs set them.
fn env_map(pairs: &[(&str, &str)]) -> EnvVars {
    let get = |name: &str| {
        pairs
            .iter()
            .find(|(k, _)| *k == name)
            .map(|(_, v)| v.to_string())
    };
    EnvVars {
        json: get("LOGLENS_JSON"),
        follow: get("LOGLENS_FOLLOW"),
        lines: get("LOGLENS_LINES"),
        min_level: get("LOGLENS_MIN_LEVEL"),
        level: get("LOGLENS_LEVEL"),
        since: get("LOGLENS_SINCE"),
        until: get("LOGLENS_UNTIL"),
        grep: get("LOGLENS_GREP"),
    }
}

#[test]
fn env_defaults_fill_in_unset_flags() {
    let mut args = bare_args("server.log");
    apply_env_defaults(
        &mut args,
        &env_map(&[
            ("LOGLENS_JSON", "1"),
            ("LOGLENS_MIN_LEVEL", "warn"),
            ("LOGLENS_GREP", "disk"),
        ]),
    )
    .unwrap();
    assert!(args.json);
    assert_eq!(args.min_level, Some(Level::Warn));
    assert_eq!(args.grep.as_deref(), Some("disk"));
    assert!(!args.follow);
}

#[test]
fn a_flag_set_on_the_command_line_wins_over_the_environment() {
    let mut args = bare_args("server.log");
    args.min_level = Some(Level::Error);
    apply_env_defaults(&mut args, &env_map(&[("LOGLENS_MIN_LEVEL", "warn")])).unwrap();
    assert_eq!(args.min_level, Some(Level::Error));
}

#[test]
fn env_bool_flags_treat_zero_and_false_as_unset() {
    let mut args = bare_args("server.log");
    apply_env_defaults(&mut args, &env_map(&[("LOGLENS_JSON", "0")])).unwrap();
    assert!(!args.json);

    let mut args = bare_args("server.log");
    apply_env_defaults(&mut args, &env_map(&[("LOGLENS_LINES", "false")])).unwrap();
    assert!(!args.lines);
}

#[test]
fn env_min_level_rejects_an_unrecognized_level() {
    let mut args = bare_args("server.log");
    let result = apply_env_defaults(&mut args, &env_map(&[("LOGLENS_MIN_LEVEL", "nonsense")]));
    assert!(result.is_err());
}

use loglens::cli::{env_flag, follow_output, human_report, parse_args, plan_poll, usage};
use loglens::{summarize, summarize_with_filters_and_lines, summarize_with_min_level};

fn argv(items: &[&str]) -> Vec<String> {
    items.iter().map(|s| s.to_string()).collect()
}

const README_LOG: &str = "2026-08-21T10:15:03Z INFO server started on port 8080\n2026-08-21T10:15:04Z WARN client disconnected early\n2026-08-21T10:16:41Z ERROR failed to write segment: disk full\n";

#[test]
fn parse_args_reads_flags_and_path() {
    let a = parse_args(&argv(&[
        "server.log", "--json", "-f", "--lines", "--min-level", "warning", "--level", "error",
        "--since", "2026-08-21T09:00:00Z", "--until", "1787307303", "--message-contains", "disk",
    ]))
    .unwrap();
    assert_eq!(a.path, "server.log");
    assert!(a.json && a.follow && a.lines);
    assert_eq!(a.min_level, Some(Level::Warn));
    assert_eq!(a.level, Some(Level::Error));
    assert_eq!(a.since.as_deref(), Some("2026-08-21T09:00:00Z"));
    assert_eq!(a.until.as_deref(), Some("1787307303"));
    assert_eq!(a.grep.as_deref(), Some("disk"));
}

#[test]
fn parse_args_last_path_and_flag_win() {
    let a = parse_args(&argv(&["a.log", "--level", "info", "b.log", "--level", "debug"])).unwrap();
    assert_eq!(a.path, "b.log");
    assert_eq!(a.level, Some(Level::Debug));
    assert!(!a.json && !a.follow && !a.lines);
}

#[test]
fn parse_args_errors() {
    let u = usage();
    assert_eq!(parse_args(&argv(&[])).err(), Some(format!("missing log file path\n\n{u}")));
    assert_eq!(parse_args(&argv(&["x", "--help"])).err(), Some(u.clone()));
    assert_eq!(parse_args(&argv(&["-h"])).err(), Some(u.clone()));
    assert_eq!(parse_args(&argv(&["x", "--bogus"])).err(), Some(format!("unrecognized flag: --bogus\n\n{u}")));
    assert_eq!(parse_args(&argv(&["x", "-"])).err(), Some(format!("unrecognized flag: -\n\n{u}")));
    assert_eq!(parse_args(&argv(&["x", "--min-level"])).err(), Some(format!("--min-level needs a value\n\n{u}")));
    assert_eq!(parse_args(&argv(&["x", "--level", "loud"])).err(), Some(format!("unrecognized level: loud\n\n{u}")));
    assert_eq!(parse_args(&argv(&["x", "--until"])).err(), Some(format!("--until needs a timestamp\n\n{u}")));
    assert_eq!(parse_args(&argv(&["x", "--grep"])).err(), Some(format!("--grep needs a value\n\n{u}")));
}

#[test]
fn env_flag_values() {
    for v in ["", "0", "false"] {
        assert!(!env_flag(&Some(v.to_string())), "{v}");
    }
    for v in ["1", "true", "yes", "no", "FALSE", "False", "fAlse", " "] {
        assert!(env_flag(&Some(v.to_string())), "{v}");
    }
    assert!(!env_flag(&None));
}

#[test]
fn env_level_error_keeps_what_was_filled_before_it() {
    let mut args = bare_args("server.log");
    let result = apply_env_defaults(
        &mut args,
        &env_map(&[
            ("LOGLENS_JSON", "yes"),
            ("LOGLENS_MIN_LEVEL", "info"),
            ("LOGLENS_LEVEL", "loud"),
            ("LOGLENS_SINCE", "1787307303"),
        ]),
    );
    assert_eq!(result.err(), Some(format!("LOGLENS_LEVEL: unrecognized level: loud\n\n{}", usage())));
    assert!(args.json);
    assert_eq!(args.min_level, Some(Level::Info));
    assert_eq!(args.level, None);
    assert_eq!(args.since, None);
}

#[test]
fn env_fills_time_range_but_not_over_the_command_line() {
    let mut args = bare_args("server.log");
    args.since = Some("a".to_string());
    apply_env_defaults(&mut args, &env_map(&[("LOGLENS_SINCE", "b"), ("LOGLENS_UNTIL", "c"), ("LOGLENS_FOLLOW", "1")])).unwrap();
    assert_eq!(args.since.as_deref(), Some("a"));
    assert_eq!(args.until.as_deref(), Some("c"));
    assert!(args.follow);
}

#[test]
fn human_report_matches_the_readme() {
    let summary = summarize(&README_LOG.lines().collect::<Vec<_>>());
    assert_eq!(
        human_report("server.log", &summary, None, None, None, None, None, None),
        "server.log\n  total lines:    3\n  unparsed lines: 0\n  trace: 0\n  debug: 0\n  info:  1\n  warn:  1\n  error: 1\n  first: 2026-08-21T10:15:03Z\n  last:  2026-08-21T10:16:41Z\n"
    );
}

#[test]
fn human_report_with_min_level_matches_the_readme() {
    let summary = summarize_with_min_level(&README_LOG.lines().collect::<Vec<_>>(), Some(Level::Warn));
    assert_eq!(
        human_report("server.log", &summary, Some(Level::Warn), None, None, None, None, None),
        "server.log\n  min level:      WARN\n  total lines:    3\n  unparsed lines: 0\n  trace: 0\n  debug: 0\n  info:  0\n  warn:  1\n  error: 1\n  first: 2026-08-21T10:15:04Z\n  last:  2026-08-21T10:16:41Z\n"
    );
}

#[test]
fn human_report_lists_matching_lines_by_level() {
    let (summary, groups) = summarize_with_filters_and_lines(
        &README_LOG.lines().collect::<Vec<_>>(),
        None,
        Some(Level::Error),
        Some("1787307303"),
        None,
    );
    assert_eq!(
        human_report("s.log", &summary, None, Some(Level::Error), Some("1787307303"), None, Some("disk"), Some(&groups)),
        "s.log\n  level:          ERROR\n  since:          1787307303\n  grep:           disk\n  total lines:    3\n  unparsed lines: 0\n  trace: 0\n  debug: 0\n  info:  0\n  warn:  0\n  error: 1\n  first: 2026-08-21T10:16:41Z\n  last:  2026-08-21T10:16:41Z\n  matching lines:\n    ERROR:\n      2026-08-21T10:16:41Z failed to write segment: disk full\n"
    );
}

#[test]
fn follow_output_prints_only_kept_entries() {
    let line = "2026-08-21T10:15:04Z WARN client disconnected early";
    assert_eq!(follow_output("   ", None, None, None, None, None, false), None);
    assert_eq!(follow_output("not a log line", None, None, None, None, None, false), None);
    assert_eq!(follow_output(line, Some(Level::Error), None, None, None, None, false), None);
    assert_eq!(
        follow_output(line, None, None, None, None, None, false).as_deref(),
        Some("2026-08-21T10:15:04Z WARN client disconnected early")
    );
    assert_eq!(
        follow_output("2026-08-21T10:15:04Z warning late", None, None, None, None, None, false).as_deref(),
        Some("2026-08-21T10:15:04Z WARN late")
    );
    assert_eq!(
        follow_output(line, None, Some(Level::Warn), None, None, None, true).as_deref(),
        Some("{\"timestamp\":\"2026-08-21T10:15:04Z\",\"level\":\"WARN\",\"message\":\"client disconnected early\"}")
    );
}

#[test]
fn plan_poll_decisions() {
    let p = plan_poll(10, 10);
    assert!(!p.reopen);
    assert_eq!(p.read_from, None);
    let p = plan_poll(10, 25);
    assert!(!p.reopen);
    assert_eq!(p.read_from, Some(10));
    let p = plan_poll(10, 4);
    assert!(p.reopen);
    assert_eq!(p.read_from, Some(0));
    let p = plan_poll(10, 0);
    assert!(p.reopen);
    assert_eq!(p.read_from, None);
}

#[test]
fn split_complete_lines_edge_cases() {
    let mut buffer = String::from("a\r\r\nb");
    assert_eq!(split_complete_lines(&mut buffer), vec!["a"]);
    assert_eq!(buffer, "b");
    let mut buffer = String::new();
    assert!(split_complete_lines(&mut buffer).is_empty());
    assert_eq!(buffer, "");
    let mut buffer = String::from("\n\nx\r");
    assert_eq!(split_complete_lines(&mut buffer), vec!["", ""]);
    assert_eq!(buffer, "x\r");
}

#[test]
fn follow_and_summary_agree_on_each_line() {
    let candidates = [
        "2026-08-21T10:15:04Z WARN kept",
        "2026-08-21T10:15:04Z DEBUG below the minimum",
        "2026-08-21T08:00:00Z ERROR before the range",
        "not a log line",
        "  ",
    ];
    for line in candidates {
        let printed = follow_output(line, Some(Level::Info), None, Some("2026-08-21T09:00:00Z"), None, None, false);
        let (summary, _) = summarize_with_filters_and_lines(&[line], Some(Level::Info), None, Some("2026-08-21T09:00:00Z"), None);
        let counted = summary.trace + summary.debug + summary.info + summary.warn + summary.error;
        assert_eq!(printed.is_some(), counted == 1, "{line}");
    }
}

#[test]
fn follow_output_applies_the_message_filter() {
    let line = "2026-08-21T10:16:41Z ERROR failed to write segment: disk full";
    assert_eq!(follow_output(line, None, None, None, None, Some("nothing like it"), false), None);
    assert_eq!(
        follow_output(line, None, None, None, None, Some("disk"), false).as_deref(),
        Some(line)
    );
}

#[test]
fn split_complete_lines_returns_one_line_per_newline() {
    for text in ["", "a", "a\n", "\n\n\n", "a\r\nb\nc", "x\ny\r\n\r\nz\r"] {
        let mut buffer = text.to_string();
        let lines = split_complete_lines(&mut buffer);
        assert_eq!(lines.len(), text.matches('\n').count(), "{text:?}");
        assert!(lines.iter().all(|l| !l.contains('\n')));
        assert!(!buffer.contains('\n'));
    }
}
