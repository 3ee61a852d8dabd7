//! The human-readable report the command-line tool prints.
use vstd::prelude::*;
use crate::entry::{Entry, EntryView};
use crate::level::{level_name, Level};
use crate::summary::{entries_view, LevelLines, LevelLinesView, Summary, SummaryView};
use crate::text::{
    contains_text, decimal, lemma_contains_extend, lemma_contains_middle, lemma_contains_prepend,
    push_decimal, string_of,
};

verus! {

/// `label` then `value` on a line of its own, when there is a value.
pub open spec fn optional_line(label: Seq<char>, value: Option<Seq<char>>) -> Seq<char> {
    match value {
        Some(v) => label + v + "\n"@,
        None => Seq::empty(),
    }
}

pub open spec fn level_line(label: Seq<char>, value: Option<Level>) -> Seq<char> {
    match value {
        Some(l) => label + level_name(l) + "\n"@,
        None => Seq::empty(),
    }
}

pub open spec fn opt_str_view(o: Option<&str>) -> Option<Seq<char>> {
    match o {
        Some(s) => Some(s@),
        None => None,
    }
}

/// One `timestamp message` line per entry.
pub open spec fn entry_lines(es: Seq<EntryView>) -> Seq<char>
    decreases es.len(),
{
    if es.len() == 0 {
        Seq::empty()
    } else {
        entry_lines(es.drop_last()) + "      "@ + es.last().timestamp + " "@ + es.last().message
            + "\n"@
    }
}

/// A level's heading and entries; nothing for a level without entries.
pub open spec fn level_group(es: Seq<EntryView>, l: Level) -> Seq<char> {
    if es.len() == 0 {
        Seq::empty()
    } else {
        "    "@ + level_name(l) + ":\n"@ + entry_lines(es)
    }
}

pub open spec fn matching_lines(lines: Option<LevelLinesView>) -> Seq<char> {
    match lines {
        Some(v) => "  matching lines:\n"@ + level_group(v.trace, Level::Trace) + level_group(
            v.debug,
            Level::Debug,
        ) + level_group(v.info, Level::Info) + level_group(v.warn, Level::Warn) + level_group(
            v.error,
            Level::Error,
        ),
        None => Seq::empty(),
    }
}

/// The path and the filters that are set.
pub open spec fn report_header(
    path: Seq<char>,
    min_level: Option<Level>,
    level: Option<Level>,
    since: Option<Seq<char>>,
    until: Option<Seq<char>>,
    grep: Option<Seq<char>>,
) -> Seq<char> {
    path + "\n"@ + level_line("  min level:      "@, min_level) + level_line(
        "  level:          "@,
        level,
    ) + optional_line("  since:          "@, since) + optional_line("  until:          "@, until)
        + optional_line("  grep:           "@, grep)
}

pub open spec fn count_line(label: Seq<char>, n: int) -> Seq<char> {
    label + decimal(n as nat) + "\n"@
}

/// The line totals and the per-level counts.
pub open spec fn report_counts(s: SummaryView) -> Seq<char> {
    count_line("  total lines:    "@, s.total_lines) + count_line("  unparsed lines: "@, s.unparsed_lines)
        + count_line("  trace: "@, s.trace) + count_line("  debug: "@, s.debug) + count_line(
        "  info:  "@,
        s.info,
    ) + count_line("  warn:  "@, s.warn) + count_line("  error: "@, s.error)
}

/// The first and last timestamps, when any entry was counted.
pub open spec fn report_span(s: SummaryView) -> Seq<char> {
    optional_line("  first: "@, s.first_timestamp) + optional_line("  last:  "@, s.last_timestamp)
}

/// The report: the path, the filters that are set, the counts, the span,
/// and, when given, the matching lines grouped by level.
pub open spec fn human_text(
    path: Seq<char>,
    s: SummaryView,
    min_level: Option<Level>,
    level: Option<Level>,
    since: Option<Seq<char>>,
    until: Option<Seq<char>>,
    grep: Option<Seq<char>>,
    lines: Option<LevelLinesView>,
) -> Seq<char> {
    report_header(path, min_level, level, since, until, grep) + report_counts(s) + report_span(s)
        + matching_lines(lines)
}

fn push_level_line(out: &mut String, label: &str, value: Option<Level>)
    ensures
        final(out)@ == old(out)@ + level_line(label@, value),
{
    if let Some(l) = value {
        out.append(label);
        out.append(l.as_str());
        out.append("\n");
    }
    assert(final(out)@ =~= old(out)@ + level_line(label@, value));
}

fn push_optional_line(out: &mut String, label: &str, value: Option<&str>)
    ensures
        final(out)@ == old(out)@ + optional_line(label@, opt_str_view(value)),
{
    if let Some(v) = value {
        out.append(label);
        out.append(v);
        out.append("\n");
    }
    assert(final(out)@ =~= old(out)@ + optional_line(label@, opt_str_view(value)));
}

fn push_count(out: &mut String, label: &str, n: usize)
    ensures
        final(out)@ == old(out)@ + count_line(label@, n as int),
{
    out.append(label);
    push_decimal(out, n);
    out.append("\n");
    assert(final(out)@ =~= old(out)@ + count_line(label@, n as int));
}

fn push_group(out: &mut String, entries: &[Entry], l: Level)
    ensures
        final(out)@ == old(out)@ + level_group(entries_view(entries@), l),
{
    if entries.len() == 0 {
        assert(final(out)@ =~= old(out)@ + level_group(entries_view(entries@), l));
        return;
    }
    let ghost start = out@;
    out.append("    ");
    out.append(l.as_str());
    out.append(":\n");
    let ghost head = out@;
    let mut i: usize = 0;
    while i < entries.len()
        invariant
            i <= entries@.len(),
            out@ == head + entry_lines(entries_view(entries@).take(i as int)),
        decreases entries@.len() - i,
    {
        let ghost next = entries_view(entries@).take(i + 1);
        proof {
            assert(next.drop_last() =~= entries_view(entries@).take(i as int));
        }
        out.append("      ");
        out.append(entries[i].timestamp.as_str());
        out.append(" ");
        out.append(entries[i].message.as_str());
        out.append("\n");
        assert(out@ =~= head + entry_lines(next));
        i = i + 1;
    }
    assert(entries_view(entries@).take(entries@.len() as int) =~= entries_view(entries@));
    assert(out@ =~= start + level_group(entries_view(entries@), l));
}

pub open spec fn opt_lines(lines: Option<&LevelLines>) -> Option<LevelLinesView> {
    match lines {
        Some(l) => Some(l@),
        None => None,
    }
}

fn push_header(
    out: &mut String,
    path: &str,
    min_level: Option<Level>,
    level: Option<Level>,
    since: Option<&str>,
    until: Option<&str>,
    grep: Option<&str>,
)
    ensures
        final(out)@ == old(out)@ + report_header(
            path@,
            min_level,
            level,
            opt_str_view(since),
            opt_str_view(until),
            opt_str_view(grep),
        ),
{
    out.append(path);
    out.append("\n");
    push_level_line(out, "  min level:      ", min_level);
    push_level_line(out, "  level:          ", level);
    push_optional_line(out, "  since:          ", since);
    push_optional_line(out, "  until:          ", until);
    push_optional_line(out, "  grep:           ", grep);
    assert(final(out)@ =~= old(out)@ + report_header(
        path@,
        min_level,
        level,
        opt_str_view(since),
        opt_str_view(until),
        opt_str_view(grep),
    ));
}

fn push_counts(out: &mut String, summary: &Summary)
    ensures
        final(out)@ == old(out)@ + report_counts(summary@),
{
    push_count(out, "  total lines:    ", summary.total_lines);
    push_count(out, "  unparsed lines: ", summary.unparsed_lines);
    push_count(out, "  trace: ", summary.trace);
    push_count(out, "  debug: ", summary.debug);
    push_count(out, "  info:  ", summary.info);
    push_count(out, "  warn:  ", summary.warn);
    push_count(out, "  error: ", summary.error);
    let ghost s = summary@;
    assert(final(out)@ =~= old(out)@ + report_counts(s)) by {
        let a = count_line("  total lines:    "@, s.total_lines);
        let b = count_line("  unparsed lines: "@, s.unparsed_lines);
        let c = count_line("  trace: "@, s.trace);
        let d = count_line("  debug: "@, s.debug);
        let e = count_line("  info:  "@, s.info);
        let f = count_line("  warn:  "@, s.warn);
        let g = count_line("  error: "@, s.error);
        assert(report_counts(s) == a + b + c + d + e + f + g);
    }
}

fn as_opt_str(o: &Option<String>) -> (r: Option<&str>)
    ensures
        opt_str_view(r) == o.deep_view(),
{
    match o {
        Some(t) => Some(t.as_str()),
        None => None,
    }
}

fn push_span(out: &mut String, summary: &Summary)
    ensures
        final(out)@ == old(out)@ + report_span(summary@),
{
    push_optional_line(out, "  first: ", as_opt_str(&summary.first_timestamp));
    push_optional_line(out, "  last:  ", as_opt_str(&summary.last_timestamp));
    assert(final(out)@ =~= old(out)@ + report_span(summary@));
}

fn push_matching(out: &mut String, level_lines: Option<&LevelLines>)
    ensures
        final(out)@ == old(out)@ + matching_lines(opt_lines(level_lines)),
{
    if let Some(groups) = level_lines {
        out.append("  matching lines:\n");
        push_group(out, groups.trace.as_slice(), Level::Trace);
        push_group(out, groups.debug.as_slice(), Level::Debug);
        push_group(out, groups.info.as_slice(), Level::Info);
        push_group(out, groups.warn.as_slice(), Level::Warn);
        push_group(out, groups.error.as_slice(), Level::Error);
    }
    assert(final(out)@ =~= old(out)@ + matching_lines(opt_lines(level_lines)));
}

/// The human-readable report for `path`: the filters that are set, the
/// counts, the first/last span and, when given, the matching lines grouped
/// by level (levels without matching lines are left out).
pub fn human_report(
    path: &str,
    summary: &Summary,
    min_level: Option<Level>,
    level: Option<Level>,
    since: Option<&str>,
    until: Option<&str>,
    grep: Option<&str>,
    level_lines: Option<&LevelLines>,
) -> (r: String)
    ensures
        r@ == human_text(
            path@,
            summary@,
            min_level,
            level,
            opt_str_view(since),
            opt_str_view(until),
            opt_str_view(grep),
            opt_lines(level_lines),
        ),
{
    let mut out = String::new();
    push_header(&mut out, path, min_level, level, since, until, grep);
    push_counts(&mut out, summary);
    push_span(&mut out, summary);
    push_matching(&mut out, level_lines);
    assert(out@ =~= human_text(
        path@,
        summary@,
        min_level,
        level,
        opt_str_view(since),
        opt_str_view(until),
        opt_str_view(grep),
        opt_lines(level_lines),
    ));
    out
}

/// The label of a level's count line in the report.
pub open spec fn count_label(l: Level) -> Seq<char> {
    match l {
        Level::Trace => "  trace: "@,
        Level::Debug => "  debug: "@,
        Level::Info => "  info:  "@,
        Level::Warn => "  warn:  "@,
        Level::Error => "  error: "@,
    }
}

proof fn lemma_line_after(prev_label: Seq<char>, prev_n: int, label: Seq<char>, n: int)
    ensures
        contains_text(
            count_line(prev_label, prev_n) + count_line(label, n),
            "\n"@ + label + decimal(n as nat) + "\n"@,
        ),
{
    let needle = "\n"@ + label + decimal(n as nat) + "\n"@;
    assert(count_line(prev_label, prev_n) + count_line(label, n) =~= (prev_label + decimal(prev_n as nat))
        + needle + Seq::<char>::empty());
    lemma_contains_middle(prev_label + decimal(prev_n as nat), needle, Seq::<char>::empty());
}


proof fn lemma_counts_line_0(s: SummaryView)
    ensures
        contains_text(report_counts(s), "  total lines:    "@ + decimal(s.total_lines as nat) + "\n"@),
{
    let t = report_counts(s);
    assert(t == count_line("  total lines:    "@, s.total_lines) + count_line("  unparsed lines: "@, s.unparsed_lines) + count_line("  trace: "@, s.trace) + count_line("  debug: "@, s.debug) + count_line("  info:  "@, s.info) + count_line("  warn:  "@, s.warn) + count_line("  error: "@, s.error));
    assert(count_line("  total lines:    "@, s.total_lines) =~= Seq::<char>::empty() + ("  total lines:    "@ + decimal(s.total_lines as nat) + "\n"@) + Seq::<char>::empty());
    lemma_contains_middle(Seq::<char>::empty(), "  total lines:    "@ + decimal(s.total_lines as nat) + "\n"@, Seq::<char>::empty());
    lemma_contains_extend(count_line("  total lines:    "@, s.total_lines), count_line("  unparsed lines: "@, s.unparsed_lines), "  total lines:    "@ + decimal(s.total_lines as nat) + "\n"@);
    lemma_contains_extend(count_line("  total lines:    "@, s.total_lines) + count_line("  unparsed lines: "@, s.unparsed_lines), count_line("  trace: "@, s.trace), "  total lines:    "@ + decimal(s.total_lines as nat) + "\n"@);
    lemma_contains_extend(count_line("  total lines:    "@, s.total_lines) + count_line("  unparsed lines: "@, s.unparsed_lines) + count_line("  trace: "@, s.trace), count_line("  debug: "@, s.debug), "  total lines:    "@ + decimal(s.total_lines as nat) + "\n"@);
    lemma_contains_extend(count_line("  total lines:    "@, s.total_lines) + count_line("  unparsed lines: "@, s.unparsed_lines) + count_line("  trace: "@, s.trace) + count_line("  debug: "@, s.debug), count_line("  info:  "@, s.info), "  total lines:    "@ + decimal(s.total_lines as nat) + "\n"@);
    lemma_contains_extend(count_line("  total lines:    "@, s.total_lines) + count_line("  unparsed lines: "@, s.unparsed_lines) + count_line("  trace: "@, s.trace) + count_line("  debug: "@, s.debug) + count_line("  info:  "@, s.info), count_line("  warn:  "@, s.warn), "  total lines:    "@ + decimal(s.total_lines as nat) + "\n"@);
    lemma_contains_extend(count_line("  total lines:    "@, s.total_lines) + count_line("  unparsed lines: "@, s.unparsed_lines) + count_line("  trace: "@, s.trace) + count_line("  debug: "@, s.debug) + count_line("  info:  "@, s.info) + count_line("  warn:  "@, s.warn), count_line("  error: "@, s.error), "  total lines:    "@ + decimal(s.total_lines as nat) + "\n"@);
}

proof fn lemma_counts_line_1(s: SummaryView)
    ensures
        contains_text(report_counts(s), "\n"@ + "  unparsed lines: "@ + decimal(s.unparsed_lines as nat) + "\n"@),
{
    let t = report_counts(s);
    assert(t == count_line("  total lines:    "@, s.total_lines) + count_line("  unparsed lines: "@, s.unparsed_lines) + count_line("  trace: "@, s.trace) + count_line("  debug: "@, s.debug) + count_line("  info:  "@, s.info) + count_line("  warn:  "@, s.warn) + count_line("  error: "@, s.error));
    lemma_line_after("  total lines:    "@, s.total_lines, "  unparsed lines: "@, s.unparsed_lines);
    lemma_contains_extend(count_line("  total lines:    "@, s.total_lines) + count_line("  unparsed lines: "@, s.unparsed_lines), count_line("  trace: "@, s.trace), "\n"@ + "  unparsed lines: "@ + decimal(s.unparsed_lines as nat) + "\n"@);
    lemma_contains_extend(count_line("  total lines:    "@, s.total_lines) + count_line("  unparsed lines: "@, s.unparsed_lines) + count_line("  trace: "@, s.trace), count_line("  debug: "@, s.debug), "\n"@ + "  unparsed lines: "@ + decimal(s.unparsed_lines as nat) + "\n"@);
    lemma_contains_extend(count_line("  total lines:    "@, s.total_lines) + count_line("  unparsed lines: "@, s.unparsed_lines) + count_line("  trace: "@, s.trace) + count_line("  debug: "@, s.debug), count_line("  info:  "@, s.info), "\n"@ + "  unparsed lines: "@ + decimal(s.unparsed_lines as nat) + "\n"@);
    lemma_contains_extend(count_line("  total lines:    "@, s.total_lines) + count_line("  unparsed lines: "@, s.unparsed_lines) + count_line("  trace: "@, s.trace) + count_line("  debug: "@, s.debug) + count_line("  info:  "@, s.info), count_line("  warn:  "@, s.warn), "\n"@ + "  unparsed lines: "@ + decimal(s.unparsed_lines as nat) + "\n"@);
    lemma_contains_extend(count_line("  total lines:    "@, s.total_lines) + count_line("  unparsed lines: "@, s.unparsed_lines) + count_line("  trace: "@, s.trace) + count_line("  debug: "@, s.debug) + count_line("  info:  "@, s.info) + count_line("  warn:  "@, s.warn), count_line("  error: "@, s.error), "\n"@ + "  unparsed lines: "@ + decimal(s.unparsed_lines as nat) + "\n"@);
}

proof fn lemma_counts_line_2(s: SummaryView)
    ensures
        contains_text(report_counts(s), "\n"@ + "  trace: "@ + decimal(s.trace as nat) + "\n"@),
{
    let t = report_counts(s);
    assert(t == count_line("  total lines:    "@, s.total_lines) + count_line("  unparsed lines: "@, s.unparsed_lines) + count_line("  trace: "@, s.trace) + count_line("  debug: "@, s.debug) + count_line("  info:  "@, s.info) + count_line("  warn:  "@, s.warn) + count_line("  error: "@, s.error));
    lemma_line_after("  unparsed lines: "@, s.unparsed_lines, "  trace: "@, s.trace);
    lemma_contains_prepend(count_line("  total lines:    "@, s.total_lines), count_line("  unparsed lines: "@, s.unparsed_lines) + count_line("  trace: "@, s.trace), "\n"@ + "  trace: "@ + decimal(s.trace as nat) + "\n"@);
    assert(count_line("  total lines:    "@, s.total_lines) + (count_line("  unparsed lines: "@, s.unparsed_lines) + count_line("  trace: "@, s.trace)) =~= count_line("  total lines:    "@, s.total_lines) + count_line("  unparsed lines: "@, s.unparsed_lines) + count_line("  trace: "@, s.trace));
    lemma_contains_extend(count_line("  total lines:    "@, s.total_lines) + count_line("  unparsed lines: "@, s.unparsed_lines) + count_line("  trace: "@, s.trace), count_line("  debug: "@, s.debug), "\n"@ + "  trace: "@ + decimal(s.trace as nat) + "\n"@);
    lemma_contains_extend(count_line("  total lines:    "@, s.total_lines) + count_line("  unparsed lines: "@, s.unparsed_lines) + count_line("  trace: "@, s.trace) + count_line("  debug: "@, s.debug), count_line("  info:  "@, s.info), "\n"@ + "  trace: "@ + decimal(s.trace as nat) + "\n"@);
    lemma_contains_extend(count_line("  total lines:    "@, s.total_lines) + count_line("  unparsed lines: "@, s.unparsed_lines) + count_line("  trace: "@, s.trace) + count_line("  debug: "@, s.debug) + count_line("  info:  "@, s.info), count_line("  warn:  "@, s.warn), "\n"@ + "  trace: "@ + decimal(s.trace as nat) + "\n"@);
    lemma_contains_extend(count_line("  total lines:    "@, s.total_lines) + count_line("  unparsed lines: "@, s.unparsed_lines) + count_line("  trace: "@, s.trace) + count_line("  debug: "@, s.debug) + count_line("  info:  "@, s.info) + count_line("  warn:  "@, s.warn), count_line("  error: "@, s.error), "\n"@ + "  trace: "@ + decimal(s.trace as nat) + "\n"@);
}

proof fn lemma_counts_line_3(s: SummaryView)
    ensures
        contains_text(report_counts(s), "\n"@ + "  debug: "@ + decimal(s.debug as nat) + "\n"@),
{
    let t = report_counts(s);
    assert(t == count_line("  total lines:    "@, s.total_lines) + count_line("  unparsed lines: "@, s.unparsed_lines) + count_line("  trace: "@, s.trace) + count_line("  debug: "@, s.debug) + count_line("  info:  "@, s.info) + count_line("  warn:  "@, s.warn) + count_line("  error: "@, s.error));
    lemma_line_after("  trace: "@, s.trace, "  debug: "@, s.debug);
    lemma_contains_prepend(count_line("  total lines:    "@, s.total_lines) + count_line("  unparsed lines: "@, s.unparsed_lines), count_line("  trace: "@, s.trace) + count_line("  debug: "@, s.debug), "\n"@ + "  debug: "@ + decimal(s.debug as nat) + "\n"@);
    assert(count_line("  total lines:    "@, s.total_lines) + count_line("  unparsed lines: "@, s.unparsed_lines) + (count_line("  trace: "@, s.trace) + count_line("  debug: "@, s.debug)) =~= count_line("  total lines:    "@, s.total_lines) + count_line("  unparsed lines: "@, s.unparsed_lines) + count_line("  trace: "@, s.trace) + count_line("  debug: "@, s.debug));
    lemma_contains_extend(count_line("  total lines:    "@, s.total_lines) + count_line("  unparsed lines: "@, s.unparsed_lines) + count_line("  trace: "@, s.trace) + count_line("  debug: "@, s.debug), count_line("  info:  "@, s.info), "\n"@ + "  debug: "@ + decimal(s.debug as nat) + "\n"@);
    lemma_contains_extend(count_line("  total lines:    "@, s.total_lines) + count_line("  unparsed lines: "@, s.unparsed_lines) + count_line("  trace: "@, s.trace) + count_line("  debug: "@, s.debug) + count_line("  info:  "@, s.info), count_line("  warn:  "@, s.warn), "\n"@ + "  debug: "@ + decimal(s.debug as nat) + "\n"@);
    lemma_contains_extend(count_line("  total lines:    "@, s.total_lines) + count_line("  unparsed lines: "@, s.unparsed_lines) + count_line("  trace: "@, s.trace) + count_line("  debug: "@, s.debug) + count_line("  info:  "@, s.info) + count_line("  warn:  "@, s.warn), count_line("  error: "@, s.error), "\n"@ + "  debug: "@ + decimal(s.debug as nat) + "\n"@);
}

proof fn lemma_counts_line_4(s: SummaryView)
    ensures
        contains_text(report_counts(s), "\n"@ + "  info:  "@ + decimal(s.info as nat) + "\n"@),
{
    let t = report_counts(s);
    assert(t == count_line("  total lines:    "@, s.total_lines) + count_line("  unparsed lines: "@, s.unparsed_lines) + count_line("  trace: "@, s.trace) + count_line("  debug: "@, s.debug) + count_line("  info:  "@, s.info) + count_line("  warn:  "@, s.warn) + count_line("  error: "@, s.error));
    lemma_line_after("  debug: "@, s.debug, "  info:  "@, s.info);
    lemma_contains_prepend(count_line("  total lines:    "@, s.total_lines) + count_line("  unparsed lines: "@, s.unparsed_lines) + count_line("  trace: "@, s.trace), count_line("  debug: "@, s.debug) + count_line("  info:  "@, s.info), "\n"@ + "  info:  "@ + decimal(s.info as nat) + "\n"@);
    assert(count_line("  total lines:    "@, s.total_lines) + count_line("  unparsed lines: "@, s.unparsed_lines) + count_line("  trace: "@, s.trace) + (count_line("  debug: "@, s.debug) + count_line("  info:  "@, s.info)) =~= count_line("  total lines:    "@, s.total_lines) + count_line("  unparsed lines: "@, s.unparsed_lines) + count_line("  trace: "@, s.trace) + count_line("  debug: "@, s.debug) + count_line("  info:  "@, s.info));
    lemma_contains_extend(count_line("  total lines:    "@, s.total_lines) + count_line("  unparsed lines: "@, s.unparsed_lines) + count_line("  trace: "@, s.trace) + count_line("  debug: "@, s.debug) + count_line("  info:  "@, s.info), count_line("  warn:  "@, s.warn), "\n"@ + "  info:  "@ + decimal(s.info as nat) + "\n"@);
    lemma_contains_extend(count_line("  total lines:    "@, s.total_lines) + count_line("  unparsed lines: "@, s.unparsed_lines) + count_line("  trace: "@, s.trace) + count_line("  debug: "@, s.debug) + count_line("  info:  "@, s.info) + count_line("  warn:  "@, s.warn), count_line("  error: "@, s.error), "\n"@ + "  info:  "@ + decimal(s.info as nat) + "\n"@);
}

proof fn lemma_counts_line_5(s: SummaryView)
    ensures
        contains_text(report_counts(s), "\n"@ + "  warn:  "@ + decimal(s.warn as nat) + "\n"@),
{
    let t = report_counts(s);
    assert(t == count_line("  total lines:    "@, s.total_lines) + count_line("  unparsed lines: "@, s.unparsed_lines) + count_line("  trace: "@, s.trace) + count_line("  debug: "@, s.debug) + count_line("  info:  "@, s.info) + count_line("  warn:  "@, s.warn) + count_line("  error: "@, s.error));
    lemma_line_after("  info:  "@, s.info, "  warn:  "@, s.warn);
    lemma_contains_prepend(count_line("  total lines:    "@, s.total_lines) + count_line("  unparsed lines: "@, s.unparsed_lines) + count_line("  trace: "@, s.trace) + count_line("  debug: "@, s.debug), count_line("  info:  "@, s.info) + count_line("  warn:  "@, s.warn), "\n"@ + "  warn:  "@ + decimal(s.warn as nat) + "\n"@);
    assert(count_line("  total lines:    "@, s.total_lines) + count_line("  unparsed lines: "@, s.unparsed_lines) + count_line("  trace: "@, s.trace) + count_line("  debug: "@, s.debug) + (count_line("  info:  "@, s.info) + count_line("  warn:  "@, s.warn)) =~= count_line("  total lines:    "@, s.total_lines) + count_line("  unparsed lines: "@, s.unparsed_lines) + count_line("  trace: "@, s.trace) + count_line("  debug: "@, s.debug) + count_line("  info:  "@, s.info) + count_line("  warn:  "@, s.warn));
    lemma_contains_extend(count_line("  total lines:    "@, s.total_lines) + count_line("  unparsed lines: "@, s.unparsed_lines) + count_line("  trace: "@, s.trace) + count_line("  debug: "@, s.debug) + count_line("  info:  "@, s.info) + count_line("  warn:  "@, s.warn), count_line("  error: "@, s.error), "\n"@ + "  warn:  "@ + decimal(s.warn as nat) + "\n"@);
}

proof fn lemma_counts_line_6(s: SummaryView)
    ensures
        contains_text(report_counts(s), "\n"@ + "  error: "@ + decimal(s.error as nat) + "\n"@),
{
    let t = report_counts(s);
    assert(t == count_line("  total lines:    "@, s.total_lines) + count_line("  unparsed lines: "@, s.unparsed_lines) + count_line("  trace: "@, s.trace) + count_line("  debug: "@, s.debug) + count_line("  info:  "@, s.info) + count_line("  warn:  "@, s.warn) + count_line("  error: "@, s.error));
    lemma_line_after("  warn:  "@, s.warn, "  error: "@, s.error);
    lemma_contains_prepend(count_line("  total lines:    "@, s.total_lines) + count_line("  unparsed lines: "@, s.unparsed_lines) + count_line("  trace: "@, s.trace) + count_line("  debug: "@, s.debug) + count_line("  info:  "@, s.info), count_line("  warn:  "@, s.warn) + count_line("  error: "@, s.error), "\n"@ + "  error: "@ + decimal(s.error as nat) + "\n"@);
    assert(count_line("  total lines:    "@, s.total_lines) + count_line("  unparsed lines: "@, s.unparsed_lines) + count_line("  trace: "@, s.trace) + count_line("  debug: "@, s.debug) + count_line("  info:  "@, s.info) + (count_line("  warn:  "@, s.warn) + count_line("  error: "@, s.error)) =~= count_line("  total lines:    "@, s.total_lines) + count_line("  unparsed lines: "@, s.unparsed_lines) + count_line("  trace: "@, s.trace) + count_line("  debug: "@, s.debug) + count_line("  info:  "@, s.info) + count_line("  warn:  "@, s.warn) + count_line("  error: "@, s.error));
}

/// The report states each count on its own line under its own label: the
/// totals, and for every level a line `  <level>: <count>` carrying that
/// level's count.
pub proof fn lemma_report_count_lines(
    path: Seq<char>,
    s: SummaryView,
    min_level: Option<Level>,
    level: Option<Level>,
    since: Option<Seq<char>>,
    until: Option<Seq<char>>,
    grep: Option<Seq<char>>,
    lines: Option<LevelLinesView>,
    l: Level,
)
    ensures
        contains_text(
            human_text(path, s, min_level, level, since, until, grep, lines),
            "  total lines:    "@ + decimal(s.total_lines as nat) + "\n"@,
        ),
        contains_text(
            human_text(path, s, min_level, level, since, until, grep, lines),
            "\n"@ + "  unparsed lines: "@ + decimal(s.unparsed_lines as nat) + "\n"@,
        ),
        contains_text(
            human_text(path, s, min_level, level, since, until, grep, lines),
            "\n"@ + count_label(l) + decimal(s.count(l) as nat) + "\n"@,
        ),
{
    let h = report_header(path, min_level, level, since, until, grep);
    let c = report_counts(s);
    let sp = report_span(s);
    let m = matching_lines(lines);
    let t = human_text(path, s, min_level, level, since, until, grep, lines);
    assert(t == h + c + sp + m);
    lemma_counts_line_0(s);
    lemma_counts_line_1(s);
    lemma_counts_line_2(s);
    lemma_counts_line_3(s);
    lemma_counts_line_4(s);
    lemma_counts_line_5(s);
    lemma_counts_line_6(s);
    let n0 = "  total lines:    "@ + decimal(s.total_lines as nat) + "\n"@;
    let n1 = "\n"@ + "  unparsed lines: "@ + decimal(s.unparsed_lines as nat) + "\n"@;
    let nl = "\n"@ + count_label(l) + decimal(s.count(l) as nat) + "\n"@;
    lemma_contains_prepend(h, c, n0);
    lemma_contains_extend(h + c, sp, n0);
    lemma_contains_extend(h + c + sp, m, n0);
    lemma_contains_prepend(h, c, n1);
    lemma_contains_extend(h + c, sp, n1);
    lemma_contains_extend(h + c + sp, m, n1);
    lemma_contains_prepend(h, c, nl);
    lemma_contains_extend(h + c, sp, nl);
    lemma_contains_extend(h + c + sp, m, nl);
}

proof fn lemma_whole_line(line: Seq<char>)
    ensures
        contains_text(line, line),
{
    assert(line =~= Seq::<char>::empty() + line + Seq::<char>::empty());
    lemma_contains_middle(Seq::<char>::empty(), line, Seq::<char>::empty());
}

proof fn lemma_take_left(x: Seq<char>, y: Seq<char>, k: int)
    requires
        0 <= k <= x.len(),
    ensures
        (x + y).take(k) == x.take(k),
{
    assert((x + y).take(k) =~= x.take(k));
}

proof fn lemma_first_line(
    path: Seq<char>,
    s: SummaryView,
    min_level: Option<Level>,
    level: Option<Level>,
    since: Option<Seq<char>>,
    until: Option<Seq<char>>,
    grep: Option<Seq<char>>,
    lines: Option<LevelLinesView>,
)
    ensures
        human_text(path, s, min_level, level, since, until, grep, lines).take(path.len() + 1int)
            == path + "\n"@,
{
    reveal_strlit("\n");
    let k = path.len() + 1int;
    let q1 = path + "\n"@;
    let q2 = q1 + level_line("  min level:      "@, min_level);
    let q3 = q2 + level_line("  level:          "@, level);
    let q4 = q3 + optional_line("  since:          "@, since);
    let q5 = q4 + optional_line("  until:          "@, until);
    let h = q5 + optional_line("  grep:           "@, grep);
    assert(h == report_header(path, min_level, level, since, until, grep));
    let t1 = h + report_counts(s);
    let t2 = t1 + report_span(s);
    let t = t2 + matching_lines(lines);
    assert(t == human_text(path, s, min_level, level, since, until, grep, lines));
    assert(q1.take(k) =~= q1);
    lemma_take_left(q1, level_line("  min level:      "@, min_level), k);
    lemma_take_left(q2, level_line("  level:          "@, level), k);
    lemma_take_left(q3, optional_line("  since:          "@, since), k);
    lemma_take_left(q4, optional_line("  until:          "@, until), k);
    lemma_take_left(q5, optional_line("  grep:           "@, grep), k);
    lemma_take_left(h, report_counts(s), k);
    lemma_take_left(t1, report_span(s), k);
    lemma_take_left(t2, matching_lines(lines), k);
}

proof fn lemma_header_lines(
    path: Seq<char>,
    min_level: Option<Level>,
    level: Option<Level>,
    since: Option<Seq<char>>,
    until: Option<Seq<char>>,
    grep: Option<Seq<char>>,
)
    ensures
        ({
            let h = report_header(path, min_level, level, since, until, grep);
            &&& contains_text(h, level_line("  min level:      "@, min_level))
            &&& contains_text(h, level_line("  level:          "@, level))
            &&& contains_text(h, optional_line("  since:          "@, since))
            &&& contains_text(h, optional_line("  until:          "@, until))
            &&& contains_text(h, optional_line("  grep:           "@, grep))
        }),
{
    let p0 = path;
    let p1 = "\n"@;
    let p2 = level_line("  min level:      "@, min_level);
    let p3 = level_line("  level:          "@, level);
    let p4 = optional_line("  since:          "@, since);
    let p5 = optional_line("  until:          "@, until);
    let p6 = optional_line("  grep:           "@, grep);
    assert(report_header(path, min_level, level, since, until, grep) == p0 + p1 + p2 + p3 + p4 + p5 + p6);
    lemma_whole_line(p2);
    lemma_whole_line(p3);
    lemma_whole_line(p4);
    lemma_whole_line(p5);
    lemma_whole_line(p6);
    lemma_contains_prepend(p0 + p1, p2, p2);
    lemma_contains_extend(p0 + p1 + p2, p3, p2);
    lemma_contains_extend(p0 + p1 + p2 + p3, p4, p2);
    lemma_contains_extend(p0 + p1 + p2 + p3 + p4, p5, p2);
    lemma_contains_extend(p0 + p1 + p2 + p3 + p4 + p5, p6, p2);
    lemma_contains_prepend(p0 + p1 + p2, p3, p3);
    lemma_contains_extend(p0 + p1 + p2 + p3, p4, p3);
    lemma_contains_extend(p0 + p1 + p2 + p3 + p4, p5, p3);
    lemma_contains_extend(p0 + p1 + p2 + p3 + p4 + p5, p6, p3);
    lemma_contains_prepend(p0 + p1 + p2 + p3, p4, p4);
    lemma_contains_extend(p0 + p1 + p2 + p3 + p4, p5, p4);
    lemma_contains_extend(p0 + p1 + p2 + p3 + p4 + p5, p6, p4);
    lemma_contains_prepend(p0 + p1 + p2 + p3 + p4, p5, p5);
    lemma_contains_extend(p0 + p1 + p2 + p3 + p4 + p5, p6, p5);
    lemma_contains_prepend(p0 + p1 + p2 + p3 + p4 + p5, p6, p6);
}

proof fn lemma_header_part_in_report(
    path: Seq<char>,
    s: SummaryView,
    min_level: Option<Level>,
    level: Option<Level>,
    since: Option<Seq<char>>,
    until: Option<Seq<char>>,
    grep: Option<Seq<char>>,
    lines: Option<LevelLinesView>,
    part: Seq<char>,
)
    requires
        contains_text(report_header(path, min_level, level, since, until, grep), part),
    ensures
        contains_text(human_text(path, s, min_level, level, since, until, grep, lines), part),
{
    let h = report_header(path, min_level, level, since, until, grep);
    let c = report_counts(s);
    let sp = report_span(s);
    let m = matching_lines(lines);
    lemma_contains_extend(h, c, part);
    lemma_contains_extend(h + c, sp, part);
    lemma_contains_extend(h + c + sp, m, part);
}

proof fn lemma_span_part_in_report(
    path: Seq<char>,
    s: SummaryView,
    min_level: Option<Level>,
    level: Option<Level>,
    since: Option<Seq<char>>,
    until: Option<Seq<char>>,
    grep: Option<Seq<char>>,
    lines: Option<LevelLinesView>,
)
    ensures
        contains_text(
            human_text(path, s, min_level, level, since, until, grep, lines),
            optional_line("  first: "@, s.first_timestamp),
        ),
        contains_text(
            human_text(path, s, min_level, level, since, until, grep, lines),
            optional_line("  last:  "@, s.last_timestamp),
        ),
{
    let h = report_header(path, min_level, level, since, until, grep);
    let c = report_counts(s);
    let f = optional_line("  first: "@, s.first_timestamp);
    let l = optional_line("  last:  "@, s.last_timestamp);
    let m = matching_lines(lines);
    lemma_whole_line(f);
    lemma_whole_line(l);
    lemma_contains_extend(f, l, f);
    lemma_contains_prepend(f, l, l);
    lemma_contains_prepend(h + c, f + l, f);
    lemma_contains_extend(h + c + (f + l), m, f);
    lemma_contains_prepend(h + c, f + l, l);
    lemma_contains_extend(h + c + (f + l), m, l);
}

/// The report names the file on its first line, states each filter that
/// is set on a line under its own label, and shows the first and last
/// timestamps, when there are any, under their labels.
pub proof fn lemma_report_header_and_span(
    path: Seq<char>,
    s: SummaryView,
    min_level: Option<Level>,
    level: Option<Level>,
    since: Option<Seq<char>>,
    until: Option<Seq<char>>,
    grep: Option<Seq<char>>,
    lines: Option<LevelLinesView>,
)
    ensures
        ({
            let t = human_text(path, s, min_level, level, since, until, grep, lines);
            &&& t.take(path.len() + 1int) == path + "\n"@
            &&& min_level matches Some(m) ==> contains_text(t, "  min level:      "@ + level_name(m) + "\n"@)
            &&& level matches Some(x) ==> contains_text(t, "  level:          "@ + level_name(x) + "\n"@)
            &&& since matches Some(v) ==> contains_text(t, "  since:          "@ + v + "\n"@)
            &&& until matches Some(v) ==> contains_text(t, "  until:          "@ + v + "\n"@)
            &&& grep matches Some(v) ==> contains_text(t, "  grep:           "@ + v + "\n"@)
            &&& s.first_timestamp matches Some(v) ==> contains_text(t, "  first: "@ + v + "\n"@)
            &&& s.last_timestamp matches Some(v) ==> contains_text(t, "  last:  "@ + v + "\n"@)
        }),
{
    lemma_first_line(path, s, min_level, level, since, until, grep, lines);
    lemma_header_lines(path, min_level, level, since, until, grep);
    lemma_header_part_in_report(path, s, min_level, level, since, until, grep, lines, level_line("  min level:      "@, min_level));
    lemma_header_part_in_report(path, s, min_level, level, since, until, grep, lines, level_line("  level:          "@, level));
    lemma_header_part_in_report(path, s, min_level, level, since, until, grep, lines, optional_line("  since:          "@, since));
    lemma_header_part_in_report(path, s, min_level, level, since, until, grep, lines, optional_line("  until:          "@, until));
    lemma_header_part_in_report(path, s, min_level, level, since, until, grep, lines, optional_line("  grep:           "@, grep));
    lemma_span_part_in_report(path, s, min_level, level, since, until, grep, lines);
}

} // verus!
