//! Aggregating a log file's lines into counts, a time span and, on request,
//! the matching entries grouped by level.
use vstd::prelude::*;
use crate::entry::{parse_line, parse_line_spec, Entry, EntryView};
use crate::filter::{filter_view, filters_of, no_filters, passes, passes_filters_and_message, FilterView};
use crate::level::Level;

verus! {

/// Aggregate counts across a set of lines.
#[derive(Debug)]
pub struct Summary {
    pub total_lines: usize,
    pub unparsed_lines: usize,
    pub trace: usize,
    pub debug: usize,
    pub info: usize,
    pub warn: usize,
    pub error: usize,
    pub first_timestamp: Option<String>,
    pub last_timestamp: Option<String>,
}

pub struct SummaryView {
    pub total_lines: int,
    pub unparsed_lines: int,
    pub trace: int,
    pub debug: int,
    pub info: int,
    pub warn: int,
    pub error: int,
    pub first_timestamp: Option<Seq<char>>,
    pub last_timestamp: Option<Seq<char>>,
}

impl SummaryView {
    pub open spec fn count(self, l: Level) -> int {
        match l {
            Level::Trace => self.trace,
            Level::Debug => self.debug,
            Level::Info => self.info,
            Level::Warn => self.warn,
            Level::Error => self.error,
        }
    }
}

impl View for Summary {
    type V = SummaryView;

    open spec fn view(&self) -> SummaryView {
        SummaryView {
            total_lines: self.total_lines as int,
            unparsed_lines: self.unparsed_lines as int,
            trace: self.trace as int,
            debug: self.debug as int,
            info: self.info as int,
            warn: self.warn as int,
            error: self.error as int,
            first_timestamp: self.first_timestamp.deep_view(),
            last_timestamp: self.last_timestamp.deep_view(),
        }
    }
}

/// Matching entries grouped by level, for callers that want the actual
/// lines rather than just counts.
#[derive(Debug)]
pub struct LevelLines {
    pub trace: Vec<Entry>,
    pub debug: Vec<Entry>,
    pub info: Vec<Entry>,
    pub warn: Vec<Entry>,
    pub error: Vec<Entry>,
}

pub struct LevelLinesView {
    pub trace: Seq<EntryView>,
    pub debug: Seq<EntryView>,
    pub info: Seq<EntryView>,
    pub warn: Seq<EntryView>,
    pub error: Seq<EntryView>,
}

impl LevelLinesView {
    pub open spec fn for_level(self, l: Level) -> Seq<EntryView> {
        match l {
            Level::Trace => self.trace,
            Level::Debug => self.debug,
            Level::Info => self.info,
            Level::Warn => self.warn,
            Level::Error => self.error,
        }
    }
}

pub open spec fn entries_view(v: Seq<Entry>) -> Seq<EntryView> {
    v.map_values(|e: Entry| e@)
}

impl View for LevelLines {
    type V = LevelLinesView;

    open spec fn view(&self) -> LevelLinesView {
        LevelLinesView {
            trace: entries_view(self.trace@),
            debug: entries_view(self.debug@),
            info: entries_view(self.info@),
            warn: entries_view(self.warn@),
            error: entries_view(self.error@),
        }
    }
}

/// The text of each input line.
pub open spec fn line_views(lines: Seq<&str>) -> Seq<Seq<char>> {
    lines.map_values(|l: &str| l@)
}

/// The entries that parse and pass the filters, in input order.
pub open spec fn kept(lines: Seq<Seq<char>>, f: FilterView) -> Seq<EntryView>
    decreases lines.len(),
{
    if lines.len() == 0 {
        Seq::empty()
    } else {
        let prev = kept(lines.drop_last(), f);
        let l = lines.last();
        if parse_line_spec(l) is Some && passes(parse_line_spec(l)->0, f) {
            prev.push(parse_line_spec(l)->0)
        } else {
            prev
        }
    }
}

/// How many lines do not parse as an entry (blank lines among them).
pub open spec fn count_unparsed(lines: Seq<Seq<char>>) -> int
    decreases lines.len(),
{
    if lines.len() == 0 {
        0
    } else {
        count_unparsed(lines.drop_last()) + (if parse_line_spec(lines.last()) is None {
            1int
        } else {
            0int
        })
    }
}

/// The entries of level `l`, in order.
pub open spec fn of_level(es: Seq<EntryView>, l: Level) -> Seq<EntryView>
    decreases es.len(),
{
    if es.len() == 0 {
        Seq::empty()
    } else if es.last().level == l {
        of_level(es.drop_last(), l).push(es.last())
    } else {
        of_level(es.drop_last(), l)
    }
}

/// What summarizing `lines` under filters `f` yields: every line counts
/// toward the total, those that don't parse (blank ones included) toward
/// `unparsed_lines`,
/// and the kept entries toward their level's count and the first/last span.
pub open spec fn summary_of(lines: Seq<Seq<char>>, f: FilterView) -> SummaryView {
    let k = kept(lines, f);
    SummaryView {
        total_lines: lines.len() as int,
        unparsed_lines: count_unparsed(lines),
        trace: of_level(k, Level::Trace).len() as int,
        debug: of_level(k, Level::Debug).len() as int,
        info: of_level(k, Level::Info).len() as int,
        warn: of_level(k, Level::Warn).len() as int,
        error: of_level(k, Level::Error).len() as int,
        first_timestamp: if k.len() > 0 { Some(k[0].timestamp) } else { None },
        last_timestamp: if k.len() > 0 { Some(k.last().timestamp) } else { None },
    }
}

/// The kept entries grouped by level.
pub open spec fn level_lines_of(lines: Seq<Seq<char>>, f: FilterView) -> LevelLinesView {
    let k = kept(lines, f);
    LevelLinesView {
        trace: of_level(k, Level::Trace),
        debug: of_level(k, Level::Debug),
        info: of_level(k, Level::Info),
        warn: of_level(k, Level::Warn),
        error: of_level(k, Level::Error),
    }
}

pub open spec fn empty_summary() -> SummaryView {
    SummaryView {
        total_lines: 0,
        unparsed_lines: 0,
        trace: 0,
        debug: 0,
        info: 0,
        warn: 0,
        error: 0,
        first_timestamp: None,
        last_timestamp: None,
    }
}

pub open spec fn empty_level_lines() -> LevelLinesView {
    LevelLinesView {
        trace: Seq::empty(),
        debug: Seq::empty(),
        info: Seq::empty(),
        warn: Seq::empty(),
        error: Seq::empty(),
    }
}

/// The summary after one more kept entry.
pub open spec fn recorded(s: SummaryView, e: EntryView) -> SummaryView {
    SummaryView {
        trace: s.trace + (if e.level == Level::Trace { 1int } else { 0int }),
        debug: s.debug + (if e.level == Level::Debug { 1int } else { 0int }),
        info: s.info + (if e.level == Level::Info { 1int } else { 0int }),
        warn: s.warn + (if e.level == Level::Warn { 1int } else { 0int }),
        error: s.error + (if e.level == Level::Error { 1int } else { 0int }),
        first_timestamp: if s.first_timestamp is None { Some(e.timestamp) } else { s.first_timestamp },
        last_timestamp: Some(e.timestamp),
        ..s
    }
}

/// The grouped entries after one more kept entry.
pub open spec fn with_entry(v: LevelLinesView, e: EntryView) -> LevelLinesView {
    LevelLinesView {
        trace: if e.level == Level::Trace { v.trace.push(e) } else { v.trace },
        debug: if e.level == Level::Debug { v.debug.push(e) } else { v.debug },
        info: if e.level == Level::Info { v.info.push(e) } else { v.info },
        warn: if e.level == Level::Warn { v.warn.push(e) } else { v.warn },
        error: if e.level == Level::Error { v.error.push(e) } else { v.error },
    }
}

impl Default for Summary {
    fn default() -> (r: Summary)
        ensures
            r@ == empty_summary(),
    {
        Summary {
            total_lines: 0,
            unparsed_lines: 0,
            trace: 0,
            debug: 0,
            info: 0,
            warn: 0,
            error: 0,
            first_timestamp: None,
            last_timestamp: None,
        }
    }
}

impl Default for LevelLines {
    fn default() -> (r: LevelLines)
        ensures
            r@ == empty_level_lines(),
    {
        let r = LevelLines {
            trace: Vec::new(),
            debug: Vec::new(),
            info: Vec::new(),
            warn: Vec::new(),
            error: Vec::new(),
        };
        assert(entries_view(r.trace@) =~= Seq::<EntryView>::empty());
        assert(entries_view(r.debug@) =~= Seq::<EntryView>::empty());
        assert(entries_view(r.info@) =~= Seq::<EntryView>::empty());
        assert(entries_view(r.warn@) =~= Seq::<EntryView>::empty());
        assert(entries_view(r.error@) =~= Seq::<EntryView>::empty());
        r
    }
}

fn copy_timestamp(e: &Entry) -> (r: Option<String>)
    ensures
        r.deep_view() == Some(e.timestamp@),
{
    Some(e.timestamp.clone())
}

impl Summary {
    pub fn count_for(&self, level: Level) -> (r: usize)
        ensures
            r == self@.count(level),
    {
        match level {
            Level::Trace => self.trace,
            Level::Debug => self.debug,
            Level::Info => self.info,
            Level::Warn => self.warn,
            Level::Error => self.error,
        }
    }

    fn record(&mut self, entry: &Entry)
        requires
            old(self)@.count(entry.level) < usize::MAX,
        ensures
            final(self)@ == recorded(old(self)@, entry@),
    {
        match entry.level {
            Level::Trace => self.trace += 1,
            Level::Debug => self.debug += 1,
            Level::Info => self.info += 1,
            Level::Warn => self.warn += 1,
            Level::Error => self.error += 1,
        }
        if self.first_timestamp.is_none() {
            self.first_timestamp = copy_timestamp(entry);
        }
        self.last_timestamp = copy_timestamp(entry);
    }
}

proof fn lemma_entries_view_push(v: Seq<Entry>, e: Entry)
    ensures
        entries_view(v.push(e)) == entries_view(v).push(e@),
{
    assert(entries_view(v.push(e)) =~= entries_view(v).push(e@));
}

impl LevelLines {
    fn record(&mut self, entry: &Entry)
        ensures
            final(self)@ == with_entry(old(self)@, entry@),
    {
        proof {
            lemma_entries_view_push(self.trace@, *entry);
            lemma_entries_view_push(self.debug@, *entry);
            lemma_entries_view_push(self.info@, *entry);
            lemma_entries_view_push(self.warn@, *entry);
            lemma_entries_view_push(self.error@, *entry);
        }
        let copy = entry.copy();
        proof {
            lemma_entries_view_push(self.trace@, copy);
            lemma_entries_view_push(self.debug@, copy);
            lemma_entries_view_push(self.info@, copy);
            lemma_entries_view_push(self.warn@, copy);
            lemma_entries_view_push(self.error@, copy);
        }
        match entry.level {
            Level::Trace => self.trace.push(copy),
            Level::Debug => self.debug.push(copy),
            Level::Info => self.info.push(copy),
            Level::Warn => self.warn.push(copy),
            Level::Error => self.error.push(copy),
        }
    }

    pub fn for_level(&self, level: Level) -> (r: &[Entry])
        ensures
            entries_view(r@) == self@.for_level(level),
    {
        match level {
            Level::Trace => self.trace.as_slice(),
            Level::Debug => self.debug.as_slice(),
            Level::Info => self.info.as_slice(),
            Level::Warn => self.warn.as_slice(),
            Level::Error => self.error.as_slice(),
        }
    }
}

proof fn lemma_of_level_push(k: Seq<EntryView>, e: EntryView, l: Level)
    ensures
        of_level(k.push(e), l) == (if e.level == l { of_level(k, l).push(e) } else { of_level(k, l) }),
{
    assert(k.push(e).drop_last() =~= k);
}

proof fn lemma_of_level_len(k: Seq<EntryView>, l: Level)
    ensures
        of_level(k, l).len() <= k.len(),
    decreases k.len(),
{
    if k.len() > 0 {
        lemma_of_level_len(k.drop_last(), l);
    }
}

proof fn lemma_counts_bounded(ls: Seq<Seq<char>>, f: FilterView)
    ensures
        0 <= count_unparsed(ls) <= ls.len(),
        kept(ls, f).len() <= ls.len(),
    decreases ls.len(),
{
    if ls.len() > 0 {
        lemma_counts_bounded(ls.drop_last(), f);
    }
}

proof fn lemma_take_step(ls: Seq<Seq<char>>, i: int)
    requires
        0 <= i < ls.len(),
    ensures
        ls.take(i + 1).drop_last() == ls.take(i),
        ls.take(i + 1).last() == ls[i],
        ls.take(i + 1).len() == i + 1,
{
    assert(ls.take(i + 1).drop_last() =~= ls.take(i));
}

/// The effect of the `i`-th line on the summary and on the grouped entries.
proof fn lemma_summary_step(ls: Seq<Seq<char>>, i: int, f: FilterView)
    requires
        0 <= i < ls.len(),
    ensures
        ({
            let prev = summary_of(ls.take(i), f);
            let next = summary_of(ls.take(i + 1), f);
            let prev_lines = level_lines_of(ls.take(i), f);
            let next_lines = level_lines_of(ls.take(i + 1), f);
            let l = ls[i];
            let bumped = SummaryView { total_lines: prev.total_lines + 1, ..prev };
            &&& parse_line_spec(l) is None ==> next == SummaryView {
                unparsed_lines: prev.unparsed_lines + 1,
                ..bumped
            } && next_lines == prev_lines
            &&& parse_line_spec(l) is Some && !passes(parse_line_spec(l)->0, f)
                ==> next == bumped && next_lines == prev_lines
            &&& parse_line_spec(l) is Some && passes(parse_line_spec(l)->0, f)
                ==> next == recorded(bumped, parse_line_spec(l)->0) && next_lines == with_entry(
                prev_lines,
                parse_line_spec(l)->0,
            )
        }),
{
    lemma_take_step(ls, i);
    let k = kept(ls.take(i), f);
    let l = ls[i];
    if parse_line_spec(l) is Some && passes(parse_line_spec(l)->0, f) {
        let e = parse_line_spec(l)->0;
        assert(kept(ls.take(i + 1), f) == k.push(e));
        lemma_of_level_push(k, e, Level::Trace);
        lemma_of_level_push(k, e, Level::Debug);
        lemma_of_level_push(k, e, Level::Info);
        lemma_of_level_push(k, e, Level::Warn);
        lemma_of_level_push(k, e, Level::Error);
        assert(k.push(e)[0] == (if k.len() > 0 { k[0] } else { e }));
    }
}

/// Summarize lines under the given filters; when `collect` is set, also
/// keep a copy of every entry that passed, grouped by level.
fn summarize_core(
    lines: &[&str],
    min_level: Option<Level>,
    level: Option<Level>,
    since: Option<&str>,
    until: Option<&str>,
    message_contains: Option<&str>,
    collect: bool,
) -> (r: (Summary, LevelLines))
    ensures
        r.0@ == summary_of(line_views(lines@), filters_of(min_level, level, since, until, message_contains)),
        collect ==> r.1@ == level_lines_of(
            line_views(lines@),
            filters_of(min_level, level, since, until, message_contains),
        ),
        !collect ==> r.1@ == empty_level_lines(),
{
    let ghost f = filters_of(min_level, level, since, until, message_contains);
    let ghost ls = line_views(lines@);
    let mut summary = Summary::default();
    let mut collected = LevelLines::default();
    let mut i: usize = 0;
    proof {
        assert(ls.take(0) =~= Seq::<Seq<char>>::empty());
        assert(kept(ls.take(0), f) =~= Seq::<EntryView>::empty());
    }
    while i < lines.len()
        invariant
            i <= lines@.len(),
            ls == line_views(lines@),
            ls.len() == lines@.len(),
            f == filters_of(min_level, level, since, until, message_contains),
            summary@ == summary_of(ls.take(i as int), f),
            collect ==> collected@ == level_lines_of(ls.take(i as int), f),
            !collect ==> collected@ == empty_level_lines(),
        decreases lines@.len() - i,
    {
        let line = lines[i];
        proof {
            lemma_summary_step(ls, i as int, f);
            lemma_counts_bounded(ls.take(i as int), f);
            let k = kept(ls.take(i as int), f);
            lemma_of_level_len(k, Level::Trace);
            lemma_of_level_len(k, Level::Debug);
            lemma_of_level_len(k, Level::Info);
            lemma_of_level_len(k, Level::Warn);
            lemma_of_level_len(k, Level::Error);
            assert(ls[i as int] == line@);
        }
        summary.total_lines += 1;
        match parse_line(line) {
            Some(entry) => {
                if passes_filters_and_message(&entry, min_level, level, since, until, message_contains) {
                    summary.record(&entry);
                    if collect {
                        collected.record(&entry);
                    }
                }
            },
            None => summary.unparsed_lines += 1,
        }
        i = i + 1;
    }
    assert(ls.take(lines@.len() as int) =~= ls);
    (summary, collected)
}

/// Summarize a full log file's contents, one line at a time.
pub fn summarize(lines: &[&str]) -> (r: Summary)
    ensures
        r@ == summary_of(line_views(lines@), no_filters()),
{
    summarize_with_filters(lines, None, None, None, None)
}

/// Summarize a full log file's contents, dropping any parsed entry below
/// `min_level` from the per-level counts and the first/last timestamp span.
/// Lines that don't parse at all still count toward `unparsed_lines`
/// regardless of the filter: the filter only applies to recognized levels.
pub fn summarize_with_min_level(lines: &[&str], min_level: Option<Level>) -> (r: Summary)
    ensures
        r@ == summary_of(line_views(lines@), filter_view(min_level, None, None, None)),
{
    summarize_with_filters(lines, min_level, None, None, None)
}

/// Summarize a full log file's contents, dropping any parsed entry that
/// falls below `min_level`, doesn't exactly match `level`, or falls outside
/// the `[since, until]` timestamp range, from the per-level counts and the
/// first/last timestamp span.
///
/// `since` and `until` are inclusive on both ends. Timestamps in a
/// recognized shape (RFC 3339 with `Z` or a numeric offset, or bare Unix
/// epoch seconds; see the `timestamp` module) are compared chronologically
/// regardless of which of those shapes each side uses. Anything else falls
/// back to a plain string comparison, which only orders correctly for
/// formats that happen to sort the same as text.
///
/// Lines that don't parse at all still count toward `unparsed_lines`
/// regardless of any filter: filters only apply to recognized levels.
pub fn summarize_with_filters(
    lines: &[&str],
    min_level: Option<Level>,
    level: Option<Level>,
    since: Option<&str>,
    until: Option<&str>,
) -> (r: Summary)
    ensures
        r@ == summary_of(line_views(lines@), filter_view(min_level, level, since, until)),
{
    summarize_with_all_filters(lines, min_level, level, since, until, None)
}

/// Same filtering as `summarize_with_filters`, but also keeps a copy of
/// every entry that passed the filters, grouped by level. Costs more memory
/// than the plain summary, so it's opt-in rather than the default.
pub fn summarize_with_filters_and_lines(
    lines: &[&str],
    min_level: Option<Level>,
    level: Option<Level>,
    since: Option<&str>,
    until: Option<&str>,
) -> (r: (Summary, LevelLines))
    ensures
        r.0@ == summary_of(line_views(lines@), filter_view(min_level, level, since, until)),
        r.1@ == level_lines_of(line_views(lines@), filter_view(min_level, level, since, until)),
{
    summarize_with_all_filters_and_lines(lines, min_level, level, since, until, None)
}

/// `summarize_with_filters` with a message filter as well: when
/// `message_contains` is set, only entries whose message holds that text
/// are counted.
pub fn summarize_with_all_filters(
    lines: &[&str],
    min_level: Option<Level>,
    level: Option<Level>,
    since: Option<&str>,
    until: Option<&str>,
    message_contains: Option<&str>,
) -> (r: Summary)
    ensures
        r@ == summary_of(line_views(lines@), filters_of(min_level, level, since, until, message_contains)),
{
    let (summary, _) = summarize_core(lines, min_level, level, since, until, message_contains, false);
    summary
}

/// `summarize_with_filters_and_lines` with a message filter as well.
pub fn summarize_with_all_filters_and_lines(
    lines: &[&str],
    min_level: Option<Level>,
    level: Option<Level>,
    since: Option<&str>,
    until: Option<&str>,
    message_contains: Option<&str>,
) -> (r: (Summary, LevelLines))
    ensures
        r.0@ == summary_of(line_views(lines@), filters_of(min_level, level, since, until, message_contains)),
        r.1@ == level_lines_of(
            line_views(lines@),
            filters_of(min_level, level, since, until, message_contains),
        ),
{
    summarize_core(lines, min_level, level, since, until, message_contains, true)
}

pub open spec fn level_total(s: SummaryView) -> int {
    s.trace + s.debug + s.info + s.warn + s.error
}

proof fn lemma_of_level_partition(k: Seq<EntryView>)
    ensures
        of_level(k, Level::Trace).len() + of_level(k, Level::Debug).len() + of_level(k, Level::Info).len()
            + of_level(k, Level::Warn).len() + of_level(k, Level::Error).len() == k.len(),
    decreases k.len(),
{
    if k.len() > 0 {
        lemma_of_level_partition(k.drop_last());
    }
}

proof fn lemma_kept_plus_unparsed(ls: Seq<Seq<char>>, f: FilterView)
    ensures
        kept(ls, f).len() + count_unparsed(ls) <= ls.len(),
        f == no_filters() ==> kept(ls, f).len() + count_unparsed(ls) == ls.len(),
    decreases ls.len(),
{
    if ls.len() > 0 {
        lemma_kept_plus_unparsed(ls.drop_last(), f);
    }
}

/// Line totals and unparsed-line counts do not depend on the filters: a
/// filter only ever drops recognized entries.
pub proof fn lemma_unparsed_ignores_filters(lines: Seq<Seq<char>>, f: FilterView, g: FilterView)
    ensures
        summary_of(lines, f).total_lines == summary_of(lines, g).total_lines,
        summary_of(lines, f).unparsed_lines == summary_of(lines, g).unparsed_lines,
{
}

/// Without filters, every line is either attributed to exactly
/// one level or counted as unparsed.
pub proof fn lemma_every_line_accounted(lines: Seq<Seq<char>>)
    ensures
        level_total(summary_of(lines, no_filters())) + summary_of(lines, no_filters()).unparsed_lines
            == summary_of(lines, no_filters()).total_lines,
{
    lemma_of_level_partition(kept(lines, no_filters()));
    lemma_kept_plus_unparsed(lines, no_filters());
}

/// Under any filters, level counts plus unparsed lines never exceed the
/// total, and the first/last span is present exactly when some entry was
/// counted.
pub proof fn lemma_counts_within_total(lines: Seq<Seq<char>>, f: FilterView)
    ensures
        level_total(summary_of(lines, f)) + summary_of(lines, f).unparsed_lines <= summary_of(lines, f).total_lines,
        summary_of(lines, f).first_timestamp is Some <==> level_total(summary_of(lines, f)) > 0,
        summary_of(lines, f).last_timestamp is Some <==> level_total(summary_of(lines, f)) > 0,
{
    lemma_of_level_partition(kept(lines, f));
    lemma_kept_plus_unparsed(lines, f);
}

proof fn lemma_kept_all_pass(ls: Seq<Seq<char>>, f: FilterView)
    ensures
        forall|i: int| 0 <= i < kept(ls, f).len() ==> passes(#[trigger] kept(ls, f)[i], f),
    decreases ls.len(),
{
    if ls.len() > 0 {
        lemma_kept_all_pass(ls.drop_last(), f);
        let prev = kept(ls.drop_last(), f);
        assert forall|i: int| 0 <= i < kept(ls, f).len() implies passes(#[trigger] kept(ls, f)[i], f) by {
            if i < prev.len() {
                assert(kept(ls, f)[i] == prev[i]);
            }
        }
    }
}

proof fn lemma_of_level_subset(k: Seq<EntryView>, l: Level)
    ensures
        forall|i: int| 0 <= i < of_level(k, l).len() ==> (#[trigger] of_level(k, l)[i]).level == l
            && k.contains(of_level(k, l)[i]),
    decreases k.len(),
{
    if k.len() > 0 {
        lemma_of_level_subset(k.drop_last(), l);
        assert forall|i: int| 0 <= i < of_level(k, l).len() implies (#[trigger] of_level(k, l)[i]).level == l
            && k.contains(of_level(k, l)[i]) by {
            if i < of_level(k.drop_last(), l).len() {
                let j = choose|j: int| 0 <= j < k.drop_last().len() && k.drop_last()[j] == of_level(k.drop_last(), l)[i];
                assert(k[j] == k.drop_last()[j]);
            } else {
                assert(k[k.len() - 1] == k.last());
            }
        }
    }
}

/// Every entry grouped under a level has that level, and every one of them
/// passed the filters.
pub proof fn lemma_grouped_entries_pass(lines: Seq<Seq<char>>, f: FilterView, l: Level)
    ensures
        forall|i: int| 0 <= i < level_lines_of(lines, f).for_level(l).len() ==> {
            &&& (#[trigger] level_lines_of(lines, f).for_level(l)[i]).level == l
            &&& passes(level_lines_of(lines, f).for_level(l)[i], f)
        },
{
    let k = kept(lines, f);
    lemma_of_level_subset(k, l);
    lemma_kept_all_pass(lines, f);
    assert forall|i: int| 0 <= i < level_lines_of(lines, f).for_level(l).len() implies {
        &&& (#[trigger] level_lines_of(lines, f).for_level(l)[i]).level == l
        &&& passes(level_lines_of(lines, f).for_level(l)[i], f)
    } by {
        assert(level_lines_of(lines, f).for_level(l) == of_level(k, l));
        let j = choose|j: int| 0 <= j < k.len() && k[j] == of_level(k, l)[i];
        assert(passes(k[j], f));
    }
}

/// The collected lines respect the same filters as the summary: each
/// level's group holds exactly as many entries as the summary counts.
pub proof fn lemma_grouped_lines_match_counts(lines: Seq<Seq<char>>, f: FilterView, l: Level)
    ensures
        level_lines_of(lines, f).for_level(l).len() == summary_of(lines, f).count(l),
{
}

proof fn lemma_of_level_empty(k: Seq<EntryView>, l: Level)
    requires
        forall|i: int| 0 <= i < k.len() ==> (#[trigger] k[i]).level != l,
    ensures
        of_level(k, l).len() == 0,
    decreases k.len(),
{
    if k.len() > 0 {
        assert(k.last() == k[k.len() - 1]);
        assert forall|i: int| 0 <= i < k.drop_last().len() implies (#[trigger] k.drop_last()[i]).level != l by {
            assert(k.drop_last()[i] == k[i]);
        }
        lemma_of_level_empty(k.drop_last(), l);
    }
}

/// A minimum level drops every lower level from the counts.
pub proof fn lemma_min_level_drops_lower(lines: Seq<Seq<char>>, f: FilterView, l: Level)
    requires
        f.min_level matches Some(m) && crate::level::rank(l) < crate::level::rank(m),
    ensures
        summary_of(lines, f).count(l) == 0,
        level_lines_of(lines, f).for_level(l).len() == 0,
{
    let k = kept(lines, f);
    lemma_kept_all_pass(lines, f);
    assert forall|i: int| 0 <= i < k.len() implies (#[trigger] k[i]).level != l by {
        assert(passes(k[i], f));
    }
    lemma_of_level_empty(k, l);
}

/// An exact level drops every other level from the counts.
pub proof fn lemma_exact_level_drops_others(lines: Seq<Seq<char>>, f: FilterView, l: Level)
    requires
        f.level matches Some(x) && x != l,
    ensures
        summary_of(lines, f).count(l) == 0,
        level_lines_of(lines, f).for_level(l).len() == 0,
{
    let k = kept(lines, f);
    lemma_kept_all_pass(lines, f);
    assert forall|i: int| 0 <= i < k.len() implies (#[trigger] k[i]).level != l by {
        assert(passes(k[i], f));
    }
    lemma_of_level_empty(k, l);
}

proof fn lemma_filtered_of_level_le(ls: Seq<Seq<char>>, f: FilterView, l: Level)
    ensures
        of_level(kept(ls, f), l).len() <= of_level(kept(ls, no_filters()), l).len(),
    decreases ls.len(),
{
    if ls.len() > 0 {
        let kf = kept(ls.drop_last(), f);
        let kn = kept(ls.drop_last(), no_filters());
        lemma_filtered_of_level_le(ls.drop_last(), f, l);
        let line = ls.last();
        if parse_line_spec(line) is Some {
            let e = parse_line_spec(line)->0;
            lemma_of_level_push(kn, e, l);
            if passes(e, f) {
                lemma_of_level_push(kf, e, l);
            }
        }
    }
}

/// Filters only ever remove entries: no level's count under filters
/// exceeds its count without them.
pub proof fn lemma_filters_only_remove(lines: Seq<Seq<char>>, f: FilterView, l: Level)
    ensures
        summary_of(lines, f).count(l) <= summary_of(lines, no_filters()).count(l),
{
    lemma_filtered_of_level_le(lines, f, l);
}

/// One more line changes the summary in exactly one way: the total grows
/// by one; a line that doesn't parse adds one unparsed line; a parsed entry
/// that passes the filters adds one to its own level's count only, becomes
/// the last timestamp, and the first one if there was none; anything else
/// leaves the counts and span alone.
pub proof fn lemma_summary_one_more_line(lines: Seq<Seq<char>>, line: Seq<char>, f: FilterView, l: Level)
    ensures
        ({
            let before = summary_of(lines, f);
            let after = summary_of(lines.push(line), f);
            let kept_entry = parse_line_spec(line) is Some && passes(parse_line_spec(line)->0, f);
            &&& after.total_lines == before.total_lines + 1
            &&& after.unparsed_lines == before.unparsed_lines + (if parse_line_spec(line) is None {
                1int
            } else {
                0int
            })
            &&& after.count(l) == before.count(l) + (if kept_entry && (parse_line_spec(line)->0).level
                == l { 1int } else { 0int })
            &&& kept_entry ==> after.last_timestamp == Some((parse_line_spec(line)->0).timestamp)
            &&& kept_entry ==> after.first_timestamp == (if before.first_timestamp is None {
                Some((parse_line_spec(line)->0).timestamp)
            } else {
                before.first_timestamp
            })
            &&& !kept_entry ==> after.first_timestamp == before.first_timestamp
                && after.last_timestamp == before.last_timestamp
        }),
{
    let b = lines.push(line);
    assert(b.drop_last() =~= lines);
    assert(b.take(lines.len() as int) =~= lines);
    assert(b.take(lines.len() + 1int) =~= b);
    lemma_summary_step(b, lines.len() as int, f);
}

} // verus!
