//! Following a file as it grows: cutting complete lines out of what has
//! been read, deciding what each new line prints, and deciding what to do
//! on each poll of the file's length.
use vstd::prelude::*;
use crate::entry::{
    has_no_ws, lemma_blank_line_does_not_parse, lemma_parse_line_roundtrip, parse_line, parse_line_spec,
    EntryView,
};
use crate::filter::{filters_of, no_filters, passes, passes_filters_and_message, FilterView};
use crate::json::entry_json;
use crate::level::{level_name, Level};
use crate::summary::kept;
use crate::text::{blank, chars_of, is_blank, is_ws, string_from, string_of};

verus! {

/// Index of the first `'\n'` at or after `from`, or the length.
pub open spec fn newline_from(s: Seq<char>, from: int) -> int
    decreases s.len() - from,
{
    if from >= s.len() || from < 0 {
        s.len() as int
    } else if s[from] == '\n' {
        from
    } else {
        newline_from(s, from + 1)
    }
}

/// `t` without its trailing carriage returns.
pub open spec fn strip_cr(t: Seq<char>) -> Seq<char>
    decreases t.len(),
{
    if t.len() > 0 && t.last() == '\r' {
        strip_cr(t.drop_last())
    } else {
        t
    }
}

/// Every newline-terminated line of `s`, without its line ending.
pub open spec fn complete_lines(s: Seq<char>) -> Seq<Seq<char>>
    decreases s.len(),
{
    let i = newline_from(s, 0);
    if i >= s.len() || i < 0 {
        Seq::empty()
    } else {
        seq![strip_cr(s.take(i))] + complete_lines(s.skip(i + 1))
    }
}

/// What follows the last newline of `s`: a line still being written.
pub open spec fn partial_rest(s: Seq<char>) -> Seq<char>
    decreases s.len(),
{
    let i = newline_from(s, 0);
    if i >= s.len() || i < 0 {
        s
    } else {
        partial_rest(s.skip(i + 1))
    }
}

pub open spec fn strings_view(v: Seq<String>) -> Seq<Seq<char>> {
    v.map_values(|s: String| s@)
}

proof fn lemma_newline_shift(s: Seq<char>, k: int, j: int)
    requires
        0 <= k <= s.len(),
        0 <= j,
    ensures
        newline_from(s.skip(k), j) == newline_from(s, j + k) - k,
        j + k <= s.len() ==> j + k <= newline_from(s, j + k) <= s.len(),
    decreases s.len() - (j + k),
{
    if j + k < s.len() {
        assert(s.skip(k)[j] == s[j + k]);
        if s[j + k] != '\n' {
            lemma_newline_shift(s, k, j + 1);
        }
    }
}

/// Pull every complete (newline-terminated) line out of `buffer`, leaving
/// any trailing partial line (a write that hasn't finished landing yet) in
/// place for the next poll to complete.
pub fn split_complete_lines(buffer: &mut String) -> (lines: Vec<String>)
    ensures
        strings_view(lines@) == complete_lines(old(buffer)@),
        final(buffer)@ == partial_rest(old(buffer)@),
{
    let v = chars_of(buffer.as_str());
    let ghost s = v@;
    let mut lines: Vec<String> = Vec::new();
    let mut start: usize = 0;
    let mut done = false;
    assert(s.skip(0) =~= s);
    assert(strings_view(lines@) =~= Seq::<Seq<char>>::empty());
    while !done && start < v.len()
        invariant
            start <= v@.len(),
            s == v@,
            complete_lines(s) == strings_view(lines@) + complete_lines(s.skip(start as int)),
            partial_rest(s) == partial_rest(s.skip(start as int)),
            done ==> complete_lines(s.skip(start as int)) == Seq::<Seq<char>>::empty()
                && partial_rest(s.skip(start as int)) == s.skip(start as int),
        decreases v@.len() - start, (if done { 0int } else { 1int }),
    {
        let ghost rest = s.skip(start as int);
        let mut nl = start;
        while nl < v.len() && v[nl] != '\n'
            invariant
                start <= nl <= v@.len(),
                s == v@,
                newline_from(s, start as int) == newline_from(s, nl as int),
            decreases v@.len() - nl,
        {
            nl = nl + 1;
        }
        proof {
            lemma_newline_shift(s, start as int, 0);
        }
        if nl == v.len() {
            done = true;
            continue;
        }
        let mut end = nl;
        assert(rest.take(nl - start) =~= s.subrange(start as int, nl as int));
        while end > start && v[end - 1] == '\r'
            invariant
                start <= end <= nl < v@.len(),
                s == v@,
                strip_cr(s.subrange(start as int, nl as int)) == strip_cr(s.subrange(start as int, end as int)),
            decreases end,
        {
            assert(s.subrange(start as int, end as int).drop_last() =~= s.subrange(start as int, end - 1));
            end = end - 1;
        }
        let line = string_from(v.as_slice(), start, end);
        proof {
            assert(strip_cr(s.subrange(start as int, end as int)) == s.subrange(start as int, end as int));
            assert(rest.skip(nl - start + 1) =~= s.skip(nl + 1));
        }
        let ghost before = lines@;
        lines.push(line);
        proof {
            assert(strings_view(lines@) =~= strings_view(before) + seq![line@]);
        }
        start = nl + 1;
    }
    proof {
        assert(start == v@.len() ==> s.skip(start as int) =~= Seq::<char>::empty());
        lemma_newline_shift(s, start as int, 0);
        assert(strings_view(lines@) + complete_lines(s.skip(start as int)) =~= strings_view(lines@));
    }
    *buffer = string_from(v.as_slice(), start, v.len());
    assert(s.skip(start as int) =~= s.subrange(start as int, s.len() as int));
    lines
}

/// What the follow mode prints for one new line, if anything: nothing for
/// blank, unparsed or filtered-out lines; otherwise the entry as JSON or as
/// `timestamp LEVEL message`.
pub open spec fn follow_text(line: Seq<char>, f: FilterView, json: bool) -> Option<Seq<char>> {
    if is_blank(line) {
        None
    } else {
        match parse_line_spec(line) {
            None => None,
            Some(e) => if !passes(e, f) {
                None
            } else if json {
                Some(entry_json(e))
            } else {
                Some(e.timestamp + " "@ + level_name(e.level) + " "@ + e.message)
            },
        }
    }
}

/// The text the follow mode prints for one new line of the file, or
/// `None` when the line is blank, doesn't parse, or is filtered out.
pub fn follow_output(
    line: &str,
    min_level: Option<Level>,
    level: Option<Level>,
    since: Option<&str>,
    until: Option<&str>,
    message_contains: Option<&str>,
    json: bool,
) -> (r: Option<String>)
    ensures
        r.deep_view() == follow_text(
            line@,
            filters_of(min_level, level, since, until, message_contains),
            json,
        ),
{
    if blank(line) {
        return None;
    }
    let entry = match parse_line(line) {
        Some(entry) => entry,
        None => return None,
    };
    if !passes_filters_and_message(&entry, min_level, level, since, until, message_contains) {
        return None;
    }
    if json {
        Some(entry.to_json())
    } else {
        let mut out = string_of(entry.timestamp.as_str());
        out.append(" ");
        out.append(entry.level.as_str());
        out.append(" ");
        out.append(entry.message.as_str());
        Some(out)
    }
}

/// What to do on one poll of a followed file.
pub struct PollPlan {
    /// The file shrank (truncated or rotated): open it again from the top.
    pub reopen: bool,
    /// Read the new content starting at this offset, if there is any.
    pub read_from: Option<u64>,
}

/// Decide what to do when the file at read position `pos` now has length
/// `len`: a shorter file is reopened and read from the start; any content
/// past the position is read.
pub fn plan_poll(pos: u64, len: u64) -> (r: PollPlan)
    ensures
        r.reopen == (len < pos),
        r.read_from == (if len < pos {
            if len > 0 { Some(0u64) } else { None }
        } else if len > pos {
            Some(pos)
        } else {
            None
        }),
{
    let reopen = len < pos;
    let from = if reopen { 0 } else { pos };
    PollPlan { reopen, read_from: if len > from { Some(from) } else { None } }
}

/// The follow mode and the summary agree on what counts: a line prints
/// exactly when summarizing it alone keeps it as an entry.
pub proof fn lemma_follow_agrees_with_summary(line: Seq<char>, f: FilterView, json: bool)
    ensures
        follow_text(line, f, json) is Some <==> kept(seq![line], f).len() == 1,
{
    assert(seq![line].drop_last() =~= Seq::<Seq<char>>::empty());
    assert(seq![line].last() == line);
    assert(kept(Seq::<Seq<char>>::empty(), f).len() == 0);
    reveal_with_fuel(kept, 2);
    if is_blank(line) {
        lemma_blank_line_does_not_parse(line);
    }
}

/// How many `'\n'` characters `s` holds.
pub open spec fn newline_count(s: Seq<char>) -> int
    decreases s.len(),
{
    if s.len() == 0 {
        0
    } else {
        (if s[0] == '\n' { 1int } else { 0int }) + newline_count(s.skip(1))
    }
}

pub open spec fn has_no_newline(s: Seq<char>) -> bool {
    forall|k: int| 0 <= k < s.len() ==> s[k] != '\n'
}

proof fn lemma_newline_from_props(s: Seq<char>, from: int)
    requires
        0 <= from <= s.len(),
    ensures
        from <= newline_from(s, from) <= s.len(),
        forall|k: int| from <= k < newline_from(s, from) ==> s[k] != '\n',
        newline_from(s, from) < s.len() ==> s[newline_from(s, from)] == '\n',
    decreases s.len() - from,
{
    if from < s.len() && s[from] != '\n' {
        lemma_newline_from_props(s, from + 1);
    }
}

proof fn lemma_newline_count_concat(a: Seq<char>, b: Seq<char>)
    ensures
        newline_count(a + b) == newline_count(a) + newline_count(b),
    decreases a.len(),
{
    if a.len() > 0 {
        assert((a + b).skip(1) =~= a.skip(1) + b);
        lemma_newline_count_concat(a.skip(1), b);
    } else {
        assert(a + b =~= b);
    }
}

proof fn lemma_no_newline_count(a: Seq<char>)
    requires
        has_no_newline(a),
    ensures
        newline_count(a) == 0,
    decreases a.len(),
{
    if a.len() > 0 {
        assert(has_no_newline(a.skip(1))) by {
            assert forall|k: int| 0 <= k < a.skip(1).len() implies a.skip(1)[k] != '\n' by {
                assert(a.skip(1)[k] == a[k + 1]);
            }
        }
        lemma_no_newline_count(a.skip(1));
    }
}

proof fn lemma_strip_cr_prefix(t: Seq<char>)
    ensures
        strip_cr(t).len() <= t.len(),
        forall|k: int| 0 <= k < strip_cr(t).len() ==> strip_cr(t)[k] == t[k],
    decreases t.len(),
{
    if t.len() > 0 && t.last() == '\r' {
        lemma_strip_cr_prefix(t.drop_last());
        assert forall|k: int| 0 <= k < strip_cr(t).len() implies strip_cr(t)[k] == t[k] by {
            assert(strip_cr(t)[k] == t.drop_last()[k]);
        }
    }
}

/// Splitting off complete lines returns one line per newline, and neither
/// a returned line nor the leftover holds a newline.
pub proof fn lemma_complete_lines_shape(s: Seq<char>)
    ensures
        complete_lines(s).len() == newline_count(s),
        forall|i: int| 0 <= i < complete_lines(s).len() ==> has_no_newline(#[trigger] complete_lines(s)[i]),
        has_no_newline(partial_rest(s)),
    decreases s.len(),
{
    lemma_newline_from_props(s, 0);
    let i = newline_from(s, 0);
    if i >= s.len() {
        lemma_no_newline_count(s);
    } else {
        let head = s.take(i);
        let rest = s.skip(i + 1);
        lemma_complete_lines_shape(rest);
        assert(has_no_newline(head));
        assert(s =~= head + seq!['\n'] + rest);
        lemma_newline_count_concat(head + seq!['\n'], rest);
        lemma_newline_count_concat(head, seq!['\n']);
        lemma_no_newline_count(head);
        assert(newline_count(seq!['\n']) == 1) by {
            assert(seq!['\n'].skip(1) =~= Seq::<char>::empty());
            assert(newline_count(Seq::<char>::empty()) == 0);
            assert(seq!['\n'][0] == '\n');
        }
        lemma_strip_cr_prefix(head);
        let first = strip_cr(head);
        assert forall|k: int| 0 <= k < first.len() implies first[k] != '\n' by {
            assert(first[k] == head[k]);
        }
        let all = complete_lines(s);
        assert(all == seq![first] + complete_lines(rest));
        assert forall|j: int| 0 <= j < all.len() implies has_no_newline(#[trigger] all[j]) by {
            if j > 0 {
                assert(all[j] == complete_lines(rest)[j - 1]);
            }
        }
    }
}

/// With no filters, a line written as `timestamp LEVEL message` (single
/// spaces, a non-empty whitespace-free timestamp, a message not starting
/// with whitespace) is printed back unchanged, or as that entry's JSON.
pub proof fn lemma_follow_prints_canonical_lines(ts: Seq<char>, l: Level, msg: Seq<char>)
    requires
        ts.len() > 0,
        has_no_ws(ts),
        msg.len() > 0 ==> !is_ws(msg[0]),
    ensures
        follow_text(ts + seq![' '] + level_name(l) + seq![' '] + msg, no_filters(), false) == Some(
            ts + seq![' '] + level_name(l) + seq![' '] + msg,
        ),
        follow_text(ts + seq![' '] + level_name(l) + seq![' '] + msg, no_filters(), true) == Some(
            entry_json(EntryView { timestamp: ts, level: l, message: msg }),
        ),
{
    let line = ts + seq![' '] + level_name(l) + seq![' '] + msg;
    lemma_parse_line_roundtrip(ts, l, msg);
    assert(line[0] == ts[0]);
    assert(!is_blank(line));
    reveal_strlit(" ");
    assert(ts + " "@ + level_name(l) + " "@ + msg =~= line);
}

proof fn lemma_strip_cr_end(t: Seq<char>)
    ensures
        strip_cr(t).len() == 0 || strip_cr(t).last() != '\r',
    decreases t.len(),
{
    if t.len() > 0 && t.last() == '\r' {
        lemma_strip_cr_end(t.drop_last());
    }
}

/// Line endings are removed whole: no returned line ends with a carriage
/// return, so `\r\n` endings leave nothing behind.
pub proof fn lemma_complete_lines_strip_cr(s: Seq<char>)
    ensures
        forall|i: int| 0 <= i < complete_lines(s).len() ==> (#[trigger] complete_lines(s)[i]).len() == 0
            || complete_lines(s)[i].last() != '\r',
    decreases s.len(),
{
    lemma_newline_from_props(s, 0);
    let i = newline_from(s, 0);
    if i < s.len() {
        let rest = s.skip(i + 1);
        lemma_complete_lines_strip_cr(rest);
        lemma_strip_cr_end(s.take(i));
        let all = complete_lines(s);
        assert forall|j: int| 0 <= j < all.len() implies (#[trigger] all[j]).len() == 0 || all[j].last() != '\r' by {
            if j > 0 {
                assert(all[j] == complete_lines(rest)[j - 1]);
            }
        }
    }
}

} // verus!
