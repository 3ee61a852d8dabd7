//! A parsed log line, and the parser that produces it.
use vstd::prelude::*;
use crate::level::{level_name, level_of_token, Level};
use crate::text::{
    chars_of, find_run_end, find_token_end, is_blank, is_ws, lemma_run_end_at, lemma_run_end_props,
    lemma_token_end_at, lemma_token_end_props, run_end, string_from, token_end,
};

verus! {

/// A single parsed line.
#[derive(Debug, Clone)]
pub struct Entry {
    pub timestamp: String,
    pub level: Level,
    pub message: String,
}

pub struct EntryView {
    pub timestamp: Seq<char>,
    pub level: Level,
    pub message: Seq<char>,
}

impl View for Entry {
    type V = EntryView;

    open spec fn view(&self) -> EntryView {
        EntryView { timestamp: self.timestamp@, level: self.level, message: self.message@ }
    }
}

/// What a raw line parses to: the text before the first whitespace run is
/// the timestamp, the text between the first and second runs must name a
/// level, and whatever follows the second run is the message.
pub open spec fn parse_line_spec(s: Seq<char>) -> Option<EntryView> {
    let i1 = token_end(s, 0);
    if i1 == s.len() {
        None
    } else {
        let j1 = run_end(s, i1);
        let i2 = token_end(s, j1);
        let message = if i2 == s.len() { Seq::<char>::empty() } else { s.skip(run_end(s, i2)) };
        match level_of_token(s.subrange(j1, i2)) {
            Some(l) => Some(EntryView { timestamp: s.take(i1), level: l, message: message }),
            None => None,
        }
    }
}

impl Entry {
    /// A field-by-field copy.
    pub(crate) fn copy(&self) -> (r: Entry)
        ensures
            r@ == self@,
    {
        Entry { timestamp: self.timestamp.clone(), level: self.level, message: self.message.clone() }
    }
}

/// Try to read a timestamp + level + message out of a raw line.
///
/// The parser is deliberately loose: it splits on the first two runs of
/// whitespace and only requires the second token to be a recognized level
/// name. Real log files vary too much in column layout to assume more
/// structure than that.
pub fn parse_line(line: &str) -> (r: Option<Entry>)
    ensures
        match r {
            Some(e) => parse_line_spec(line@) == Some(e@),
            None => parse_line_spec(line@) is None,
        },
{
    let v = chars_of(line);
    let s = v.as_slice();
    let i1 = find_token_end(s, 0);
    if i1 == s.len() {
        return None;
    }
    let j1 = find_run_end(s, i1);
    let i2 = find_token_end(s, j1);
    let level = match Level::from_token(&s[j1..i2]) {
        Some(l) => l,
        None => return None,
    };
    let timestamp = string_from(s, 0, i1);
    let message = if i2 == s.len() {
        String::new()
    } else {
        let k = find_run_end(s, i2);
        string_from(s, k, s.len())
    };
    assert(v@.take(i1 as int) =~= v@.subrange(0, i1 as int));
    assert(i2 < v@.len() ==> v@.skip(run_end(v@, i2 as int)) =~= v@.subrange(run_end(v@, i2 as int), v@.len() as int));
    Some(Entry { timestamp, level, message })
}

proof fn lemma_run_end_blank(s: Seq<char>, from: int)
    requires
        is_blank(s),
        0 <= from <= s.len(),
    ensures
        run_end(s, from) == s.len(),
    decreases s.len() - from,
{
    if from < s.len() {
        lemma_run_end_blank(s, from + 1);
    }
}

/// A blank line (empty or whitespace only) never parses as an entry.
pub proof fn lemma_blank_line_does_not_parse(s: Seq<char>)
    requires
        is_blank(s),
    ensures
        parse_line_spec(s) is None,
{
    if s.len() > 0 {
        lemma_run_end_blank(s, 0);
        assert(s.subrange(s.len() as int, s.len() as int) =~= Seq::<char>::empty());
        reveal_strlit("TRACE");
        reveal_strlit("trace");
        reveal_strlit("DEBUG");
        reveal_strlit("debug");
        reveal_strlit("INFO");
        reveal_strlit("info");
        reveal_strlit("WARN");
        reveal_strlit("WARNING");
        reveal_strlit("warn");
        reveal_strlit("warning");
        reveal_strlit("ERROR");
        reveal_strlit("error");
    }
}

pub open spec fn has_no_ws(t: Seq<char>) -> bool {
    forall|k: int| 0 <= k < t.len() ==> !is_ws(#[trigger] t[k])
}

/// A parsed entry's timestamp is a whitespace-free prefix of the line, and
/// its message is a suffix of the line that does not start with
/// whitespace.
pub proof fn lemma_parsed_parts_of_line(s: Seq<char>)
    requires
        parse_line_spec(s) is Some,
    ensures
        ({
            let e = parse_line_spec(s)->0;
            &&& s.take(e.timestamp.len() as int) == e.timestamp
            &&& has_no_ws(e.timestamp)
            &&& e.message.len() <= s.len()
            &&& s.skip(s.len() - e.message.len()) == e.message
            &&& e.message.len() > 0 ==> !is_ws(e.message[0])
        }),
{
    lemma_token_end_props(s, 0);
    let i1 = token_end(s, 0);
    lemma_run_end_props(s, i1);
    let j1 = run_end(s, i1);
    lemma_token_end_props(s, j1);
    let i2 = token_end(s, j1);
    let e = parse_line_spec(s)->0;
    assert(e.timestamp == s.take(i1));
    assert forall|k: int| 0 <= k < e.timestamp.len() implies !is_ws(#[trigger] e.timestamp[k]) by {
        assert(e.timestamp[k] == s[k]);
    }
    if i2 < s.len() {
        lemma_run_end_props(s, i2);
        let k = run_end(s, i2);
        assert(e.message == s.skip(k));
        assert(s.skip(s.len() - e.message.len()) =~= e.message);
        if e.message.len() > 0 {
            assert(e.message[0] == s[k]);
        }
    } else {
        assert(s.skip(s.len() - e.message.len()) =~= e.message);
    }
    assert(s.take(e.timestamp.len() as int) =~= e.timestamp);
}

proof fn lemma_level_name_shape(l: Level)
    ensures
        level_name(l).len() > 0,
        has_no_ws(level_name(l)),
{
    reveal_strlit("TRACE");
    reveal_strlit("DEBUG");
    reveal_strlit("INFO");
    reveal_strlit("WARN");
    reveal_strlit("ERROR");
}

/// Writing a timestamp, a level name and a message separated by single
/// spaces and parsing the line gives them back, when the timestamp is
/// non-empty and whitespace-free and the message does not start with
/// whitespace.
pub proof fn lemma_parse_line_roundtrip(ts: Seq<char>, l: Level, msg: Seq<char>)
    requires
        ts.len() > 0,
        has_no_ws(ts),
        msg.len() > 0 ==> !is_ws(msg[0]),
    ensures
        parse_line_spec(ts + seq![' '] + level_name(l) + seq![' '] + msg) == Some(
            EntryView { timestamp: ts, level: l, message: msg },
        ),
{
    let name = level_name(l);
    lemma_level_name_shape(l);
    crate::level::lemma_parse_name_roundtrip(l);
    let s = ts + seq![' '] + name + seq![' '] + msg;
    let a = ts.len() as int;
    let b = a + 1 + name.len();
    assert forall|j: int| 0 <= j < a implies !is_ws(#[trigger] s[j]) by {
        assert(s[j] == ts[j]);
    }
    assert(s[a] == ' ');
    lemma_token_end_at(s, 0, a);
    assert(s[a + 1] == name[0]);
    lemma_run_end_at(s, a, a + 1);
    assert forall|j: int| a + 1 <= j < b implies !is_ws(#[trigger] s[j]) by {
        assert(s[j] == name[j - a - 1]);
    }
    assert(s[b] == ' ');
    lemma_token_end_at(s, a + 1, b);
    if msg.len() > 0 {
        assert(s[b + 1] == msg[0]);
    }
    lemma_run_end_at(s, b, b + 1);
    assert(s.subrange(a + 1, b) =~= name);
    assert(s.take(a) =~= ts);
    assert(s.skip(b + 1) =~= msg);
}

} // verus!
