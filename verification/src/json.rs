//! Hand-rolled single-line JSON rendering of entries, grouped entries and
//! summaries.
use vstd::prelude::*;
use crate::entry::{Entry, EntryView};
use crate::level::level_name;
use crate::summary::{entries_view, LevelLines, LevelLinesView, Summary, SummaryView};
use crate::text::{
    contains_text, decimal, lemma_contains_extend, lemma_contains_middle, push_char, push_decimal,
};

verus! {

/// Lower-case hexadecimal digit for `d` (0..=15).
pub open spec fn hex_char(d: int) -> char {
    if d < 10 {
        crate::text::digit_char(d)
    } else if d == 10 {
        'a'
    } else if d == 11 {
        'b'
    } else if d == 12 {
        'c'
    } else if d == 13 {
        'd'
    } else if d == 14 {
        'e'
    } else {
        'f'
    }
}

/// How one character appears inside a JSON string literal.
pub open spec fn escape_char(c: char) -> Seq<char> {
    if c == '"' {
        seq!['\\', '"']
    } else if c == '\\' {
        seq!['\\', '\\']
    } else if c == '\n' {
        seq!['\\', 'n']
    } else if c == '\r' {
        seq!['\\', 'r']
    } else if c == '\t' {
        seq!['\\', 't']
    } else if (c as int) < 0x20 {
        seq!['\\', 'u', '0', '0', hex_char((c as int) / 16), hex_char((c as int) % 16)]
    } else {
        seq![c]
    }
}

pub open spec fn escaped(s: Seq<char>) -> Seq<char>
    decreases s.len(),
{
    if s.len() == 0 {
        Seq::empty()
    } else {
        escaped(s.drop_last()) + escape_char(s.last())
    }
}

/// `s` as a quoted, escaped JSON string.
pub open spec fn json_str(s: Seq<char>) -> Seq<char> {
    seq!['"'] + escaped(s) + seq!['"']
}

pub open spec fn json_opt_str(o: Option<Seq<char>>) -> Seq<char> {
    match o {
        Some(s) => json_str(s),
        None => "null"@,
    }
}

pub open spec fn entry_json(e: EntryView) -> Seq<char> {
    "{\"timestamp\":"@ + json_str(e.timestamp) + ",\"level\":\""@ + level_name(e.level)
        + "\",\"message\":"@ + json_str(e.message) + "}"@
}

/// The entries' JSON objects separated by commas.
pub open spec fn joined_entries(es: Seq<EntryView>) -> Seq<char>
    decreases es.len(),
{
    if es.len() == 0 {
        Seq::empty()
    } else if es.len() == 1 {
        entry_json(es[0])
    } else {
        joined_entries(es.drop_last()) + ","@ + entry_json(es.last())
    }
}

pub open spec fn entry_array(es: Seq<EntryView>) -> Seq<char> {
    "["@ + joined_entries(es) + "]"@
}

pub open spec fn level_lines_json(v: LevelLinesView) -> Seq<char> {
    "{\"trace\":"@ + entry_array(v.trace) + ",\"debug\":"@ + entry_array(v.debug) + ",\"info\":"@
        + entry_array(v.info) + ",\"warn\":"@ + entry_array(v.warn) + ",\"error\":"@
        + entry_array(v.error) + "}"@
}

pub open spec fn summary_json(s: SummaryView, lines: Option<LevelLinesView>) -> Seq<char> {
    "{\"total_lines\":"@ + decimal(s.total_lines as nat) + ",\"unparsed_lines\":"@ + decimal(
        s.unparsed_lines as nat,
    ) + ",\"trace\":"@ + decimal(s.trace as nat) + ",\"debug\":"@ + decimal(s.debug as nat)
        + ",\"info\":"@ + decimal(s.info as nat) + ",\"warn\":"@ + decimal(s.warn as nat)
        + ",\"error\":"@ + decimal(s.error as nat) + ",\"first_timestamp\":"@ + json_opt_str(
        s.first_timestamp,
    ) + ",\"last_timestamp\":"@ + json_opt_str(s.last_timestamp) + match lines {
        Some(v) => ",\"lines\":"@ + level_lines_json(v),
        None => Seq::<char>::empty(),
    } + "}"@
}

fn hex_digit(d: u32) -> (c: char)
    requires
        d < 16,
    ensures
        c == hex_char(d as int),
{
    if d == 0 { '0' }
    else if d == 1 { '1' }
    else if d == 2 { '2' }
    else if d == 3 { '3' }
    else if d == 4 { '4' }
    else if d == 5 { '5' }
    else if d == 6 { '6' }
    else if d == 7 { '7' }
    else if d == 8 { '8' }
    else if d == 9 { '9' }
    else if d == 10 { 'a' }
    else if d == 11 { 'b' }
    else if d == 12 { 'c' }
    else if d == 13 { 'd' }
    else if d == 14 { 'e' }
    else { 'f' }
}

fn push_escaped(out: &mut String, c: char)
    ensures
        final(out)@ == old(out)@ + escape_char(c),
{
    if c == '"' {
        out.append("\\\"");
        proof { reveal_strlit("\\\""); }
    } else if c == '\\' {
        out.append("\\\\");
        proof { reveal_strlit("\\\\"); }
    } else if c == '\n' {
        out.append("\\n");
        proof { reveal_strlit("\\n"); }
    } else if c == '\r' {
        out.append("\\r");
        proof { reveal_strlit("\\r"); }
    } else if c == '\t' {
        out.append("\\t");
        proof { reveal_strlit("\\t"); }
    } else if (c as u32) < 0x20 {
        out.append("\\u00");
        proof { reveal_strlit("\\u00"); }
        let code = c as u32;
        push_char(out, hex_digit(code / 16));
        push_char(out, hex_digit(code % 16));
    } else {
        push_char(out, c);
    }
    assert(final(out)@ =~= old(out)@ + escape_char(c));
}

/// Escape a string for embedding in JSON output. Covers the characters
/// that actually turn up in timestamps and log messages, not the full
/// unicode escape table.
fn json_string(value: &str) -> (r: String)
    ensures
        r@ == json_str(value@),
{
    let mut out = String::new();
    push_char(&mut out, '"');
    for c in it: value.chars()
        invariant
            it.seq() == value@,
            out@ == seq!['"'] + escaped(it.seq().take(it.index() as int)),
    {
        proof {
            assert(it.seq().take(it.index() + 1).drop_last() =~= it.seq().take(it.index() as int));
        }
        push_escaped(&mut out, c);
        assert(out@ =~= seq!['"'] + escaped(it.seq().take(it.index() + 1)));
    }
    assert(value@.take(value@.len() as int) =~= value@);
    assert(out@ == seq!['"'] + escaped(value@));
    push_char(&mut out, '"');
    assert(out@ =~= json_str(value@));
    out
}

fn json_opt_string(value: &Option<String>) -> (r: String)
    ensures
        r@ == json_opt_str(value.deep_view()),
{
    match value {
        Some(s) => json_string(s.as_str()),
        None => {
            let mut out = String::new();
            out.append("null");
            out
        },
    }
}

fn json_entry_array(entries: &[Entry]) -> (r: String)
    ensures
        r@ == entry_array(entries_view(entries@)),
{
    let mut out = String::new();
    out.append("[");
    let mut i: usize = 0;
    while i < entries.len()
        invariant
            i <= entries@.len(),
            out@ == "["@ + joined_entries(entries_view(entries@).take(i as int)),
        decreases entries@.len() - i,
    {
        let ghost prev = entries_view(entries@).take(i as int);
        let ghost next = entries_view(entries@).take(i + 1);
        proof {
            assert(next.drop_last() =~= prev);
            assert(next.last() == entries@[i as int]@);
        }
        if i > 0 {
            out.append(",");
        }
        let item = entries[i].to_json();
        out.append(item.as_str());
        assert(out@ =~= "["@ + joined_entries(next));
        i = i + 1;
    }
    assert(entries_view(entries@).take(entries@.len() as int) =~= entries_view(entries@));
    out.append("]");
    out
}

impl Entry {
    /// Render as a single-line JSON object, one entry at a time, as the
    /// follow mode prints each new line as its own JSON value rather than
    /// an aggregate.
    pub fn to_json(&self) -> (r: String)
        ensures
            r@ == entry_json(self@),
    {
        let mut out = String::new();
        out.append("{\"timestamp\":");
        let ts = json_string(self.timestamp.as_str());
        out.append(ts.as_str());
        out.append(",\"level\":\"");
        out.append(self.level.as_str());
        out.append("\",\"message\":");
        let msg = json_string(self.message.as_str());
        out.append(msg.as_str());
        out.append("}");
        assert(out@ =~= entry_json(self@));
        out
    }
}

impl LevelLines {
    pub fn to_json(&self) -> (r: String)
        ensures
            r@ == level_lines_json(self@),
    {
        let mut out = String::new();
        out.append("{\"trace\":");
        out.append(json_entry_array(self.trace.as_slice()).as_str());
        out.append(",\"debug\":");
        out.append(json_entry_array(self.debug.as_slice()).as_str());
        out.append(",\"info\":");
        out.append(json_entry_array(self.info.as_slice()).as_str());
        out.append(",\"warn\":");
        out.append(json_entry_array(self.warn.as_slice()).as_str());
        out.append(",\"error\":");
        out.append(json_entry_array(self.error.as_slice()).as_str());
        out.append("}");
        assert(out@ =~= level_lines_json(self@));
        out
    }
}

pub open spec fn opt_lines_view(lines: Option<&LevelLines>) -> Option<LevelLinesView> {
    match lines {
        Some(l) => Some(l@),
        None => None,
    }
}

impl Summary {
    /// Render as a single-line JSON object. Hand-rolled because pulling in
    /// serde for eight fields isn't worth taking on a dependency.
    ///
    /// `lines`, when given, is nested under a `"lines"` key holding the
    /// matching entries grouped by level (see `LevelLines`).
    pub fn to_json(&self, lines: Option<&LevelLines>) -> (r: String)
        ensures
            r@ == summary_json(self@, opt_lines_view(lines)),
    {
        let mut out = String::new();
        out.append("{\"total_lines\":");
        push_decimal(&mut out, self.total_lines);
        out.append(",\"unparsed_lines\":");
        push_decimal(&mut out, self.unparsed_lines);
        out.append(",\"trace\":");
        push_decimal(&mut out, self.trace);
        out.append(",\"debug\":");
        push_decimal(&mut out, self.debug);
        out.append(",\"info\":");
        push_decimal(&mut out, self.info);
        out.append(",\"warn\":");
        push_decimal(&mut out, self.warn);
        out.append(",\"error\":");
        push_decimal(&mut out, self.error);
        out.append(",\"first_timestamp\":");
        out.append(json_opt_string(&self.first_timestamp).as_str());
        out.append(",\"last_timestamp\":");
        out.append(json_opt_string(&self.last_timestamp).as_str());
        match lines {
            Some(l) => {
                out.append(",\"lines\":");
                out.append(l.to_json().as_str());
            },
            None => {},
        }
        out.append("}");
        assert(out@ =~= summary_json(self@, opt_lines_view(lines)));
        out
    }
}

proof fn lemma_escape_char_printable(c: char)
    ensures
        forall|i: int| 0 <= i < escape_char(c).len() ==> (#[trigger] escape_char(c)[i] as int) >= 0x20,
{
    if (c as int) < 0x20 && c != '\n' && c != '\r' && c != '\t' {
        let e = escape_char(c);
        assert(e[4] == hex_char((c as int) / 16) && e[5] == hex_char((c as int) % 16));
        assert((hex_char((c as int) / 16) as int) >= 0x20);
        assert((hex_char((c as int) % 16) as int) >= 0x20);
    }
}

/// Escaping leaves no raw control character in the output, so a rendered
/// value always stays on one line.
pub proof fn lemma_escaped_has_no_control_chars(s: Seq<char>)
    ensures
        forall|i: int| 0 <= i < escaped(s).len() ==> (#[trigger] escaped(s)[i] as int) >= 0x20,
    decreases s.len(),
{
    if s.len() > 0 {
        lemma_escaped_has_no_control_chars(s.drop_last());
        lemma_escape_char_printable(s.last());
        let a = escaped(s.drop_last());
        let b = escape_char(s.last());
        assert forall|i: int| 0 <= i < escaped(s).len() implies (#[trigger] escaped(s)[i] as int) >= 0x20 by {
            if i < a.len() {
                assert(escaped(s)[i] == a[i]);
            } else {
                assert(escaped(s)[i] == b[i - a.len()]);
            }
        }
    }
}

/// The value of a hexadecimal digit (either case).
pub open spec fn hex_value(c: char) -> Option<int> {
    if '0' <= c && c <= '9' {
        Some(c as int - '0' as int)
    } else if 'a' <= c && c <= 'f' {
        Some(c as int - 'a' as int + 10)
    } else if 'A' <= c && c <= 'F' {
        Some(c as int - 'A' as int + 10)
    } else {
        None
    }
}

pub open spec fn prepend(c: char, rest: Option<Seq<char>>) -> Option<Seq<char>> {
    match rest {
        Some(r) => Some(seq![c] + r),
        None => None,
    }
}

/// The character a one-letter JSON escape (`\"`, `\\`, `\/`, `\b`, `\f`,
/// `\n`, `\r`, `\t`) stands for.
pub open spec fn short_escape(e: char) -> Option<char> {
    if e == '"' {
        Some('"')
    } else if e == '\\' {
        Some('\\')
    } else if e == '/' {
        Some('/')
    } else if e == 'b' {
        Some('\u{8}')
    } else if e == 'f' {
        Some('\u{c}')
    } else if e == 'n' {
        Some('\n')
    } else if e == 'r' {
        Some('\r')
    } else if e == 't' {
        Some('\t')
    } else {
        None
    }
}

/// Decoding the body of a JSON string literal: escapes are resolved, and a
/// raw `"` or control character is rejected. A `\uXXXX` escape of a
/// surrogate code unit (used in pairs for characters beyond the basic
/// plane) is not decoded here and yields `None`.
pub open spec fn json_unescape(t: Seq<char>) -> Option<Seq<char>>
    decreases t.len(),
{
    if t.len() == 0 {
        Some(Seq::empty())
    } else if t[0] == '\\' {
        if t.len() < 2 {
            None
        } else if short_escape(t[1]) is Some {
            prepend(short_escape(t[1])->0, json_unescape(t.skip(2)))
        } else if t[1] == 'u' && t.len() >= 6 && hex_value(t[2]) is Some && hex_value(t[3]) is Some
            && hex_value(t[4]) is Some && hex_value(t[5]) is Some {
            let code = hex_value(t[2])->0 * 4096 + hex_value(t[3])->0 * 256 + hex_value(t[4])->0 * 16
                + hex_value(t[5])->0;
            if 0xD800 <= code <= 0xDFFF {
                None
            } else {
                prepend(code as char, json_unescape(t.skip(6)))
            }
        } else {
            None
        }
    } else if t[0] == '"' || (t[0] as int) < 0x20 {
        None
    } else {
        prepend(t[0], json_unescape(t.skip(1)))
    }
}

/// Decoding a JSON string literal, quotes included.
pub open spec fn json_decode(r: Seq<char>) -> Option<Seq<char>> {
    if r.len() >= 2 && r[0] == '"' && r.last() == '"' {
        json_unescape(r.subrange(1, r.len() - 1))
    } else {
        None
    }
}

proof fn lemma_escaped_front(s: Seq<char>)
    requires
        s.len() > 0,
    ensures
        escaped(s) == escape_char(s[0]) + escaped(s.skip(1)),
    decreases s.len(),
{
    if s.len() == 1 {
        assert(s.drop_last() =~= Seq::<char>::empty());
        assert(s.skip(1) =~= Seq::<char>::empty());
        assert(escaped(s.drop_last()) == Seq::<char>::empty());
        assert(s.last() == s[0]);
        assert(escaped(s) =~= escape_char(s[0]));
    } else {
        lemma_escaped_front(s.drop_last());
        assert(s.drop_last().skip(1) =~= s.skip(1).drop_last());
        assert(s.skip(1).last() == s.last());
        assert(escaped(s) =~= escape_char(s[0]) + escaped(s.skip(1)));
    }
}

proof fn lemma_hex_roundtrip(d: int)
    requires
        0 <= d < 16,
    ensures
        hex_value(hex_char(d)) == Some(d),
{
}

proof fn lemma_unescape_one(c: char, rest: Seq<char>)
    ensures
        json_unescape(escape_char(c) + rest) == prepend(c, json_unescape(rest)),
{
    let t = escape_char(c) + rest;
    let n = escape_char(c).len();
    assert(t.skip(n as int) =~= rest);
    if c == '"' || c == '\\' || c == '\n' || c == '\r' || c == '\t' {
        assert(t[0] == '\\');
    } else if (c as int) < 0x20 {
        let code = c as int;
        lemma_hex_roundtrip(code / 16);
        lemma_hex_roundtrip(code % 16);
        assert(t[0] == '\\' && t[1] == 'u' && t[2] == '0' && t[3] == '0');
        assert(t[4] == hex_char(code / 16) && t[5] == hex_char(code % 16));
        assert(code / 16 * 16 + code % 16 == code);
        assert((code as char) == c);
    } else {
        assert(t[0] == c);
    }
}

/// Decoding an escaped string gives the string back.
proof fn lemma_unescape_escaped(s: Seq<char>)
    ensures
        json_unescape(escaped(s)) == Some(s),
    decreases s.len(),
{
    if s.len() == 0 {
    } else {
        lemma_escaped_front(s);
        lemma_unescape_one(s[0], escaped(s.skip(1)));
        lemma_unescape_escaped(s.skip(1));
        assert(seq![s[0]] + s.skip(1) =~= s);
    }
}

/// A rendered JSON string decodes back to exactly the text it was made
/// from.
pub proof fn lemma_json_string_roundtrip(s: Seq<char>)
    ensures
        json_decode(json_str(s)) == Some(s),
{
    let r = json_str(s);
    assert(r.subrange(1, r.len() - 1) =~= escaped(s));
    lemma_unescape_escaped(s);
}

proof fn lemma_field_then_comma(pre: Seq<char>, key: Seq<char>, v: Seq<char>, next: Seq<char>)
    requires
        next.len() > 0,
        next[0] == ',',
    ensures
        contains_text(pre + key + v + next, key + v + ","@),
{
    reveal_strlit(",");
    assert(pre + key + v + next =~= pre + (key + v + ","@) + next.skip(1));
    lemma_contains_middle(pre, key + v + ","@, next.skip(1));
}

proof fn lemma_field_last(pre: Seq<char>, key: Seq<char>, v: Seq<char>)
    ensures
        contains_text(pre + key + v, key + v),
{
    assert(pre + key + v =~= pre + (key + v) + Seq::<char>::empty());
    lemma_contains_middle(pre, key + v, Seq::<char>::empty());
}

/// The fields of a summary's JSON rendering that follow its counts.
spec fn lines_field(lines: Option<LevelLinesView>) -> Seq<char> {
    match lines {
        Some(v) => ",\"lines\":"@ + level_lines_json(v),
        None => Seq::<char>::empty(),
    }
}

proof fn lemma_summary_json_total_lines(s: SummaryView, lines: Option<LevelLinesView>)
    ensures
        contains_text(summary_json(s, lines), "{\"total_lines\":"@ + decimal(s.total_lines as nat) + ","@),
{
    let m = lines_field(lines);
    let t = summary_json(s, lines);
    assert(t == "{\"total_lines\":"@ + decimal(s.total_lines as nat) + ",\"unparsed_lines\":"@ + decimal(s.unparsed_lines as nat) + ",\"trace\":"@ + decimal(s.trace as nat) + ",\"debug\":"@ + decimal(s.debug as nat) + ",\"info\":"@ + decimal(s.info as nat) + ",\"warn\":"@ + decimal(s.warn as nat) + ",\"error\":"@ + decimal(s.error as nat) + ",\"first_timestamp\":"@ + json_opt_str(s.first_timestamp) + ",\"last_timestamp\":"@ + json_opt_str(s.last_timestamp) + m + "}"@);
    reveal_strlit(",\"unparsed_lines\":");
    lemma_field_then_comma(Seq::<char>::empty(), "{\"total_lines\":"@, decimal(s.total_lines as nat), ",\"unparsed_lines\":"@);
    assert(Seq::<char>::empty() + "{\"total_lines\":"@ + decimal(s.total_lines as nat) + ",\"unparsed_lines\":"@ =~= "{\"total_lines\":"@ + decimal(s.total_lines as nat) + ",\"unparsed_lines\":"@);
    lemma_contains_extend("{\"total_lines\":"@ + decimal(s.total_lines as nat) + ",\"unparsed_lines\":"@, decimal(s.unparsed_lines as nat), "{\"total_lines\":"@ + decimal(s.total_lines as nat) + ","@);
    lemma_contains_extend("{\"total_lines\":"@ + decimal(s.total_lines as nat) + ",\"unparsed_lines\":"@ + decimal(s.unparsed_lines as nat), ",\"trace\":"@, "{\"total_lines\":"@ + decimal(s.total_lines as nat) + ","@);
    lemma_contains_extend("{\"total_lines\":"@ + decimal(s.total_lines as nat) + ",\"unparsed_lines\":"@ + decimal(s.unparsed_lines as nat) + ",\"trace\":"@, decimal(s.trace as nat), "{\"total_lines\":"@ + decimal(s.total_lines as nat) + ","@);
    lemma_contains_extend("{\"total_lines\":"@ + decimal(s.total_lines as nat) + ",\"unparsed_lines\":"@ + decimal(s.unparsed_lines as nat) + ",\"trace\":"@ + decimal(s.trace as nat), ",\"debug\":"@, "{\"total_lines\":"@ + decimal(s.total_lines as nat) + ","@);
    lemma_contains_extend("{\"total_lines\":"@ + decimal(s.total_lines as nat) + ",\"unparsed_lines\":"@ + decimal(s.unparsed_lines as nat) + ",\"trace\":"@ + decimal(s.trace as nat) + ",\"debug\":"@, decimal(s.debug as nat), "{\"total_lines\":"@ + decimal(s.total_lines as nat) + ","@);
    lemma_contains_extend("{\"total_lines\":"@ + decimal(s.total_lines as nat) + ",\"unparsed_lines\":"@ + decimal(s.unparsed_lines as nat) + ",\"trace\":"@ + decimal(s.trace as nat) + ",\"debug\":"@ + decimal(s.debug as nat), ",\"info\":"@, "{\"total_lines\":"@ + decimal(s.total_lines as nat) + ","@);
    lemma_contains_extend("{\"total_lines\":"@ + decimal(s.total_lines as nat) + ",\"unparsed_lines\":"@ + decimal(s.unparsed_lines as nat) + ",\"trace\":"@ + decimal(s.trace as nat) + ",\"debug\":"@ + decimal(s.debug as nat) + ",\"info\":"@, decimal(s.info as nat), "{\"total_lines\":"@ + decimal(s.total_lines as nat) + ","@);
    lemma_contains_extend("{\"total_lines\":"@ + decimal(s.total_lines as nat) + ",\"unparsed_lines\":"@ + decimal(s.unparsed_lines as nat) + ",\"trace\":"@ + decimal(s.trace as nat) + ",\"debug\":"@ + decimal(s.debug as nat) + ",\"info\":"@ + decimal(s.info as nat), ",\"warn\":"@, "{\"total_lines\":"@ + decimal(s.total_lines as nat) + ","@);
    lemma_contains_extend("{\"total_lines\":"@ + decimal(s.total_lines as nat) + ",\"unparsed_lines\":"@ + decimal(s.unparsed_lines as nat) + ",\"trace\":"@ + decimal(s.trace as nat) + ",\"debug\":"@ + decimal(s.debug as nat) + ",\"info\":"@ + decimal(s.info as nat) + ",\"warn\":"@, decimal(s.warn as nat), "{\"total_lines\":"@ + decimal(s.total_lines as nat) + ","@);
    lemma_contains_extend("{\"total_lines\":"@ + decimal(s.total_lines as nat) + ",\"unparsed_lines\":"@ + decimal(s.unparsed_lines as nat) + ",\"trace\":"@ + decimal(s.trace as nat) + ",\"debug\":"@ + decimal(s.debug as nat) + ",\"info\":"@ + decimal(s.info as nat) + ",\"warn\":"@ + decimal(s.warn as nat), ",\"error\":"@, "{\"total_lines\":"@ + decimal(s.total_lines as nat) + ","@);
    lemma_contains_extend("{\"total_lines\":"@ + decimal(s.total_lines as nat) + ",\"unparsed_lines\":"@ + decimal(s.unparsed_lines as nat) + ",\"trace\":"@ + decimal(s.trace as nat) + ",\"debug\":"@ + decimal(s.debug as nat) + ",\"info\":"@ + decimal(s.info as nat) + ",\"warn\":"@ + decimal(s.warn as nat) + ",\"error\":"@, decimal(s.error as nat), "{\"total_lines\":"@ + decimal(s.total_lines as nat) + ","@);
    lemma_contains_extend("{\"total_lines\":"@ + decimal(s.total_lines as nat) + ",\"unparsed_lines\":"@ + decimal(s.unparsed_lines as nat) + ",\"trace\":"@ + decimal(s.trace as nat) + ",\"debug\":"@ + decimal(s.debug as nat) + ",\"info\":"@ + decimal(s.info as nat) + ",\"warn\":"@ + decimal(s.warn as nat) + ",\"error\":"@ + decimal(s.error as nat), ",\"first_timestamp\":"@, "{\"total_lines\":"@ + decimal(s.total_lines as nat) + ","@);
    lemma_contains_extend("{\"total_lines\":"@ + decimal(s.total_lines as nat) + ",\"unparsed_lines\":"@ + decimal(s.unparsed_lines as nat) + ",\"trace\":"@ + decimal(s.trace as nat) + ",\"debug\":"@ + decimal(s.debug as nat) + ",\"info\":"@ + decimal(s.info as nat) + ",\"warn\":"@ + decimal(s.warn as nat) + ",\"error\":"@ + decimal(s.error as nat) + ",\"first_timestamp\":"@, json_opt_str(s.first_timestamp), "{\"total_lines\":"@ + decimal(s.total_lines as nat) + ","@);
    lemma_contains_extend("{\"total_lines\":"@ + decimal(s.total_lines as nat) + ",\"unparsed_lines\":"@ + decimal(s.unparsed_lines as nat) + ",\"trace\":"@ + decimal(s.trace as nat) + ",\"debug\":"@ + decimal(s.debug as nat) + ",\"info\":"@ + decimal(s.info as nat) + ",\"warn\":"@ + decimal(s.warn as nat) + ",\"error\":"@ + decimal(s.error as nat) + ",\"first_timestamp\":"@ + json_opt_str(s.first_timestamp), ",\"last_timestamp\":"@, "{\"total_lines\":"@ + decimal(s.total_lines as nat) + ","@);
    lemma_contains_extend("{\"total_lines\":"@ + decimal(s.total_lines as nat) + ",\"unparsed_lines\":"@ + decimal(s.unparsed_lines as nat) + ",\"trace\":"@ + decimal(s.trace as nat) + ",\"debug\":"@ + decimal(s.debug as nat) + ",\"info\":"@ + decimal(s.info as nat) + ",\"warn\":"@ + decimal(s.warn as nat) + ",\"error\":"@ + decimal(s.error as nat) + ",\"first_timestamp\":"@ + json_opt_str(s.first_timestamp) + ",\"last_timestamp\":"@, json_opt_str(s.last_timestamp), "{\"total_lines\":"@ + decimal(s.total_lines as nat) + ","@);
    lemma_contains_extend("{\"total_lines\":"@ + decimal(s.total_lines as nat) + ",\"unparsed_lines\":"@ + decimal(s.unparsed_lines as nat) + ",\"trace\":"@ + decimal(s.trace as nat) + ",\"debug\":"@ + decimal(s.debug as nat) + ",\"info\":"@ + decimal(s.info as nat) + ",\"warn\":"@ + decimal(s.warn as nat) + ",\"error\":"@ + decimal(s.error as nat) + ",\"first_timestamp\":"@ + json_opt_str(s.first_timestamp) + ",\"last_timestamp\":"@ + json_opt_str(s.last_timestamp), m, "{\"total_lines\":"@ + decimal(s.total_lines as nat) + ","@);
    lemma_contains_extend("{\"total_lines\":"@ + decimal(s.total_lines as nat) + ",\"unparsed_lines\":"@ + decimal(s.unparsed_lines as nat) + ",\"trace\":"@ + decimal(s.trace as nat) + ",\"debug\":"@ + decimal(s.debug as nat) + ",\"info\":"@ + decimal(s.info as nat) + ",\"warn\":"@ + decimal(s.warn as nat) + ",\"error\":"@ + decimal(s.error as nat) + ",\"first_timestamp\":"@ + json_opt_str(s.first_timestamp) + ",\"last_timestamp\":"@ + json_opt_str(s.last_timestamp) + m, "}"@, "{\"total_lines\":"@ + decimal(s.total_lines as nat) + ","@);
}

proof fn lemma_summary_json_unparsed_lines(s: SummaryView, lines: Option<LevelLinesView>)
    ensures
        contains_text(summary_json(s, lines), ",\"unparsed_lines\":"@ + decimal(s.unparsed_lines as nat) + ","@),
{
    let m = lines_field(lines);
    let t = summary_json(s, lines);
    assert(t == "{\"total_lines\":"@ + decimal(s.total_lines as nat) + ",\"unparsed_lines\":"@ + decimal(s.unparsed_lines as nat) + ",\"trace\":"@ + decimal(s.trace as nat) + ",\"debug\":"@ + decimal(s.debug as nat) + ",\"info\":"@ + decimal(s.info as nat) + ",\"warn\":"@ + decimal(s.warn as nat) + ",\"error\":"@ + decimal(s.error as nat) + ",\"first_timestamp\":"@ + json_opt_str(s.first_timestamp) + ",\"last_timestamp\":"@ + json_opt_str(s.last_timestamp) + m + "}"@);
    reveal_strlit(",\"trace\":");
    lemma_field_then_comma("{\"total_lines\":"@ + decimal(s.total_lines as nat), ",\"unparsed_lines\":"@, decimal(s.unparsed_lines as nat), ",\"trace\":"@);
    lemma_contains_extend("{\"total_lines\":"@ + decimal(s.total_lines as nat) + ",\"unparsed_lines\":"@ + decimal(s.unparsed_lines as nat) + ",\"trace\":"@, decimal(s.trace as nat), ",\"unparsed_lines\":"@ + decimal(s.unparsed_lines as nat) + ","@);
    lemma_contains_extend("{\"total_lines\":"@ + decimal(s.total_lines as nat) + ",\"unparsed_lines\":"@ + decimal(s.unparsed_lines as nat) + ",\"trace\":"@ + decimal(s.trace as nat), ",\"debug\":"@, ",\"unparsed_lines\":"@ + decimal(s.unparsed_lines as nat) + ","@);
    lemma_contains_extend("{\"total_lines\":"@ + decimal(s.total_lines as nat) + ",\"unparsed_lines\":"@ + decimal(s.unparsed_lines as nat) + ",\"trace\":"@ + decimal(s.trace as nat) + ",\"debug\":"@, decimal(s.debug as nat), ",\"unparsed_lines\":"@ + decimal(s.unparsed_lines as nat) + ","@);
    lemma_contains_extend("{\"total_lines\":"@ + decimal(s.total_lines as nat) + ",\"unparsed_lines\":"@ + decimal(s.unparsed_lines as nat) + ",\"trace\":"@ + decimal(s.trace as nat) + ",\"debug\":"@ + decimal(s.debug as nat), ",\"info\":"@, ",\"unparsed_lines\":"@ + decimal(s.unparsed_lines as nat) + ","@);
    lemma_contains_extend("{\"total_lines\":"@ + decimal(s.total_lines as nat) + ",\"unparsed_lines\":"@ + decimal(s.unparsed_lines as nat) + ",\"trace\":"@ + decimal(s.trace as nat) + ",\"debug\":"@ + decimal(s.debug as nat) + ",\"info\":"@, decimal(s.info as nat), ",\"unparsed_lines\":"@ + decimal(s.unparsed_lines as nat) + ","@);
    lemma_contains_extend("{\"total_lines\":"@ + decimal(s.total_lines as nat) + ",\"unparsed_lines\":"@ + decimal(s.unparsed_lines as nat) + ",\"trace\":"@ + decimal(s.trace as nat) + ",\"debug\":"@ + decimal(s.debug as nat) + ",\"info\":"@ + decimal(s.info as nat), ",\"warn\":"@, ",\"unparsed_lines\":"@ + decimal(s.unparsed_lines as nat) + ","@);
    lemma_contains_extend("{\"total_lines\":"@ + decimal(s.total_lines as nat) + ",\"unparsed_lines\":"@ + decimal(s.unparsed_lines as nat) + ",\"trace\":"@ + decimal(s.trace as nat) + ",\"debug\":"@ + decimal(s.debug as nat) + ",\"info\":"@ + decimal(s.info as nat) + ",\"warn\":"@, decimal(s.warn as nat), ",\"unparsed_lines\":"@ + decimal(s.unparsed_lines as nat) + ","@);
    lemma_contains_extend("{\"total_lines\":"@ + decimal(s.total_lines as nat) + ",\"unparsed_lines\":"@ + decimal(s.unparsed_lines as nat) + ",\"trace\":"@ + decimal(s.trace as nat) + ",\"debug\":"@ + decimal(s.debug as nat) + ",\"info\":"@ + decimal(s.info as nat) + ",\"warn\":"@ + decimal(s.warn as nat), ",\"error\":"@, ",\"unparsed_lines\":"@ + decimal(s.unparsed_lines as nat) + ","@);
    lemma_contains_extend("{\"total_lines\":"@ + decimal(s.total_lines as nat) + ",\"unparsed_lines\":"@ + decimal(s.unparsed_lines as nat) + ",\"trace\":"@ + decimal(s.trace as nat) + ",\"debug\":"@ + decimal(s.debug as nat) + ",\"info\":"@ + decimal(s.info as nat) + ",\"warn\":"@ + decimal(s.warn as nat) + ",\"error\":"@, decimal(s.error as nat), ",\"unparsed_lines\":"@ + decimal(s.unparsed_lines as nat) + ","@);
    lemma_contains_extend("{\"total_lines\":"@ + decimal(s.total_lines as nat) + ",\"unparsed_lines\":"@ + decimal(s.unparsed_lines as nat) + ",\"trace\":"@ + decimal(s.trace as nat) + ",\"debug\":"@ + decimal(s.debug as nat) + ",\"info\":"@ + decimal(s.info as nat) + ",\"warn\":"@ + decimal(s.warn as nat) + ",\"error\":"@ + decimal(s.error as nat), ",\"first_timestamp\":"@, ",\"unparsed_lines\":"@ + decimal(s.unparsed_lines as nat) + ","@);
    lemma_contains_extend("{\"total_lines\":"@ + decimal(s.total_lines as nat) + ",\"unparsed_lines\":"@ + decimal(s.unparsed_lines as nat) + ",\"trace\":"@ + decimal(s.trace as nat) + ",\"debug\":"@ + decimal(s.debug as nat) + ",\"info\":"@ + decimal(s.info as nat) + ",\"warn\":"@ + decimal(s.warn as nat) + ",\"error\":"@ + decimal(s.error as nat) + ",\"first_timestamp\":"@, json_opt_str(s.first_timestamp), ",\"unparsed_lines\":"@ + decimal(s.unparsed_lines as nat) + ","@);
    lemma_contains_extend("{\"total_lines\":"@ + decimal(s.total_lines as nat) + ",\"unparsed_lines\":"@ + decimal(s.unparsed_lines as nat) + ",\"trace\":"@ + decimal(s.trace as nat) + ",\"debug\":"@ + decimal(s.debug as nat) + ",\"info\":"@ + decimal(s.info as nat) + ",\"warn\":"@ + decimal(s.warn as nat) + ",\"error\":"@ + decimal(s.error as nat) + ",\"first_timestamp\":"@ + json_opt_str(s.first_timestamp), ",\"last_timestamp\":"@, ",\"unparsed_lines\":"@ + decimal(s.unparsed_lines as nat) + ","@);
    lemma_contains_extend("{\"total_lines\":"@ + decimal(s.total_lines as nat) + ",\"unparsed_lines\":"@ + decimal(s.unparsed_lines as nat) + ",\"trace\":"@ + decimal(s.trace as nat) + ",\"debug\":"@ + decimal(s.debug as nat) + ",\"info\":"@ + decimal(s.info as nat) + ",\"warn\":"@ + decimal(s.warn as nat) + ",\"error\":"@ + decimal(s.error as nat) + ",\"first_timestamp\":"@ + json_opt_str(s.first_timestamp) + ",\"last_timestamp\":"@, json_opt_str(s.last_timestamp), ",\"unparsed_lines\":"@ + decimal(s.unparsed_lines as nat) + ","@);
    lemma_contains_extend("{\"total_lines\":"@ + decimal(s.total_lines as nat) + ",\"unparsed_lines\":"@ + decimal(s.unparsed_lines as nat) + ",\"trace\":"@ + decimal(s.trace as nat) + ",\"debug\":"@ + decimal(s.debug as nat) + ",\"info\":"@ + decimal(s.info as nat) + ",\"warn\":"@ + decimal(s.warn as nat) + ",\"error\":"@ + decimal(s.error as nat) + ",\"first_timestamp\":"@ + json_opt_str(s.first_timestamp) + ",\"last_timestamp\":"@ + json_opt_str(s.last_timestamp), m, ",\"unparsed_lines\":"@ + decimal(s.unparsed_lines as nat) + ","@);
    lemma_contains_extend("{\"total_lines\":"@ + decimal(s.total_lines as nat) + ",\"unparsed_lines\":"@ + decimal(s.unparsed_lines as nat) + ",\"trace\":"@ + decimal(s.trace as nat) + ",\"debug\":"@ + decimal(s.debug as nat) + ",\"info\":"@ + decimal(s.info as nat) + ",\"warn\":"@ + decimal(s.warn as nat) + ",\"error\":"@ + decimal(s.error as nat) + ",\"first_timestamp\":"@ + json_opt_str(s.first_timestamp) + ",\"last_timestamp\":"@ + json_opt_str(s.last_timestamp) + m, "}"@, ",\"unparsed_lines\":"@ + decimal(s.unparsed_lines as nat) + ","@);
}

proof fn lemma_summary_json_trace(s: SummaryView, lines: Option<LevelLinesView>)
    ensures
        contains_text(summary_json(s, lines), ",\"trace\":"@ + decimal(s.trace as nat) + ","@),
{
    let m = lines_field(lines);
    let t = summary_json(s, lines);
    assert(t == "{\"total_lines\":"@ + decimal(s.total_lines as nat) + ",\"unparsed_lines\":"@ + decimal(s.unparsed_lines as nat) + ",\"trace\":"@ + decimal(s.trace as nat) + ",\"debug\":"@ + decimal(s.debug as nat) + ",\"info\":"@ + decimal(s.info as nat) + ",\"warn\":"@ + decimal(s.warn as nat) + ",\"error\":"@ + decimal(s.error as nat) + ",\"first_timestamp\":"@ + json_opt_str(s.first_timestamp) + ",\"last_timestamp\":"@ + json_opt_str(s.last_timestamp) + m + "}"@);
    reveal_strlit(",\"debug\":");
    lemma_field_then_comma("{\"total_lines\":"@ + decimal(s.total_lines as nat) + ",\"unparsed_lines\":"@ + decimal(s.unparsed_lines as nat), ",\"trace\":"@, decimal(s.trace as nat), ",\"debug\":"@);
    lemma_contains_extend("{\"total_lines\":"@ + decimal(s.total_lines as nat) + ",\"unparsed_lines\":"@ + decimal(s.unparsed_lines as nat) + ",\"trace\":"@ + decimal(s.trace as nat) + ",\"debug\":"@, decimal(s.debug as nat), ",\"trace\":"@ + decimal(s.trace as nat) + ","@);
    lemma_contains_extend("{\"total_lines\":"@ + decimal(s.total_lines as nat) + ",\"unparsed_lines\":"@ + decimal(s.unparsed_lines as nat) + ",\"trace\":"@ + decimal(s.trace as nat) + ",\"debug\":"@ + decimal(s.debug as nat), ",\"info\":"@, ",\"trace\":"@ + decimal(s.trace as nat) + ","@);
    lemma_contains_extend("{\"total_lines\":"@ + decimal(s.total_lines as nat) + ",\"unparsed_lines\":"@ + decimal(s.unparsed_lines as nat) + ",\"trace\":"@ + decimal(s.trace as nat) + ",\"debug\":"@ + decimal(s.debug as nat) + ",\"info\":"@, decimal(s.info as nat), ",\"trace\":"@ + decimal(s.trace as nat) + ","@);
    lemma_contains_extend("{\"total_lines\":"@ + decimal(s.total_lines as nat) + ",\"unparsed_lines\":"@ + decimal(s.unparsed_lines as nat) + ",\"trace\":"@ + decimal(s.trace as nat) + ",\"debug\":"@ + decimal(s.debug as nat) + ",\"info\":"@ + decimal(s.info as nat), ",\"warn\":"@, ",\"trace\":"@ + decimal(s.trace as nat) + ","@);
    lemma_contains_extend("{\"total_lines\":"@ + decimal(s.total_lines as nat) + ",\"unparsed_lines\":"@ + decimal(s.unparsed_lines as nat) + ",\"trace\":"@ + decimal(s.trace as nat) + ",\"debug\":"@ + decimal(s.debug as nat) + ",\"info\":"@ + decimal(s.info as nat) + ",\"warn\":"@, decimal(s.warn as nat), ",\"trace\":"@ + decimal(s.trace as nat) + ","@);
    lemma_contains_extend("{\"total_lines\":"@ + decimal(s.total_lines as nat) + ",\"unparsed_lines\":"@ + decimal(s.unparsed_lines as nat) + ",\"trace\":"@ + decimal(s.trace as nat) + ",\"debug\":"@ + decimal(s.debug as nat) + ",\"info\":"@ + decimal(s.info as nat) + ",\"warn\":"@ + decimal(s.warn as nat), ",\"error\":"@, ",\"trace\":"@ + decimal(s.trace as nat) + ","@);
    lemma_contains_extend("{\"total_lines\":"@ + decimal(s.total_lines as nat) + ",\"unparsed_lines\":"@ + decimal(s.unparsed_lines as nat) + ",\"trace\":"@ + decimal(s.trace as nat) + ",\"debug\":"@ + decimal(s.debug as nat) + ",\"info\":"@ + decimal(s.info as nat) + ",\"warn\":"@ + decimal(s.warn as nat) + ",\"error\":"@, decimal(s.error as nat), ",\"trace\":"@ + decimal(s.trace as nat) + ","@);
    lemma_contains_extend("{\"total_lines\":"@ + decimal(s.total_lines as nat) + ",\"unparsed_lines\":"@ + decimal(s.unparsed_lines as nat) + ",\"trace\":"@ + decimal(s.trace as nat) + ",\"debug\":"@ + decimal(s.debug as nat) + ",\"info\":"@ + decimal(s.info as nat) + ",\"warn\":"@ + decimal(s.warn as nat) + ",\"error\":"@ + decimal(s.error as nat), ",\"first_timestamp\":"@, ",\"trace\":"@ + decimal(s.trace as nat) + ","@);
    lemma_contains_extend("{\"total_lines\":"@ + decimal(s.total_lines as nat) + ",\"unparsed_lines\":"@ + decimal(s.unparsed_lines as nat) + ",\"trace\":"@ + decimal(s.trace as nat) + ",\"debug\":"@ + decimal(s.debug as nat) + ",\"info\":"@ + decimal(s.info as nat) + ",\"warn\":"@ + decimal(s.warn as nat) + ",\"error\":"@ + decimal(s.error as nat) + ",\"first_timestamp\":"@, json_opt_str(s.first_timestamp), ",\"trace\":"@ + decimal(s.trace as nat) + ","@);
    lemma_contains_extend("{\"total_lines\":"@ + decimal(s.total_lines as nat) + ",\"unparsed_lines\":"@ + decimal(s.unparsed_lines as nat) + ",\"trace\":"@ + decimal(s.trace as nat) + ",\"debug\":"@ + decimal(s.debug as nat) + ",\"info\":"@ + decimal(s.info as nat) + ",\"warn\":"@ + decimal(s.warn as nat) + ",\"error\":"@ + decimal(s.error as nat) + ",\"first_timestamp\":"@ + json_opt_str(s.first_timestamp), ",\"last_timestamp\":"@, ",\"trace\":"@ + decimal(s.trace as nat) + ","@);
    lemma_contains_extend("{\"total_lines\":"@ + decimal(s.total_lines as nat) + ",\"unparsed_lines\":"@ + decimal(s.unparsed_lines as nat) + ",\"trace\":"@ + decimal(s.trace as nat) + ",\"debug\":"@ + decimal(s.debug as nat) + ",\"info\":"@ + decimal(s.info as nat) + ",\"warn\":"@ + decimal(s.warn as nat) + ",\"error\":"@ + decimal(s.error as nat) + ",\"first_timestamp\":"@ + json_opt_str(s.first_timestamp) + ",\"last_timestamp\":"@, json_opt_str(s.last_timestamp), ",\"trace\":"@ + decimal(s.trace as nat) + ","@);
    lemma_contains_extend("{\"total_lines\":"@ + decimal(s.total_lines as nat) + ",\"unparsed_lines\":"@ + decimal(s.unparsed_lines as nat) + ",\"trace\":"@ + decimal(s.trace as nat) + ",\"debug\":"@ + decimal(s.debug as nat) + ",\"info\":"@ + decimal(s.info as nat) + ",\"warn\":"@ + decimal(s.warn as nat) + ",\"error\":"@ + decimal(s.error as nat) + ",\"first_timestamp\":"@ + json_opt_str(s.first_timestamp) + ",\"last_timestamp\":"@ + json_opt_str(s.last_timestamp), m, ",\"trace\":"@ + decimal(s.trace as nat) + ","@);
    lemma_contains_extend("{\"total_lines\":"@ + decimal(s.total_lines as nat) + ",\"unparsed_lines\":"@ + decimal(s.unparsed_lines as nat) + ",\"trace\":"@ + decimal(s.trace as nat) + ",\"debug\":"@ + decimal(s.debug as nat) + ",\"info\":"@ + decimal(s.info as nat) + ",\"warn\":"@ + decimal(s.warn as nat) + ",\"error\":"@ + decimal(s.error as nat) + ",\"first_timestamp\":"@ + json_opt_str(s.first_timestamp) + ",\"last_timestamp\":"@ + json_opt_str(s.last_timestamp) + m, "}"@, ",\"trace\":"@ + decimal(s.trace as nat) + ","@);
}

proof fn lemma_summary_json_debug(s: SummaryView, lines: Option<LevelLinesView>)
    ensures
        contains_text(summary_json(s, lines), ",\"debug\":"@ + decimal(s.debug as nat) + ","@),
{
    let m = lines_field(lines);
    let t = summary_json(s, lines);
    assert(t == "{\"total_lines\":"@ + decimal(s.total_lines as nat) + ",\"unparsed_lines\":"@ + decimal(s.unparsed_lines as nat) + ",\"trace\":"@ + decimal(s.trace as nat) + ",\"debug\":"@ + decimal(s.debug as nat) + ",\"info\":"@ + decimal(s.info as nat) + ",\"warn\":"@ + decimal(s.warn as nat) + ",\"error\":"@ + decimal(s.error as nat) + ",\"first_timestamp\":"@ + json_opt_str(s.first_timestamp) + ",\"last_timestamp\":"@ + json_opt_str(s.last_timestamp) + m + "}"@);
    reveal_strlit(",\"info\":");
    lemma_field_then_comma("{\"total_lines\":"@ + decimal(s.total_lines as nat) + ",\"unparsed_lines\":"@ + decimal(s.unparsed_lines as nat) + ",\"trace\":"@ + decimal(s.trace as nat), ",\"debug\":"@, decimal(s.debug as nat), ",\"info\":"@);
    lemma_contains_extend("{\"total_lines\":"@ + decimal(s.total_lines as nat) + ",\"unparsed_lines\":"@ + decimal(s.unparsed_lines as nat) + ",\"trace\":"@ + decimal(s.trace as nat) + ",\"debug\":"@ + decimal(s.debug as nat) + ",\"info\":"@, decimal(s.info as nat), ",\"debug\":"@ + decimal(s.debug as nat) + ","@);
    lemma_contains_extend("{\"total_lines\":"@ + decimal(s.total_lines as nat) + ",\"unparsed_lines\":"@ + decimal(s.unparsed_lines as nat) + ",\"trace\":"@ + decimal(s.trace as nat) + ",\"debug\":"@ + decimal(s.debug as nat) + ",\"info\":"@ + decimal(s.info as nat), ",\"warn\":"@, ",\"debug\":"@ + decimal(s.debug as nat) + ","@);
    lemma_contains_extend("{\"total_lines\":"@ + decimal(s.total_lines as nat) + ",\"unparsed_lines\":"@ + decimal(s.unparsed_lines as nat) + ",\"trace\":"@ + decimal(s.trace as nat) + ",\"debug\":"@ + decimal(s.debug as nat) + ",\"info\":"@ + decimal(s.info as nat) + ",\"warn\":"@, decimal(s.warn as nat), ",\"debug\":"@ + decimal(s.debug as nat) + ","@);
    lemma_contains_extend("{\"total_lines\":"@ + decimal(s.total_lines as nat) + ",\"unparsed_lines\":"@ + decimal(s.unparsed_lines as nat) + ",\"trace\":"@ + decimal(s.trace as nat) + ",\"debug\":"@ + decimal(s.debug as nat) + ",\"info\":"@ + decimal(s.info as nat) + ",\"warn\":"@ + decimal(s.warn as nat), ",\"error\":"@, ",\"debug\":"@ + decimal(s.debug as nat) + ","@);
    lemma_contains_extend("{\"total_lines\":"@ + decimal(s.total_lines as nat) + ",\"unparsed_lines\":"@ + decimal(s.unparsed_lines as nat) + ",\"trace\":"@ + decimal(s.trace as nat) + ",\"debug\":"@ + decimal(s.debug as nat) + ",\"info\":"@ + decimal(s.info as nat) + ",\"warn\":"@ + decimal(s.warn as nat) + ",\"error\":"@, decimal(s.error as nat), ",\"debug\":"@ + decimal(s.debug as nat) + ","@);
    lemma_contains_extend("{\"total_lines\":"@ + decimal(s.total_lines as nat) + ",\"unparsed_lines\":"@ + decimal(s.unparsed_lines as nat) + ",\"trace\":"@ + decimal(s.trace as nat) + ",\"debug\":"@ + decimal(s.debug as nat) + ",\"info\":"@ + decimal(s.info as nat) + ",\"warn\":"@ + decimal(s.warn as nat) + ",\"error\":"@ + decimal(s.error as nat), ",\"first_timestamp\":"@, ",\"debug\":"@ + decimal(s.debug as nat) + ","@);
    lemma_contains_extend("{\"total_lines\":"@ + decimal(s.total_lines as nat) + ",\"unparsed_lines\":"@ + decimal(s.unparsed_lines as nat) + ",\"trace\":"@ + decimal(s.trace as nat) + ",\"debug\":"@ + decimal(s.debug as nat) + ",\"info\":"@ + decimal(s.info as nat) + ",\"warn\":"@ + decimal(s.warn as nat) + ",\"error\":"@ + decimal(s.error as nat) + ",\"first_timestamp\":"@, json_opt_str(s.first_timestamp), ",\"debug\":"@ + decimal(s.debug as nat) + ","@);
    lemma_contains_extend("{\"total_lines\":"@ + decimal(s.total_lines as nat) + ",\"unparsed_lines\":"@ + decimal(s.unparsed_lines as nat) + ",\"trace\":"@ + decimal(s.trace as nat) + ",\"debug\":"@ + decimal(s.debug as nat) + ",\"info\":"@ + decimal(s.info as nat) + ",\"warn\":"@ + decimal(s.warn as nat) + ",\"error\":"@ + decimal(s.error as nat) + ",\"first_timestamp\":"@ + json_opt_str(s.first_timestamp), ",\"last_timestamp\":"@, ",\"debug\":"@ + decimal(s.debug as nat) + ","@);
    lemma_contains_extend("{\"total_lines\":"@ + decimal(s.total_lines as nat) + ",\"unparsed_lines\":"@ + decimal(s.unparsed_lines as nat) + ",\"trace\":"@ + decimal(s.trace as nat) + ",\"debug\":"@ + decimal(s.debug as nat) + ",\"info\":"@ + decimal(s.info as nat) + ",\"warn\":"@ + decimal(s.warn as nat) + ",\"error\":"@ + decimal(s.error as nat) + ",\"first_timestamp\":"@ + json_opt_str(s.first_timestamp) + ",\"last_timestamp\":"@, json_opt_str(s.last_timestamp), ",\"debug\":"@ + decimal(s.debug as nat) + ","@);
    lemma_contains_extend("{\"total_lines\":"@ + decimal(s.total_lines as nat) + ",\"unparsed_lines\":"@ + decimal(s.unparsed_lines as nat) + ",\"trace\":"@ + decimal(s.trace as nat) + ",\"debug\":"@ + decimal(s.debug as nat) + ",\"info\":"@ + decimal(s.info as nat) + ",\"warn\":"@ + decimal(s.warn as nat) + ",\"error\":"@ + decimal(s.error as nat) + ",\"first_timestamp\":"@ + json_opt_str(s.first_timestamp) + ",\"last_timestamp\":"@ + json_opt_str(s.last_timestamp), m, ",\"debug\":"@ + decimal(s.debug as nat) + ","@);
    lemma_contains_extend("{\"total_lines\":"@ + decimal(s.total_lines as nat) + ",\"unparsed_lines\":"@ + decimal(s.unparsed_lines as nat) + ",\"trace\":"@ + decimal(s.trace as nat) + ",\"debug\":"@ + decimal(s.debug as nat) + ",\"info\":"@ + decimal(s.info as nat) + ",\"warn\":"@ + decimal(s.warn as nat) + ",\"error\":"@ + decimal(s.error as nat) + ",\"first_timestamp\":"@ + json_opt_str(s.first_timestamp) + ",\"last_timestamp\":"@ + json_opt_str(s.last_timestamp) + m, "}"@, ",\"debug\":"@ + decimal(s.debug as nat) + ","@);
}

proof fn lemma_summary_json_info(s: SummaryView, lines: Option<LevelLinesView>)
    ensures
        contains_text(summary_json(s, lines), ",\"info\":"@ + decimal(s.info as nat) + ","@),
{
    let m = lines_field(lines);
    let t = summary_json(s, lines);
    assert(t == "{\"total_lines\":"@ + decimal(s.total_lines as nat) + ",\"unparsed_lines\":"@ + decimal(s.unparsed_lines as nat) + ",\"trace\":"@ + decimal(s.trace as nat) + ",\"debug\":"@ + decimal(s.debug as nat) + ",\"info\":"@ + decimal(s.info as nat) + ",\"warn\":"@ + decimal(s.warn as nat) + ",\"error\":"@ + decimal(s.error as nat) + ",\"first_timestamp\":"@ + json_opt_str(s.first_timestamp) + ",\"last_timestamp\":"@ + json_opt_str(s.last_timestamp) + m + "}"@);
    reveal_strlit(",\"warn\":");
    lemma_field_then_comma("{\"total_lines\":"@ + decimal(s.total_lines as nat) + ",\"unparsed_lines\":"@ + decimal(s.unparsed_lines as nat) + ",\"trace\":"@ + decimal(s.trace as nat) + ",\"debug\":"@ + decimal(s.debug as nat), ",\"info\":"@, decimal(s.info as nat), ",\"warn\":"@);
    lemma_contains_extend("{\"total_lines\":"@ + decimal(s.total_lines as nat) + ",\"unparsed_lines\":"@ + decimal(s.unparsed_lines as nat) + ",\"trace\":"@ + decimal(s.trace as nat) + ",\"debug\":"@ + decimal(s.debug as nat) + ",\"info\":"@ + decimal(s.info as nat) + ",\"warn\":"@, decimal(s.warn as nat), ",\"info\":"@ + decimal(s.info as nat) + ","@);
    lemma_contains_extend("{\"total_lines\":"@ + decimal(s.total_lines as nat) + ",\"unparsed_lines\":"@ + decimal(s.unparsed_lines as nat) + ",\"trace\":"@ + decimal(s.trace as nat) + ",\"debug\":"@ + decimal(s.debug as nat) + ",\"info\":"@ + decimal(s.info as nat) + ",\"warn\":"@ + decimal(s.warn as nat), ",\"error\":"@, ",\"info\":"@ + decimal(s.info as nat) + ","@);
    lemma_contains_extend("{\"total_lines\":"@ + decimal(s.total_lines as nat) + ",\"unparsed_lines\":"@ + decimal(s.unparsed_lines as nat) + ",\"trace\":"@ + decimal(s.trace as nat) + ",\"debug\":"@ + decimal(s.debug as nat) + ",\"info\":"@ + decimal(s.info as nat) + ",\"warn\":"@ + decimal(s.warn as nat) + ",\"error\":"@, decimal(s.error as nat), ",\"info\":"@ + decimal(s.info as nat) + ","@);
    lemma_contains_extend("{\"total_lines\":"@ + decimal(s.total_lines as nat) + ",\"unparsed_lines\":"@ + decimal(s.unparsed_lines as nat) + ",\"trace\":"@ + decimal(s.trace as nat) + ",\"debug\":"@ + decimal(s.debug as nat) + ",\"info\":"@ + decimal(s.info as nat) + ",\"warn\":"@ + decimal(s.warn as nat) + ",\"error\":"@ + decimal(s.error as nat), ",\"first_timestamp\":"@, ",\"info\":"@ + decimal(s.info as nat) + ","@);
    lemma_contains_extend("{\"total_lines\":"@ + decimal(s.total_lines as nat) + ",\"unparsed_lines\":"@ + decimal(s.unparsed_lines as nat) + ",\"trace\":"@ + decimal(s.trace as nat) + ",\"debug\":"@ + decimal(s.debug as nat) + ",\"info\":"@ + decimal(s.info as nat) + ",\"warn\":"@ + decimal(s.warn as nat) + ",\"error\":"@ + decimal(s.error as nat) + ",\"first_timestamp\":"@, json_opt_str(s.first_timestamp), ",\"info\":"@ + decimal(s.info as nat) + ","@);
    lemma_contains_extend("{\"total_lines\":"@ + decimal(s.total_lines as nat) + ",\"unparsed_lines\":"@ + decimal(s.unparsed_lines as nat) + ",\"trace\":"@ + decimal(s.trace as nat) + ",\"debug\":"@ + decimal(s.debug as nat) + ",\"info\":"@ + decimal(s.info as nat) + ",\"warn\":"@ + decimal(s.warn as nat) + ",\"error\":"@ + decimal(s.error as nat) + ",\"first_timestamp\":"@ + json_opt_str(s.first_timestamp), ",\"last_timestamp\":"@, ",\"info\":"@ + decimal(s.info as nat) + ","@);
    lemma_contains_extend("{\"total_lines\":"@ + decimal(s.total_lines as nat) + ",\"unparsed_lines\":"@ + decimal(s.unparsed_lines as nat) + ",\"trace\":"@ + decimal(s.trace as nat) + ",\"debug\":"@ + decimal(s.debug as nat) + ",\"info\":"@ + decimal(s.info as nat) + ",\"warn\":"@ + decimal(s.warn as nat) + ",\"error\":"@ + decimal(s.error as nat) + ",\"first_timestamp\":"@ + json_opt_str(s.first_timestamp) + ",\"last_timestamp\":"@, json_opt_str(s.last_timestamp), ",\"info\":"@ + decimal(s.info as nat) + ","@);
    lemma_contains_extend("{\"total_lines\":"@ + decimal(s.total_lines as nat) + ",\"unparsed_lines\":"@ + decimal(s.unparsed_lines as nat) + ",\"trace\":"@ + decimal(s.trace as nat) + ",\"debug\":"@ + decimal(s.debug as nat) + ",\"info\":"@ + decimal(s.info as nat) + ",\"warn\":"@ + decimal(s.warn as nat) + ",\"error\":"@ + decimal(s.error as nat) + ",\"first_timestamp\":"@ + json_opt_str(s.first_timestamp) + ",\"last_timestamp\":"@ + json_opt_str(s.last_timestamp), m, ",\"info\":"@ + decimal(s.info as nat) + ","@);
    lemma_contains_extend("{\"total_lines\":"@ + decimal(s.total_lines as nat) + ",\"unparsed_lines\":"@ + decimal(s.unparsed_lines as nat) + ",\"trace\":"@ + decimal(s.trace as nat) + ",\"debug\":"@ + decimal(s.debug as nat) + ",\"info\":"@ + decimal(s.info as nat) + ",\"warn\":"@ + decimal(s.warn as nat) + ",\"error\":"@ + decimal(s.error as nat) + ",\"first_timestamp\":"@ + json_opt_str(s.first_timestamp) + ",\"last_timestamp\":"@ + json_opt_str(s.last_timestamp) + m, "}"@, ",\"info\":"@ + decimal(s.info as nat) + ","@);
}

proof fn lemma_summary_json_warn(s: SummaryView, lines: Option<LevelLinesView>)
    ensures
        contains_text(summary_json(s, lines), ",\"warn\":"@ + decimal(s.warn as nat) + ","@),
{
    let m = lines_field(lines);
    let t = summary_json(s, lines);
    assert(t == "{\"total_lines\":"@ + decimal(s.total_lines as nat) + ",\"unparsed_lines\":"@ + decimal(s.unparsed_lines as nat) + ",\"trace\":"@ + decimal(s.trace as nat) + ",\"debug\":"@ + decimal(s.debug as nat) + ",\"info\":"@ + decimal(s.info as nat) + ",\"warn\":"@ + decimal(s.warn as nat) + ",\"error\":"@ + decimal(s.error as nat) + ",\"first_timestamp\":"@ + json_opt_str(s.first_timestamp) + ",\"last_timestamp\":"@ + json_opt_str(s.last_timestamp) + m + "}"@);
    reveal_strlit(",\"error\":");
    lemma_field_then_comma("{\"total_lines\":"@ + decimal(s.total_lines as nat) + ",\"unparsed_lines\":"@ + decimal(s.unparsed_lines as nat) + ",\"trace\":"@ + decimal(s.trace as nat) + ",\"debug\":"@ + decimal(s.debug as nat) + ",\"info\":"@ + decimal(s.info as nat), ",\"warn\":"@, decimal(s.warn as nat), ",\"error\":"@);
    lemma_contains_extend("{\"total_lines\":"@ + decimal(s.total_lines as nat) + ",\"unparsed_lines\":"@ + decimal(s.unparsed_lines as nat) + ",\"trace\":"@ + decimal(s.trace as nat) + ",\"debug\":"@ + decimal(s.debug as nat) + ",\"info\":"@ + decimal(s.info as nat) + ",\"warn\":"@ + decimal(s.warn as nat) + ",\"error\":"@, decimal(s.error as nat), ",\"warn\":"@ + decimal(s.warn as nat) + ","@);
    lemma_contains_extend("{\"total_lines\":"@ + decimal(s.total_lines as nat) + ",\"unparsed_lines\":"@ + decimal(s.unparsed_lines as nat) + ",\"trace\":"@ + decimal(s.trace as nat) + ",\"debug\":"@ + decimal(s.debug as nat) + ",\"info\":"@ + decimal(s.info as nat) + ",\"warn\":"@ + decimal(s.warn as nat) + ",\"error\":"@ + decimal(s.error as nat), ",\"first_timestamp\":"@, ",\"warn\":"@ + decimal(s.warn as nat) + ","@);
    lemma_contains_extend("{\"total_lines\":"@ + decimal(s.total_lines as nat) + ",\"unparsed_lines\":"@ + decimal(s.unparsed_lines as nat) + ",\"trace\":"@ + decimal(s.trace as nat) + ",\"debug\":"@ + decimal(s.debug as nat) + ",\"info\":"@ + decimal(s.info as nat) + ",\"warn\":"@ + decimal(s.warn as nat) + ",\"error\":"@ + decimal(s.error as nat) + ",\"first_timestamp\":"@, json_opt_str(s.first_timestamp), ",\"warn\":"@ + decimal(s.warn as nat) + ","@);
    lemma_contains_extend("{\"total_lines\":"@ + decimal(s.total_lines as nat) + ",\"unparsed_lines\":"@ + decimal(s.unparsed_lines as nat) + ",\"trace\":"@ + decimal(s.trace as nat) + ",\"debug\":"@ + decimal(s.debug as nat) + ",\"info\":"@ + decimal(s.info as nat) + ",\"warn\":"@ + decimal(s.warn as nat) + ",\"error\":"@ + decimal(s.error as nat) + ",\"first_timestamp\":"@ + json_opt_str(s.first_timestamp), ",\"last_timestamp\":"@, ",\"warn\":"@ + decimal(s.warn as nat) + ","@);
    lemma_contains_extend("{\"total_lines\":"@ + decimal(s.total_lines as nat) + ",\"unparsed_lines\":"@ + decimal(s.unparsed_lines as nat) + ",\"trace\":"@ + decimal(s.trace as nat) + ",\"debug\":"@ + decimal(s.debug as nat) + ",\"info\":"@ + decimal(s.info as nat) + ",\"warn\":"@ + decimal(s.warn as nat) + ",\"error\":"@ + decimal(s.error as nat) + ",\"first_timestamp\":"@ + json_opt_str(s.first_timestamp) + ",\"last_timestamp\":"@, json_opt_str(s.last_timestamp), ",\"warn\":"@ + decimal(s.warn as nat) + ","@);
    lemma_contains_extend("{\"total_lines\":"@ + decimal(s.total_lines as nat) + ",\"unparsed_lines\":"@ + decimal(s.unparsed_lines as nat) + ",\"trace\":"@ + decimal(s.trace as nat) + ",\"debug\":"@ + decimal(s.debug as nat) + ",\"info\":"@ + decimal(s.info as nat) + ",\"warn\":"@ + decimal(s.warn as nat) + ",\"error\":"@ + decimal(s.error as nat) + ",\"first_timestamp\":"@ + json_opt_str(s.first_timestamp) + ",\"last_timestamp\":"@ + json_opt_str(s.last_timestamp), m, ",\"warn\":"@ + decimal(s.warn as nat) + ","@);
    lemma_contains_extend("{\"total_lines\":"@ + decimal(s.total_lines as nat) + ",\"unparsed_lines\":"@ + decimal(s.unparsed_lines as nat) + ",\"trace\":"@ + decimal(s.trace as nat) + ",\"debug\":"@ + decimal(s.debug as nat) + ",\"info\":"@ + decimal(s.info as nat) + ",\"warn\":"@ + decimal(s.warn as nat) + ",\"error\":"@ + decimal(s.error as nat) + ",\"first_timestamp\":"@ + json_opt_str(s.first_timestamp) + ",\"last_timestamp\":"@ + json_opt_str(s.last_timestamp) + m, "}"@, ",\"warn\":"@ + decimal(s.warn as nat) + ","@);
}

proof fn lemma_summary_json_error(s: SummaryView, lines: Option<LevelLinesView>)
    ensures
        contains_text(summary_json(s, lines), ",\"error\":"@ + decimal(s.error as nat) + ","@),
{
    let m = lines_field(lines);
    let t = summary_json(s, lines);
    assert(t == "{\"total_lines\":"@ + decimal(s.total_lines as nat) + ",\"unparsed_lines\":"@ + decimal(s.unparsed_lines as nat) + ",\"trace\":"@ + decimal(s.trace as nat) + ",\"debug\":"@ + decimal(s.debug as nat) + ",\"info\":"@ + decimal(s.info as nat) + ",\"warn\":"@ + decimal(s.warn as nat) + ",\"error\":"@ + decimal(s.error as nat) + ",\"first_timestamp\":"@ + json_opt_str(s.first_timestamp) + ",\"last_timestamp\":"@ + json_opt_str(s.last_timestamp) + m + "}"@);
    reveal_strlit(",\"first_timestamp\":");
    lemma_field_then_comma("{\"total_lines\":"@ + decimal(s.total_lines as nat) + ",\"unparsed_lines\":"@ + decimal(s.unparsed_lines as nat) + ",\"trace\":"@ + decimal(s.trace as nat) + ",\"debug\":"@ + decimal(s.debug as nat) + ",\"info\":"@ + decimal(s.info as nat) + ",\"warn\":"@ + decimal(s.warn as nat), ",\"error\":"@, decimal(s.error as nat), ",\"first_timestamp\":"@);
    lemma_contains_extend("{\"total_lines\":"@ + decimal(s.total_lines as nat) + ",\"unparsed_lines\":"@ + decimal(s.unparsed_lines as nat) + ",\"trace\":"@ + decimal(s.trace as nat) + ",\"debug\":"@ + decimal(s.debug as nat) + ",\"info\":"@ + decimal(s.info as nat) + ",\"warn\":"@ + decimal(s.warn as nat) + ",\"error\":"@ + decimal(s.error as nat) + ",\"first_timestamp\":"@, json_opt_str(s.first_timestamp), ",\"error\":"@ + decimal(s.error as nat) + ","@);
    lemma_contains_extend("{\"total_lines\":"@ + decimal(s.total_lines as nat) + ",\"unparsed_lines\":"@ + decimal(s.unparsed_lines as nat) + ",\"trace\":"@ + decimal(s.trace as nat) + ",\"debug\":"@ + decimal(s.debug as nat) + ",\"info\":"@ + decimal(s.info as nat) + ",\"warn\":"@ + decimal(s.warn as nat) + ",\"error\":"@ + decimal(s.error as nat) + ",\"first_timestamp\":"@ + json_opt_str(s.first_timestamp), ",\"last_timestamp\":"@, ",\"error\":"@ + decimal(s.error as nat) + ","@);
    lemma_contains_extend("{\"total_lines\":"@ + decimal(s.total_lines as nat) + ",\"unparsed_lines\":"@ + decimal(s.unparsed_lines as nat) + ",\"trace\":"@ + decimal(s.trace as nat) + ",\"debug\":"@ + decimal(s.debug as nat) + ",\"info\":"@ + decimal(s.info as nat) + ",\"warn\":"@ + decimal(s.warn as nat) + ",\"error\":"@ + decimal(s.error as nat) + ",\"first_timestamp\":"@ + json_opt_str(s.first_timestamp) + ",\"last_timestamp\":"@, json_opt_str(s.last_timestamp), ",\"error\":"@ + decimal(s.error as nat) + ","@);
    lemma_contains_extend("{\"total_lines\":"@ + decimal(s.total_lines as nat) + ",\"unparsed_lines\":"@ + decimal(s.unparsed_lines as nat) + ",\"trace\":"@ + decimal(s.trace as nat) + ",\"debug\":"@ + decimal(s.debug as nat) + ",\"info\":"@ + decimal(s.info as nat) + ",\"warn\":"@ + decimal(s.warn as nat) + ",\"error\":"@ + decimal(s.error as nat) + ",\"first_timestamp\":"@ + json_opt_str(s.first_timestamp) + ",\"last_timestamp\":"@ + json_opt_str(s.last_timestamp), m, ",\"error\":"@ + decimal(s.error as nat) + ","@);
    lemma_contains_extend("{\"total_lines\":"@ + decimal(s.total_lines as nat) + ",\"unparsed_lines\":"@ + decimal(s.unparsed_lines as nat) + ",\"trace\":"@ + decimal(s.trace as nat) + ",\"debug\":"@ + decimal(s.debug as nat) + ",\"info\":"@ + decimal(s.info as nat) + ",\"warn\":"@ + decimal(s.warn as nat) + ",\"error\":"@ + decimal(s.error as nat) + ",\"first_timestamp\":"@ + json_opt_str(s.first_timestamp) + ",\"last_timestamp\":"@ + json_opt_str(s.last_timestamp) + m, "}"@, ",\"error\":"@ + decimal(s.error as nat) + ","@);
}

proof fn lemma_summary_json_first_timestamp(s: SummaryView, lines: Option<LevelLinesView>)
    ensures
        contains_text(summary_json(s, lines), ",\"first_timestamp\":"@ + json_opt_str(s.first_timestamp) + ","@),
{
    let m = lines_field(lines);
    let t = summary_json(s, lines);
    assert(t == "{\"total_lines\":"@ + decimal(s.total_lines as nat) + ",\"unparsed_lines\":"@ + decimal(s.unparsed_lines as nat) + ",\"trace\":"@ + decimal(s.trace as nat) + ",\"debug\":"@ + decimal(s.debug as nat) + ",\"info\":"@ + decimal(s.info as nat) + ",\"warn\":"@ + decimal(s.warn as nat) + ",\"error\":"@ + decimal(s.error as nat) + ",\"first_timestamp\":"@ + json_opt_str(s.first_timestamp) + ",\"last_timestamp\":"@ + json_opt_str(s.last_timestamp) + m + "}"@);
    reveal_strlit(",\"last_timestamp\":");
    lemma_field_then_comma("{\"total_lines\":"@ + decimal(s.total_lines as nat) + ",\"unparsed_lines\":"@ + decimal(s.unparsed_lines as nat) + ",\"trace\":"@ + decimal(s.trace as nat) + ",\"debug\":"@ + decimal(s.debug as nat) + ",\"info\":"@ + decimal(s.info as nat) + ",\"warn\":"@ + decimal(s.warn as nat) + ",\"error\":"@ + decimal(s.error as nat), ",\"first_timestamp\":"@, json_opt_str(s.first_timestamp), ",\"last_timestamp\":"@);
    lemma_contains_extend("{\"total_lines\":"@ + decimal(s.total_lines as nat) + ",\"unparsed_lines\":"@ + decimal(s.unparsed_lines as nat) + ",\"trace\":"@ + decimal(s.trace as nat) + ",\"debug\":"@ + decimal(s.debug as nat) + ",\"info\":"@ + decimal(s.info as nat) + ",\"warn\":"@ + decimal(s.warn as nat) + ",\"error\":"@ + decimal(s.error as nat) + ",\"first_timestamp\":"@ + json_opt_str(s.first_timestamp) + ",\"last_timestamp\":"@, json_opt_str(s.last_timestamp), ",\"first_timestamp\":"@ + json_opt_str(s.first_timestamp) + ","@);
    lemma_contains_extend("{\"total_lines\":"@ + decimal(s.total_lines as nat) + ",\"unparsed_lines\":"@ + decimal(s.unparsed_lines as nat) + ",\"trace\":"@ + decimal(s.trace as nat) + ",\"debug\":"@ + decimal(s.debug as nat) + ",\"info\":"@ + decimal(s.info as nat) + ",\"warn\":"@ + decimal(s.warn as nat) + ",\"error\":"@ + decimal(s.error as nat) + ",\"first_timestamp\":"@ + json_opt_str(s.first_timestamp) + ",\"last_timestamp\":"@ + json_opt_str(s.last_timestamp), m, ",\"first_timestamp\":"@ + json_opt_str(s.first_timestamp) + ","@);
    lemma_contains_extend("{\"total_lines\":"@ + decimal(s.total_lines as nat) + ",\"unparsed_lines\":"@ + decimal(s.unparsed_lines as nat) + ",\"trace\":"@ + decimal(s.trace as nat) + ",\"debug\":"@ + decimal(s.debug as nat) + ",\"info\":"@ + decimal(s.info as nat) + ",\"warn\":"@ + decimal(s.warn as nat) + ",\"error\":"@ + decimal(s.error as nat) + ",\"first_timestamp\":"@ + json_opt_str(s.first_timestamp) + ",\"last_timestamp\":"@ + json_opt_str(s.last_timestamp) + m, "}"@, ",\"first_timestamp\":"@ + json_opt_str(s.first_timestamp) + ","@);
}

proof fn lemma_summary_json_last_timestamp(s: SummaryView, lines: Option<LevelLinesView>)
    ensures
        contains_text(summary_json(s, lines), ",\"last_timestamp\":"@ + json_opt_str(s.last_timestamp)),
{
    let m = lines_field(lines);
    let t = summary_json(s, lines);
    assert(t == "{\"total_lines\":"@ + decimal(s.total_lines as nat) + ",\"unparsed_lines\":"@ + decimal(s.unparsed_lines as nat) + ",\"trace\":"@ + decimal(s.trace as nat) + ",\"debug\":"@ + decimal(s.debug as nat) + ",\"info\":"@ + decimal(s.info as nat) + ",\"warn\":"@ + decimal(s.warn as nat) + ",\"error\":"@ + decimal(s.error as nat) + ",\"first_timestamp\":"@ + json_opt_str(s.first_timestamp) + ",\"last_timestamp\":"@ + json_opt_str(s.last_timestamp) + m + "}"@);
    lemma_field_last("{\"total_lines\":"@ + decimal(s.total_lines as nat) + ",\"unparsed_lines\":"@ + decimal(s.unparsed_lines as nat) + ",\"trace\":"@ + decimal(s.trace as nat) + ",\"debug\":"@ + decimal(s.debug as nat) + ",\"info\":"@ + decimal(s.info as nat) + ",\"warn\":"@ + decimal(s.warn as nat) + ",\"error\":"@ + decimal(s.error as nat) + ",\"first_timestamp\":"@ + json_opt_str(s.first_timestamp), ",\"last_timestamp\":"@, json_opt_str(s.last_timestamp));
    lemma_contains_extend("{\"total_lines\":"@ + decimal(s.total_lines as nat) + ",\"unparsed_lines\":"@ + decimal(s.unparsed_lines as nat) + ",\"trace\":"@ + decimal(s.trace as nat) + ",\"debug\":"@ + decimal(s.debug as nat) + ",\"info\":"@ + decimal(s.info as nat) + ",\"warn\":"@ + decimal(s.warn as nat) + ",\"error\":"@ + decimal(s.error as nat) + ",\"first_timestamp\":"@ + json_opt_str(s.first_timestamp) + ",\"last_timestamp\":"@ + json_opt_str(s.last_timestamp), m, ",\"last_timestamp\":"@ + json_opt_str(s.last_timestamp));
    lemma_contains_extend("{\"total_lines\":"@ + decimal(s.total_lines as nat) + ",\"unparsed_lines\":"@ + decimal(s.unparsed_lines as nat) + ",\"trace\":"@ + decimal(s.trace as nat) + ",\"debug\":"@ + decimal(s.debug as nat) + ",\"info\":"@ + decimal(s.info as nat) + ",\"warn\":"@ + decimal(s.warn as nat) + ",\"error\":"@ + decimal(s.error as nat) + ",\"first_timestamp\":"@ + json_opt_str(s.first_timestamp) + ",\"last_timestamp\":"@ + json_opt_str(s.last_timestamp) + m, "}"@, ",\"last_timestamp\":"@ + json_opt_str(s.last_timestamp));
}

/// Each field of a summary appears in its JSON rendering right after its
/// own key and before the next comma, so reading the object field by field
/// gives the summary's counts and span back.
pub proof fn lemma_summary_json_fields(s: SummaryView, lines: Option<LevelLinesView>)
    ensures
        contains_text(summary_json(s, lines), "{\"total_lines\":"@ + decimal(s.total_lines as nat) + ","@),
        contains_text(summary_json(s, lines), ",\"unparsed_lines\":"@ + decimal(s.unparsed_lines as nat) + ","@),
        contains_text(summary_json(s, lines), ",\"trace\":"@ + decimal(s.trace as nat) + ","@),
        contains_text(summary_json(s, lines), ",\"debug\":"@ + decimal(s.debug as nat) + ","@),
        contains_text(summary_json(s, lines), ",\"info\":"@ + decimal(s.info as nat) + ","@),
        contains_text(summary_json(s, lines), ",\"warn\":"@ + decimal(s.warn as nat) + ","@),
        contains_text(summary_json(s, lines), ",\"error\":"@ + decimal(s.error as nat) + ","@),
        contains_text(summary_json(s, lines), ",\"first_timestamp\":"@ + json_opt_str(s.first_timestamp) + ","@),
        contains_text(summary_json(s, lines), ",\"last_timestamp\":"@ + json_opt_str(s.last_timestamp)),
{
    lemma_summary_json_total_lines(s, lines);
    lemma_summary_json_unparsed_lines(s, lines);
    lemma_summary_json_trace(s, lines);
    lemma_summary_json_debug(s, lines);
    lemma_summary_json_info(s, lines);
    lemma_summary_json_warn(s, lines);
    lemma_summary_json_error(s, lines);
    lemma_summary_json_first_timestamp(s, lines);
    lemma_summary_json_last_timestamp(s, lines);
}

proof fn lemma_field_then(pre: Seq<char>, key: Seq<char>, v: Seq<char>, next: Seq<char>, c: char)
    requires
        next.len() > 0,
        next[0] == c,
    ensures
        contains_text(pre + key + v + next, key + v + seq![c]),
{
    assert(pre + key + v + next =~= pre + (key + v + seq![c]) + next.skip(1));
    lemma_contains_middle(pre, key + v + seq![c], next.skip(1));
}

proof fn lemma_entry_json_field_0(e: EntryView)
    ensures
        contains_text(entry_json(e), "{\"timestamp\":"@ + json_str(e.timestamp) + seq![',']),
{
    let t = entry_json(e);
    assert(t == "{\"timestamp\":"@ + json_str(e.timestamp) + ",\"level\":\""@ + level_name(e.level) + "\",\"message\":"@ + json_str(e.message) + "}"@);
    reveal_strlit(",\"level\":\"");
    lemma_field_then(Seq::<char>::empty(), "{\"timestamp\":"@, json_str(e.timestamp), ",\"level\":\""@, ',');
    assert(Seq::<char>::empty() + "{\"timestamp\":"@ + json_str(e.timestamp) + ",\"level\":\""@ =~= "{\"timestamp\":"@ + json_str(e.timestamp) + ",\"level\":\""@);
    lemma_contains_extend("{\"timestamp\":"@ + json_str(e.timestamp) + ",\"level\":\""@, level_name(e.level), "{\"timestamp\":"@ + json_str(e.timestamp) + seq![',']);
    lemma_contains_extend("{\"timestamp\":"@ + json_str(e.timestamp) + ",\"level\":\""@ + level_name(e.level), "\",\"message\":"@, "{\"timestamp\":"@ + json_str(e.timestamp) + seq![',']);
    lemma_contains_extend("{\"timestamp\":"@ + json_str(e.timestamp) + ",\"level\":\""@ + level_name(e.level) + "\",\"message\":"@, json_str(e.message), "{\"timestamp\":"@ + json_str(e.timestamp) + seq![',']);
    lemma_contains_extend("{\"timestamp\":"@ + json_str(e.timestamp) + ",\"level\":\""@ + level_name(e.level) + "\",\"message\":"@ + json_str(e.message), "}"@, "{\"timestamp\":"@ + json_str(e.timestamp) + seq![',']);
}

proof fn lemma_entry_json_field_1(e: EntryView)
    ensures
        contains_text(entry_json(e), ",\"level\":\""@ + level_name(e.level) + seq!['"']),
{
    let t = entry_json(e);
    assert(t == "{\"timestamp\":"@ + json_str(e.timestamp) + ",\"level\":\""@ + level_name(e.level) + "\",\"message\":"@ + json_str(e.message) + "}"@);
    reveal_strlit("\",\"message\":");
    lemma_field_then("{\"timestamp\":"@ + json_str(e.timestamp), ",\"level\":\""@, level_name(e.level), "\",\"message\":"@, '"');
    lemma_contains_extend("{\"timestamp\":"@ + json_str(e.timestamp) + ",\"level\":\""@ + level_name(e.level) + "\",\"message\":"@, json_str(e.message), ",\"level\":\""@ + level_name(e.level) + seq!['"']);
    lemma_contains_extend("{\"timestamp\":"@ + json_str(e.timestamp) + ",\"level\":\""@ + level_name(e.level) + "\",\"message\":"@ + json_str(e.message), "}"@, ",\"level\":\""@ + level_name(e.level) + seq!['"']);
}

proof fn lemma_entry_json_field_2(e: EntryView)
    ensures
        contains_text(entry_json(e), "\",\"message\":"@ + json_str(e.message) + seq!['}']),
{
    let t = entry_json(e);
    assert(t == "{\"timestamp\":"@ + json_str(e.timestamp) + ",\"level\":\""@ + level_name(e.level) + "\",\"message\":"@ + json_str(e.message) + "}"@);
    reveal_strlit("}");
    lemma_field_then("{\"timestamp\":"@ + json_str(e.timestamp) + ",\"level\":\""@ + level_name(e.level), "\",\"message\":"@, json_str(e.message), "}"@, '}');
}

/// Each field of an entry appears in its JSON rendering right after its
/// own key: the timestamp, the level name and the message, in that order
/// of keys.
pub proof fn lemma_entry_json_fields(e: EntryView)
    ensures
        contains_text(entry_json(e), "{\"timestamp\":"@ + json_str(e.timestamp) + seq![',']),
        contains_text(entry_json(e), ",\"level\":\""@ + level_name(e.level) + seq!['"']),
        contains_text(entry_json(e), "\",\"message\":"@ + json_str(e.message) + seq!['}']),
{
    lemma_entry_json_field_0(e);
    lemma_entry_json_field_1(e);
    lemma_entry_json_field_2(e);
}

proof fn lemma_level_lines_json_field_0(v: LevelLinesView)
    ensures
        contains_text(level_lines_json(v), "{\"trace\":"@ + entry_array(v.trace) + seq![',']),
{
    let t = level_lines_json(v);
    assert(t == "{\"trace\":"@ + entry_array(v.trace) + ",\"debug\":"@ + entry_array(v.debug) + ",\"info\":"@ + entry_array(v.info) + ",\"warn\":"@ + entry_array(v.warn) + ",\"error\":"@ + entry_array(v.error) + "}"@);
    reveal_strlit(",\"debug\":");
    lemma_field_then(Seq::<char>::empty(), "{\"trace\":"@, entry_array(v.trace), ",\"debug\":"@, ',');
    assert(Seq::<char>::empty() + "{\"trace\":"@ + entry_array(v.trace) + ",\"debug\":"@ =~= "{\"trace\":"@ + entry_array(v.trace) + ",\"debug\":"@);
    lemma_contains_extend("{\"trace\":"@ + entry_array(v.trace) + ",\"debug\":"@, entry_array(v.debug), "{\"trace\":"@ + entry_array(v.trace) + seq![',']);
    lemma_contains_extend("{\"trace\":"@ + entry_array(v.trace) + ",\"debug\":"@ + entry_array(v.debug), ",\"info\":"@, "{\"trace\":"@ + entry_array(v.trace) + seq![',']);
    lemma_contains_extend("{\"trace\":"@ + entry_array(v.trace) + ",\"debug\":"@ + entry_array(v.debug) + ",\"info\":"@, entry_array(v.info), "{\"trace\":"@ + entry_array(v.trace) + seq![',']);
    lemma_contains_extend("{\"trace\":"@ + entry_array(v.trace) + ",\"debug\":"@ + entry_array(v.debug) + ",\"info\":"@ + entry_array(v.info), ",\"warn\":"@, "{\"trace\":"@ + entry_array(v.trace) + seq![',']);
    lemma_contains_extend("{\"trace\":"@ + entry_array(v.trace) + ",\"debug\":"@ + entry_array(v.debug) + ",\"info\":"@ + entry_array(v.info) + ",\"warn\":"@, entry_array(v.warn), "{\"trace\":"@ + entry_array(v.trace) + seq![',']);
    lemma_contains_extend("{\"trace\":"@ + entry_array(v.trace) + ",\"debug\":"@ + entry_array(v.debug) + ",\"info\":"@ + entry_array(v.info) + ",\"warn\":"@ + entry_array(v.warn), ",\"error\":"@, "{\"trace\":"@ + entry_array(v.trace) + seq![',']);
    lemma_contains_extend("{\"trace\":"@ + entry_array(v.trace) + ",\"debug\":"@ + entry_array(v.debug) + ",\"info\":"@ + entry_array(v.info) + ",\"warn\":"@ + entry_array(v.warn) + ",\"error\":"@, entry_array(v.error), "{\"trace\":"@ + entry_array(v.trace) + seq![',']);
    lemma_contains_extend("{\"trace\":"@ + entry_array(v.trace) + ",\"debug\":"@ + entry_array(v.debug) + ",\"info\":"@ + entry_array(v.info) + ",\"warn\":"@ + entry_array(v.warn) + ",\"error\":"@ + entry_array(v.error), "}"@, "{\"trace\":"@ + entry_array(v.trace) + seq![',']);
}

proof fn lemma_level_lines_json_field_1(v: LevelLinesView)
    ensures
        contains_text(level_lines_json(v), ",\"debug\":"@ + entry_array(v.debug) + seq![',']),
{
    let t = level_lines_json(v);
    assert(t == "{\"trace\":"@ + entry_array(v.trace) + ",\"debug\":"@ + entry_array(v.debug) + ",\"info\":"@ + entry_array(v.info) + ",\"warn\":"@ + entry_array(v.warn) + ",\"error\":"@ + entry_array(v.error) + "}"@);
    reveal_strlit(",\"info\":");
    lemma_field_then("{\"trace\":"@ + entry_array(v.trace), ",\"debug\":"@, entry_array(v.debug), ",\"info\":"@, ',');
    lemma_contains_extend("{\"trace\":"@ + entry_array(v.trace) + ",\"debug\":"@ + entry_array(v.debug) + ",\"info\":"@, entry_array(v.info), ",\"debug\":"@ + entry_array(v.debug) + seq![',']);
    lemma_contains_extend("{\"trace\":"@ + entry_array(v.trace) + ",\"debug\":"@ + entry_array(v.debug) + ",\"info\":"@ + entry_array(v.info), ",\"warn\":"@, ",\"debug\":"@ + entry_array(v.debug) + seq![',']);
    lemma_contains_extend("{\"trace\":"@ + entry_array(v.trace) + ",\"debug\":"@ + entry_array(v.debug) + ",\"info\":"@ + entry_array(v.info) + ",\"warn\":"@, entry_array(v.warn), ",\"debug\":"@ + entry_array(v.debug) + seq![',']);
    lemma_contains_extend("{\"trace\":"@ + entry_array(v.trace) + ",\"debug\":"@ + entry_array(v.debug) + ",\"info\":"@ + entry_array(v.info) + ",\"warn\":"@ + entry_array(v.warn), ",\"error\":"@, ",\"debug\":"@ + entry_array(v.debug) + seq![',']);
    lemma_contains_extend("{\"trace\":"@ + entry_array(v.trace) + ",\"debug\":"@ + entry_array(v.debug) + ",\"info\":"@ + entry_array(v.info) + ",\"warn\":"@ + entry_array(v.warn) + ",\"error\":"@, entry_array(v.error), ",\"debug\":"@ + entry_array(v.debug) + seq![',']);
    lemma_contains_extend("{\"trace\":"@ + entry_array(v.trace) + ",\"debug\":"@ + entry_array(v.debug) + ",\"info\":"@ + entry_array(v.info) + ",\"warn\":"@ + entry_array(v.warn) + ",\"error\":"@ + entry_array(v.error), "}"@, ",\"debug\":"@ + entry_array(v.debug) + seq![',']);
}

proof fn lemma_level_lines_json_field_2(v: LevelLinesView)
    ensures
        contains_text(level_lines_json(v), ",\"info\":"@ + entry_array(v.info) + seq![',']),
{
    let t = level_lines_json(v);
    assert(t == "{\"trace\":"@ + entry_array(v.trace) + ",\"debug\":"@ + entry_array(v.debug) + ",\"info\":"@ + entry_array(v.info) + ",\"warn\":"@ + entry_array(v.warn) + ",\"error\":"@ + entry_array(v.error) + "}"@);
    reveal_strlit(",\"warn\":");
    lemma_field_then("{\"trace\":"@ + entry_array(v.trace) + ",\"debug\":"@ + entry_array(v.debug), ",\"info\":"@, entry_array(v.info), ",\"warn\":"@, ',');
    lemma_contains_extend("{\"trace\":"@ + entry_array(v.trace) + ",\"debug\":"@ + entry_array(v.debug) + ",\"info\":"@ + entry_array(v.info) + ",\"warn\":"@, entry_array(v.warn), ",\"info\":"@ + entry_array(v.info) + seq![',']);
    lemma_contains_extend("{\"trace\":"@ + entry_array(v.trace) + ",\"debug\":"@ + entry_array(v.debug) + ",\"info\":"@ + entry_array(v.info) + ",\"warn\":"@ + entry_array(v.warn), ",\"error\":"@, ",\"info\":"@ + entry_array(v.info) + seq![',']);
    lemma_contains_extend("{\"trace\":"@ + entry_array(v.trace) + ",\"debug\":"@ + entry_array(v.debug) + ",\"info\":"@ + entry_array(v.info) + ",\"warn\":"@ + entry_array(v.warn) + ",\"error\":"@, entry_array(v.error), ",\"info\":"@ + entry_array(v.info) + seq![',']);
    lemma_contains_extend("{\"trace\":"@ + entry_array(v.trace) + ",\"debug\":"@ + entry_array(v.debug) + ",\"info\":"@ + entry_array(v.info) + ",\"warn\":"@ + entry_array(v.warn) + ",\"error\":"@ + entry_array(v.error), "}"@, ",\"info\":"@ + entry_array(v.info) + seq![',']);
}

proof fn lemma_level_lines_json_field_3(v: LevelLinesView)
    ensures
        contains_text(level_lines_json(v), ",\"warn\":"@ + entry_array(v.warn) + seq![',']),
{
    let t = level_lines_json(v);
    assert(t == "{\"trace\":"@ + entry_array(v.trace) + ",\"debug\":"@ + entry_array(v.debug) + ",\"info\":"@ + entry_array(v.info) + ",\"warn\":"@ + entry_array(v.warn) + ",\"error\":"@ + entry_array(v.error) + "}"@);
    reveal_strlit(",\"error\":");
    lemma_field_then("{\"trace\":"@ + entry_array(v.trace) + ",\"debug\":"@ + entry_array(v.debug) + ",\"info\":"@ + entry_array(v.info), ",\"warn\":"@, entry_array(v.warn), ",\"error\":"@, ',');
    lemma_contains_extend("{\"trace\":"@ + entry_array(v.trace) + ",\"debug\":"@ + entry_array(v.debug) + ",\"info\":"@ + entry_array(v.info) + ",\"warn\":"@ + entry_array(v.warn) + ",\"error\":"@, entry_array(v.error), ",\"warn\":"@ + entry_array(v.warn) + seq![',']);
    lemma_contains_extend("{\"trace\":"@ + entry_array(v.trace) + ",\"debug\":"@ + entry_array(v.debug) + ",\"info\":"@ + entry_array(v.info) + ",\"warn\":"@ + entry_array(v.warn) + ",\"error\":"@ + entry_array(v.error), "}"@, ",\"warn\":"@ + entry_array(v.warn) + seq![',']);
}

proof fn lemma_level_lines_json_field_4(v: LevelLinesView)
    ensures
        contains_text(level_lines_json(v), ",\"error\":"@ + entry_array(v.error) + seq!['}']),
{
    let t = level_lines_json(v);
    assert(t == "{\"trace\":"@ + entry_array(v.trace) + ",\"debug\":"@ + entry_array(v.debug) + ",\"info\":"@ + entry_array(v.info) + ",\"warn\":"@ + entry_array(v.warn) + ",\"error\":"@ + entry_array(v.error) + "}"@);
    reveal_strlit("}");
    lemma_field_then("{\"trace\":"@ + entry_array(v.trace) + ",\"debug\":"@ + entry_array(v.debug) + ",\"info\":"@ + entry_array(v.info) + ",\"warn\":"@ + entry_array(v.warn), ",\"error\":"@, entry_array(v.error), "}"@, '}');
}

/// Each level's entries appear in the grouped JSON under that level's own
/// key.
pub proof fn lemma_level_lines_json_fields(v: LevelLinesView)
    ensures
        contains_text(level_lines_json(v), "{\"trace\":"@ + entry_array(v.trace) + seq![',']),
        contains_text(level_lines_json(v), ",\"debug\":"@ + entry_array(v.debug) + seq![',']),
        contains_text(level_lines_json(v), ",\"info\":"@ + entry_array(v.info) + seq![',']),
        contains_text(level_lines_json(v), ",\"warn\":"@ + entry_array(v.warn) + seq![',']),
        contains_text(level_lines_json(v), ",\"error\":"@ + entry_array(v.error) + seq!['}']),
{
    lemma_level_lines_json_field_0(v);
    lemma_level_lines_json_field_1(v);
    lemma_level_lines_json_field_2(v);
    lemma_level_lines_json_field_3(v);
    lemma_level_lines_json_field_4(v);
}

} // verus!
