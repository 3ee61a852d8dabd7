//! The level, timestamp-range and message filters applied to parsed
//! entries.
use std::cmp::Ordering;
use vstd::prelude::*;
use vstd::string::StringSliceAdditionalSpecFns;
use vstd::utf8::encode_utf8;
use crate::entry::{Entry, EntryView};
use crate::level::{rank, Level};
use crate::text::{contains, contains_text};
use crate::timestamp::{compare, epoch_nanos, timestamp_order};

verus! {

/// The filters as plain values; range bounds are the bounds' bytes.
pub struct FilterView {
    pub min_level: Option<Level>,
    pub level: Option<Level>,
    pub since: Option<Seq<u8>>,
    pub until: Option<Seq<u8>>,
    pub message_contains: Option<Seq<char>>,
}

pub open spec fn bound_bytes(b: Option<&str>) -> Option<Seq<u8>> {
    match b {
        Some(s) => Some(s.spec_bytes()),
        None => None,
    }
}

pub open spec fn text_view(t: Option<&str>) -> Option<Seq<char>> {
    match t {
        Some(s) => Some(s@),
        None => None,
    }
}

/// All four kinds of filter.
pub open spec fn filters_of(
    min_level: Option<Level>,
    level: Option<Level>,
    since: Option<&str>,
    until: Option<&str>,
    message_contains: Option<&str>,
) -> FilterView {
    FilterView {
        min_level,
        level,
        since: bound_bytes(since),
        until: bound_bytes(until),
        message_contains: text_view(message_contains),
    }
}

/// The level and time-range filters, with no message filter.
pub open spec fn filter_view(
    min_level: Option<Level>,
    level: Option<Level>,
    since: Option<&str>,
    until: Option<&str>,
) -> FilterView {
    filters_of(min_level, level, since, until, None)
}

/// No filter set.
pub open spec fn no_filters() -> FilterView {
    FilterView { min_level: None, level: None, since: None, until: None, message_contains: None }
}

/// Whether an entry is kept: at or above `min_level`, exactly `level`,
/// inside the inclusive `[since, until]` range, and with a message holding
/// the `message_contains` text, each only when it is set.
pub open spec fn passes(e: EntryView, f: FilterView) -> bool {
    &&& (f.message_contains matches Some(t) ==> contains_text(e.message, t))
    &&& (f.min_level matches Some(m) ==> rank(e.level) >= rank(m))
    &&& (f.level matches Some(x) ==> e.level == x)
    &&& (f.since matches Some(s) ==> timestamp_order(encode_utf8(e.timestamp), s) != Ordering::Less)
    &&& (f.until matches Some(u) ==> timestamp_order(encode_utf8(e.timestamp), u) != Ordering::Greater)
}

/// Check whether a parsed entry should be kept under the given level and
/// timestamp-range filters. Shared between the one-shot summary path and
/// the follow mode, so the two never disagree about what counts as "in
/// range".
///
/// `min_level` and `level` are independent: `min_level` is a threshold
/// (this level or above), `level` is an exact match. Passing both is legal:
/// the entry has to satisfy each one that's set.
pub fn passes_filters(
    entry: &Entry,
    min_level: Option<Level>,
    level: Option<Level>,
    since: Option<&str>,
    until: Option<&str>,
) -> (r: bool)
    ensures
        r == passes(entry@, filter_view(min_level, level, since, until)),
{
    passes_filters_and_message(entry, min_level, level, since, until, None)
}

/// `passes_filters` with a message filter as well: when `message_contains`
/// is set, the entry's message has to hold that text.
pub fn passes_filters_and_message(
    entry: &Entry,
    min_level: Option<Level>,
    level: Option<Level>,
    since: Option<&str>,
    until: Option<&str>,
    message_contains: Option<&str>,
) -> (r: bool)
    ensures
        r == passes(entry@, filters_of(min_level, level, since, until, message_contains)),
{
    let message_ok = match message_contains {
        Some(t) => contains(entry.message.as_str(), t),
        None => true,
    };
    let min_level_ok = match min_level {
        Some(min) => entry.level.rank() >= min.rank(),
        None => true,
    };
    let level_ok = match level {
        Some(exact) => entry.level == exact,
        None => true,
    };
    let since_ok = match since {
        Some(s) => match compare(entry.timestamp.as_str(), s) {
            Ordering::Less => false,
            _ => true,
        },
        None => true,
    };
    let until_ok = match until {
        Some(u) => match compare(entry.timestamp.as_str(), u) {
            Ordering::Greater => false,
            _ => true,
        },
        None => true,
    };
    message_ok && min_level_ok && level_ok && since_ok && until_ok
}

/// Range bounds are inclusive: an entry whose timestamp is exactly the
/// `since` and `until` bound is kept.
pub proof fn lemma_bounds_inclusive(e: EntryView)
    ensures
        passes(
            e,
            FilterView {
                min_level: None,
                level: None,
                since: Some(encode_utf8(e.timestamp)),
                until: Some(encode_utf8(e.timestamp)),
                message_contains: None,
            },
        ),
{
    crate::timestamp::lemma_compare_reflexive(encode_utf8(e.timestamp));
}

/// The time range compares instants: with only `since` and `until` set,
/// all three timestamps recognized, an entry is kept exactly when its
/// instant lies between the bounds' instants, both ends included.
pub proof fn lemma_range_keeps_by_instant(e: EntryView, since: Seq<u8>, until: Seq<u8>)
    requires
        epoch_nanos(encode_utf8(e.timestamp)) is Some,
        epoch_nanos(since) is Some,
        epoch_nanos(until) is Some,
    ensures
        passes(
            e,
            FilterView {
                min_level: None,
                level: None,
                since: Some(since),
                until: Some(until),
                message_contains: None,
            },
        ) <==> epoch_nanos(since)->0 <= epoch_nanos(encode_utf8(e.timestamp))->0 <= epoch_nanos(until)->0,
{
}

/// The message filter keeps exactly the entries whose message holds the
/// text.
pub proof fn lemma_message_filter(e: EntryView, text: Seq<char>)
    ensures
        passes(
            e,
            FilterView { min_level: None, level: None, since: None, until: None, message_contains: Some(text) },
        ) <==> contains_text(e.message, text),
{
}

} // verus!
