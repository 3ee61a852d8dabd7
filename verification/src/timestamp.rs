//! Converts recognized timestamp shapes into a value that orders the same
//! way the timestamps do chronologically, so time-range filters can compare
//! by time instead of by text. Formats this doesn't recognize still work for
//! filtering, they just fall back to comparing the raw text.
use std::cmp::Ordering;
use vstd::prelude::*;
use vstd::string::StringSliceAdditionalSpecFns;

mod civil;
mod digits;
mod laws;
mod parse;

pub use self::civil::{
    civil_seconds, days_before_month, days_before_year, days_from_civil_spec, days_in_year, is_leap,
    lemma_civil_seconds_order, lemma_days_count_up, lemma_days_strictly_increasing, lemma_year_length, month_len, valid_date,
};
pub use self::digits::{all_digits, digits_value, parse_signed, parse_unsigned, pow10};
pub use self::laws::{
    digit_byte, digit_bytes, four_digit_bytes, lemma_epoch_and_utc_tokens_agree,
    lemma_epoch_seconds_token, lemma_fraction_adds_nanos, lemma_fraction_digits, lemma_offset_shifts_instant,
    lemma_utc_token_denotes_civil_instant, offset_sign, rfc3339_text, two_digit_bytes,
};
pub use self::parse::{
    epoch_nanos, fraction_and_zone, opt_i128, padded_nanos, rfc3339_nanos, to_epoch_nanos,
    unix_epoch_nanos, zone_offset,
};

verus! {

/// Lexicographic order of two byte strings (the order of `str::cmp`).
pub open spec fn byte_order(a: Seq<u8>, b: Seq<u8>) -> Ordering
    decreases a.len(),
{
    if a.len() == 0 {
        if b.len() == 0 { Ordering::Equal } else { Ordering::Less }
    } else if b.len() == 0 {
        Ordering::Greater
    } else if a[0] < b[0] {
        Ordering::Less
    } else if a[0] > b[0] {
        Ordering::Greater
    } else {
        byte_order(a.skip(1), b.skip(1))
    }
}

pub open spec fn int_order(x: int, y: int) -> Ordering {
    if x < y {
        Ordering::Less
    } else if x == y {
        Ordering::Equal
    } else {
        Ordering::Greater
    }
}

/// Chronological order when both tokens are recognized timestamps, byte
/// order of the raw text otherwise.
pub open spec fn timestamp_order(a: Seq<u8>, b: Seq<u8>) -> Ordering {
    match (epoch_nanos(a), epoch_nanos(b)) {
        (Some(x), Some(y)) => int_order(x, y),
        _ => byte_order(a, b),
    }
}

pub open spec fn flipped(o: Ordering) -> Ordering {
    match o {
        Ordering::Less => Ordering::Greater,
        Ordering::Equal => Ordering::Equal,
        Ordering::Greater => Ordering::Less,
    }
}

fn byte_compare(a: &[u8], b: &[u8]) -> (r: Ordering)
    ensures
        r == byte_order(a@, b@),
{
    let mut i: usize = 0;
    let ghost mut k: int = 0;
    assert(a@.skip(0) =~= a@ && b@.skip(0) =~= b@);
    while i < a.len() && i < b.len() && a[i] == b[i]
        invariant
            k == i,
            i <= a@.len(),
            i <= b@.len(),
            byte_order(a@, b@) == byte_order(a@.skip(k), b@.skip(k)),
        decreases a@.len() - i,
    {
        assert(a@.skip(k).skip(1) =~= a@.skip(k + 1));
        assert(b@.skip(k).skip(1) =~= b@.skip(k + 1));
        i = i + 1;
        proof {
            k = k + 1;
        }
    }
    if i == a.len() {
        if i == b.len() { Ordering::Equal } else { Ordering::Less }
    } else if i == b.len() {
        Ordering::Greater
    } else if a[i] < b[i] {
        Ordering::Less
    } else {
        Ordering::Greater
    }
}

/// Compare two raw timestamp tokens chronologically when both are in a
/// recognized format, falling back to a plain string comparison otherwise.
/// The fallback keeps formats like `2026-08-21T10:15:03Z` that happen to
/// sort correctly as text working, along with any format not recognized
/// here.
pub fn compare(a: &str, b: &str) -> (r: Ordering)
    ensures
        r == timestamp_order(a.spec_bytes(), b.spec_bytes()),
{
    let na = to_epoch_nanos(a);
    let nb = to_epoch_nanos(b);
    match (na, nb) {
        (Some(x), Some(y)) => {
            if x < y {
                Ordering::Less
            } else if x == y {
                Ordering::Equal
            } else {
                Ordering::Greater
            }
        },
        _ => byte_compare(a.as_bytes(), b.as_bytes()),
    }
}

proof fn lemma_byte_order_flip(a: Seq<u8>, b: Seq<u8>)
    ensures
        byte_order(a, b) == flipped(byte_order(b, a)),
    decreases a.len(),
{
    if a.len() > 0 && b.len() > 0 && a[0] == b[0] {
        lemma_byte_order_flip(a.skip(1), b.skip(1));
    }
}

proof fn lemma_byte_order_refl(a: Seq<u8>)
    ensures
        byte_order(a, a) == Ordering::Equal,
    decreases a.len(),
{
    if a.len() > 0 {
        lemma_byte_order_refl(a.skip(1));
    }
}

/// Swapping the two tokens reverses their order.
pub proof fn lemma_compare_antisymmetric(a: Seq<u8>, b: Seq<u8>)
    ensures
        timestamp_order(a, b) == flipped(timestamp_order(b, a)),
{
    lemma_byte_order_flip(a, b);
}

/// Every token compares equal to itself.
pub proof fn lemma_compare_reflexive(a: Seq<u8>)
    ensures
        timestamp_order(a, a) == Ordering::Equal,
{
    lemma_byte_order_refl(a);
}

/// Byte order is lexicographic: a proper prefix comes first, and
/// otherwise the first differing byte decides.
pub proof fn lemma_byte_order_lexicographic(p: Seq<u8>, a: Seq<u8>, b: Seq<u8>)
    ensures
        a.len() == 0 && b.len() > 0 ==> byte_order(p + a, p + b) == Ordering::Less,
        a.len() > 0 && b.len() > 0 && a[0] < b[0] ==> byte_order(p + a, p + b) == Ordering::Less,
    decreases p.len(),
{
    if p.len() == 0 {
        assert(p + a =~= a);
        assert(p + b =~= b);
    } else {
        assert((p + a).skip(1) =~= p.skip(1) + a);
        assert((p + b).skip(1) =~= p.skip(1) + b);
        lemma_byte_order_lexicographic(p.skip(1), a, b);
    }
}

/// Of two UTC tokens written out from valid civil dates and times (seconds
/// below 60), the one naming the earlier moment compares as `Less`.
pub proof fn lemma_utc_tokens_compare_chronologically(
    y1: int, m1: int, d1: int, h1: int, mi1: int, s1: int,
    y2: int, m2: int, d2: int, h2: int, mi2: int, s2: int,
)
    requires
        0 <= y1 <= 9999 && 0 <= y2 <= 9999,
        valid_date(y1, m1, d1),
        valid_date(y2, m2, d2),
        0 <= h1 < 24 && 0 <= mi1 < 60 && 0 <= s1 < 60,
        0 <= h2 < 24 && 0 <= mi2 < 60 && 0 <= s2 < 60,
        (y1, m1, d1) != (y2, m2, d2) ==> (y1 < y2 || (y1 == y2 && m1 < m2) || (y1 == y2 && m1 == m2 && d1 < d2)),
        (y1, m1, d1) == (y2, m2, d2) ==> (h1 < h2 || (h1 == h2 && mi1 < mi2) || (h1 == h2 && mi1 == mi2 && s1 < s2)),
    ensures
        timestamp_order(
            rfc3339_text(y1, m1, d1, h1, mi1, s1) + seq![90u8],
            rfc3339_text(y2, m2, d2, h2, mi2, s2) + seq![90u8],
        ) == Ordering::Less,
{
    lemma_utc_token_denotes_civil_instant(y1, m1, d1, h1, mi1, s1);
    lemma_utc_token_denotes_civil_instant(y2, m2, d2, h2, mi2, s2);
    lemma_civil_seconds_order(y1, m1, d1, h1, mi1, s1, y2, m2, d2, h2, mi2, s2);
}

/// An epoch-seconds token and the UTC token for the same moment compare
/// as `Equal`.
pub proof fn lemma_epoch_and_utc_tokens_compare_equal(y: int, m: int, d: int, h: int, mi: int, sec: int)
    requires
        0 <= y <= 9999,
        1 <= m <= 12,
        1 <= d <= 31,
        0 <= h <= 23,
        0 <= mi <= 59,
        0 <= sec <= 60,
        0 <= civil_seconds(y, m, d, h, mi, sec) < 10_000_000_000,
    ensures
        timestamp_order(
            digit_bytes(civil_seconds(y, m, d, h, mi, sec), 10),
            rfc3339_text(y, m, d, h, mi, sec) + seq![90u8],
        ) == Ordering::Equal,
{
    lemma_epoch_and_utc_tokens_agree(y, m, d, h, mi, sec);
    lemma_utc_token_denotes_civil_instant(y, m, d, h, mi, sec);
}

} // verus!
