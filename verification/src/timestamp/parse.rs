//! Reading timestamp tokens as nanoseconds since the Unix epoch (UTC).
use vstd::prelude::*;
use vstd::string::StringSliceAdditionalSpecFns;
use super::civil::{civil_seconds, days_from_civil, lemma_days_range};
use super::digits::{
    all_digits, all_digits_at, digits_at, digits_value, is_digit, lemma_pow10_monotone,
    lemma_pow10_values, parse_signed, parse_unsigned, parse_signed_at, parse_unsigned_at, pow10,
    opt_int,
};

verus! {

/// First index at or after `from` holding byte `b`, or the length.
pub open spec fn first_index_of(s: Seq<u8>, b: u8, from: int) -> int
    decreases s.len() - from,
{
    if from >= s.len() || from < 0 {
        s.len() as int
    } else if s[from] == b {
        from
    } else {
        first_index_of(s, b, from + 1)
    }
}

/// First index at or after `from` that is not a digit, or the length.
pub open spec fn digit_run_end(s: Seq<u8>, from: int) -> int
    decreases s.len() - from,
{
    if from >= s.len() || from < 0 {
        s.len() as int
    } else if !is_digit(s[from]) {
        from
    } else {
        digit_run_end(s, from + 1)
    }
}

/// Fractional-second digits left-justified to nanoseconds: digits past
/// the ninth are dropped, missing ones count as zeros.
pub open spec fn padded_nanos(f: Seq<u8>) -> int {
    if f.len() >= 9 {
        digits_value(f.take(9))
    } else {
        digits_value(f) * pow10((9 - f.len()) as nat)
    }
}

/// Bare Unix epoch seconds: 9 or 10 digits, optionally followed by `.` and
/// a non-empty run of fractional digits.
pub open spec fn unix_epoch_nanos(s: Seq<u8>) -> Option<int> {
    let dot = first_index_of(s, 46, 0);
    let int_part = s.take(dot);
    if !(9 <= int_part.len() <= 10 && all_digits(int_part)) {
        None
    } else if dot == s.len() {
        Some(digits_value(int_part) * 1_000_000_000)
    } else {
        let f = s.skip(dot + 1);
        if f.len() > 0 && all_digits(f) {
            Some(digits_value(int_part) * 1_000_000_000 + padded_nanos(f))
        } else {
            None
        }
    }
}

/// The UTC offset, in seconds, that a zone suffix denotes: `Z`/`z`, or
/// `+HH:MM` / `-HH:MM`.
pub open spec fn zone_offset(z: Seq<u8>) -> Option<int> {
    if z.len() == 1 && (z[0] == 90 || z[0] == 122) {
        Some(0)
    } else if z.len() == 6 && (z[0] == 43 || z[0] == 45) {
        let oh = parse_signed(z.subrange(1, 3));
        let om = parse_signed(z.subrange(4, 6));
        if oh is Some && z[3] == 58 && om is Some && !(oh->0 > 23 || om->0 > 59) {
            Some((if z[0] == 45 { -1int } else { 1int }) * (oh->0 * 3600 + om->0 * 60))
        } else {
            None
        }
    } else {
        None
    }
}

/// What follows the seconds field: an optional `.digits` fraction, then
/// the zone. Yields (nanoseconds, offset in seconds).
pub open spec fn fraction_and_zone(rest: Seq<u8>) -> Option<(int, int)> {
    if rest.len() > 0 && rest[0] == 46 {
        let e = digit_run_end(rest, 1);
        if e == 1 {
            None
        } else {
            match zone_offset(rest.skip(e)) {
                Some(o) => Some((padded_nanos(rest.subrange(1, e)), o)),
                None => None,
            }
        }
    } else {
        match zone_offset(rest) {
            Some(o) => Some((0int, o)),
            None => None,
        }
    }
}

/// RFC 3339: `YYYY-MM-DDTHH:MM:SS[.fff...](Z|±HH:MM)`, with `t` or a space
/// also accepted in place of `T`.
pub open spec fn rfc3339_nanos(s: Seq<u8>) -> Option<int> {
    if s.len() < 20 {
        None
    } else {
        let year = parse_signed(s.subrange(0, 4));
        let month = parse_unsigned(s.subrange(5, 7));
        let day = parse_unsigned(s.subrange(8, 10));
        let hour = parse_unsigned(s.subrange(11, 13));
        let minute = parse_unsigned(s.subrange(14, 16));
        let second = parse_unsigned(s.subrange(17, 19));
        if year is Some && month is Some && day is Some && hour is Some && minute is Some
            && second is Some && s[4] == 45 && s[7] == 45 && (s[10] == 84 || s[10] == 116
            || s[10] == 32) && s[13] == 58 && s[16] == 58 && 1 <= month->0 <= 12 && 1 <= day->0
            <= 31 && hour->0 <= 23 && minute->0 <= 59 && second->0 <= 60 {
            match fraction_and_zone(s.skip(19)) {
                Some((nanos, offset)) => Some(
                    (civil_seconds(year->0, month->0, day->0, hour->0, minute->0, second->0)
                        - offset) * 1_000_000_000 + nanos,
                ),
                None => None,
            }
        } else {
            None
        }
    }
}

/// A recognized timestamp as nanoseconds since the Unix epoch: epoch
/// seconds first, then RFC 3339.
pub open spec fn epoch_nanos(s: Seq<u8>) -> Option<int> {
    match unix_epoch_nanos(s) {
        Some(n) => Some(n),
        None => rfc3339_nanos(s),
    }
}

pub open spec fn opt_i128(o: Option<i128>) -> Option<int> {
    match o {
        Some(v) => Some(v as int),
        None => None,
    }
}

/// Left-justify the fractional digits `s[start..end]` to nanosecond
/// precision, truncating anything finer.
fn pad_nanos(s: &[u8], start: usize, end: usize) -> (r: i128)
    requires
        start <= end <= s@.len(),
        all_digits(s@.subrange(start as int, end as int)),
    ensures
        r == padded_nanos(s@.subrange(start as int, end as int)),
        0 <= r < 1_000_000_000,
{
    let ghost f = s@.subrange(start as int, end as int);
    proof {
        lemma_pow10_values();
    }
    let n = if end - start > 9 { 9 } else { end - start };
    assert(all_digits(s@.subrange(start as int, start + n))) by {
        assert forall|k: int| 0 <= k < n implies is_digit(#[trigger] s@.subrange(start as int, start + n)[k]) by {
            assert(s@.subrange(start as int, start + n)[k] == f[k]);
        }
    }
    let v = digits_at(s, start, start + n);
    assert(f.len() >= 9 ==> f.take(9) =~= s@.subrange(start as int, start + n));
    assert(f.len() < 9 ==> f =~= s@.subrange(start as int, start + n));
    let mut value: i128 = v as i128;
    let mut k = n;
    while k < 9
        invariant
            n <= k <= 9,
            value == v * pow10((k - n) as nat),
            0 <= value < pow10(k as nat),
            pow10(9) == 1000000000,
        decreases 9 - k,
    {
        proof {
            lemma_pow10_monotone((k + 1) as nat, 9);
            assert(pow10((k + 1 - n) as nat) == 10 * pow10((k - n) as nat));
            assert(pow10((k + 1) as nat) == 10 * pow10(k as nat));
            assert(v * pow10((k + 1 - n) as nat) == (v * pow10((k - n) as nat)) * 10) by (nonlinear_arith)
                requires pow10((k + 1 - n) as nat) == 10 * pow10((k - n) as nat);
        }
        value = value * 10;
        k = k + 1;
    }
    value
}

/// A run of 9 or 10 digits, optionally with a fractional part, e.g.
/// `1755767703` or `1755767703.5`. The digit-count bound keeps an 8-digit
/// `YYYYMMDD` date stamp from being read as epoch seconds; it covers Unix
/// time from 2001 through 2286.
pub fn parse_unix_epoch(input: &str) -> (r: Option<i128>)
    ensures
        opt_i128(r) == unix_epoch_nanos(input.spec_bytes()),
{
    let b = input.as_bytes();
    let ghost s = b@;
    let mut dot: usize = 0;
    while dot < b.len() && b[dot] != 46
        invariant
            0 <= dot <= s.len(),
            s == b@,
            first_index_of(s, 46, 0) == first_index_of(s, 46, dot as int),
        decreases s.len() - dot,
    {
        dot = dot + 1;
    }
    assert(first_index_of(s, 46, 0) == dot);
    if dot < 9 || dot > 10 || !all_digits_at(b, 0, dot) {
        assert(s.take(dot as int) =~= s.subrange(0, dot as int));
        return None;
    }
    assert(s.take(dot as int) =~= s.subrange(0, dot as int));
    let seconds = digits_at(b, 0, dot);
    if dot == b.len() {
        return Some(seconds as i128 * 1_000_000_000);
    }
    assert(s.skip(dot + 1) =~= s.subrange(dot + 1, s.len() as int));
    if dot + 1 < b.len() && all_digits_at(b, dot + 1, b.len()) {
        let nanos = pad_nanos(b, dot + 1, b.len());
        Some(seconds as i128 * 1_000_000_000 + nanos)
    } else {
        None
    }
}


/// The zone suffix `s[from..]` as an offset in seconds.
fn zone_offset_at(s: &[u8], from: usize) -> (r: Option<i64>)
    requires
        from <= s@.len(),
    ensures
        opt_int(r) == zone_offset(s@.skip(from as int)),
        r matches Some(o) ==> -400000 < o < 400000,
{
    let ghost z = s@.skip(from as int);
    let len = s.len() - from;
    if len == 1 && (s[from] == 90 || s[from] == 122) {
        return Some(0);
    }
    if len == 6 && (s[from] == 43 || s[from] == 45) {
        assert(z.subrange(1, 3) =~= s@.subrange(from + 1, from + 3));
        assert(z.subrange(4, 6) =~= s@.subrange(from + 4, from + 6));
        let sign: i64 = if s[from] == 45 { -1 } else { 1 };
        let oh = match parse_signed_at(s, from + 1, from + 3) {
            Some(v) => v,
            None => return None,
        };
        if s[from + 3] != 58 {
            return None;
        }
        let om = match parse_signed_at(s, from + 4, from + 6) {
            Some(v) => v,
            None => return None,
        };
        if oh > 23 || om > 59 {
            return None;
        }
        assert(-99 <= oh && -99 <= om) by {
            lemma_pow10_values();
            lemma_signed_two_digit_bound(s@.subrange(from + 1, from + 3));
            lemma_signed_two_digit_bound(s@.subrange(from + 4, from + 6));
        }
        return Some(sign * (oh * 3600 + om * 60));
    }
    None
}

proof fn lemma_signed_two_digit_bound(t: Seq<u8>)
    requires
        t.len() == 2,
        parse_signed(t) is Some,
    ensures
        -99 <= parse_signed(t)->0 <= 99,
{
    lemma_pow10_values();
    if t[0] == 45 || t[0] == 43 {
        lemma_digits_bound(t.skip(1));
    } else {
        lemma_digits_bound(t);
    }
}

proof fn lemma_digits_bound(t: Seq<u8>)
    requires
        all_digits(t),
        t.len() <= 2,
    ensures
        0 <= digits_value(t) <= 99,
{
    reveal_with_fuel(digits_value, 3);
    if t.len() == 2 {
        assert(t.drop_last().drop_last().len() == 0);
        assert(is_digit(t[0]) && is_digit(t[1]));
    } else if t.len() == 1 {
        assert(t.drop_last().len() == 0);
        assert(is_digit(t[0]));
    }
}

/// The fraction and zone that follow the seconds field, from `s[from..]`:
/// (nanoseconds, offset in seconds).
fn fraction_and_zone_at(s: &[u8], from: usize) -> (r: Option<(i128, i64)>)
    requires
        from <= s@.len(),
    ensures
        match r {
            Some((n, o)) => fraction_and_zone(s@.skip(from as int)) == Some((n as int, o as int))
                && 0 <= n < 1_000_000_000 && -400000 < o < 400000,
            None => fraction_and_zone(s@.skip(from as int)) is None,
        },
{
    let ghost rest = s@.skip(from as int);
    if from < s.len() && s[from] == 46 {
        let mut e = from + 1;
        while e < s.len() && 48 <= s[e] && s[e] <= 57
            invariant
                from + 1 <= e <= s@.len(),
                rest == s@.skip(from as int),
                digit_run_end(rest, 1) == digit_run_end(rest, e - from),
                all_digits(s@.subrange(from + 1, e as int)),
            decreases s@.len() - e,
        {
            assert(rest[e - from] == s@[e as int]);
            assert(all_digits(s@.subrange(from + 1, e + 1))) by {
                assert forall|k: int| 0 <= k < e + 1 - (from + 1) implies is_digit(
                    #[trigger] s@.subrange(from + 1, e + 1)[k],
                ) by {
                    if k < e - (from + 1) {
                        assert(s@.subrange(from + 1, e + 1)[k] == s@.subrange(from + 1, e as int)[k]);
                    }
                }
            }
            e = e + 1;
        }
        assert(e < s.len() ==> rest[e - from] == s@[e as int]);
        assert(digit_run_end(rest, 1) == e - from);
        if e == from + 1 {
            return None;
        }
        assert(rest.skip(e - from) =~= s@.skip(e as int));
        assert(rest.subrange(1, e - from) =~= s@.subrange(from + 1, e as int));
        let offset = match zone_offset_at(s, e) {
            Some(o) => o,
            None => return None,
        };
        let nanos = pad_nanos(s, from + 1, e);
        Some((nanos, offset))
    } else {
        match zone_offset_at(s, from) {
            Some(o) => Some((0, o)),
            None => None,
        }
    }
}

/// `2026-08-21T10:15:03Z`, `2026-08-21T10:15:03.125+02:00`, or the same with
/// `t` or a space instead of `T`.
pub fn parse_rfc3339(input: &str) -> (r: Option<i128>)
    ensures
        opt_i128(r) == rfc3339_nanos(input.spec_bytes()),
{
    let b = input.as_bytes();
    if b.len() < 20 {
        return None;
    }
    let year = match parse_signed_at(b, 0, 4) {
        Some(v) => v,
        None => return None,
    };
    if b[4] != 45 {
        return None;
    }
    let month = match parse_unsigned_at(b, 5, 7) {
        Some(v) => v,
        None => return None,
    };
    if b[7] != 45 {
        return None;
    }
    let day = match parse_unsigned_at(b, 8, 10) {
        Some(v) => v,
        None => return None,
    };
    if !(b[10] == 84 || b[10] == 116 || b[10] == 32) {
        return None;
    }
    let hour = match parse_unsigned_at(b, 11, 13) {
        Some(v) => v,
        None => return None,
    };
    if b[13] != 58 {
        return None;
    }
    let minute = match parse_unsigned_at(b, 14, 16) {
        Some(v) => v,
        None => return None,
    };
    if b[16] != 58 {
        return None;
    }
    let second = match parse_unsigned_at(b, 17, 19) {
        Some(v) => v,
        None => return None,
    };
    if !(1 <= month && month <= 12) || !(1 <= day && day <= 31) || hour > 23 || minute > 59
        || second > 60 {
        return None;
    }
    let (nanos, offset_seconds) = match fraction_and_zone_at(b, 19) {
        Some(p) => p,
        None => return None,
    };
    proof {
        lemma_signed_four_digit_bound(b@.subrange(0, 4));
        lemma_unsigned_nonneg(b@.subrange(11, 13));
        lemma_unsigned_nonneg(b@.subrange(14, 16));
        lemma_unsigned_nonneg(b@.subrange(17, 19));
    }
    let days = days_from_civil(year, month as u32, day as u32);
    proof {
        lemma_days_range(year as int, month as int, day as int);
    }
    let seconds = days * 86400 + hour * 3600 + minute * 60 + second - offset_seconds;
    Some(seconds as i128 * 1_000_000_000 + nanos)
}

proof fn lemma_unsigned_nonneg(t: Seq<u8>)
    requires
        parse_unsigned(t) is Some,
    ensures
        parse_unsigned(t)->0 >= 0,
{
    if t[0] == 43 {
        lemma_digits_nonneg(t.skip(1));
    } else {
        lemma_digits_nonneg(t);
    }
}

proof fn lemma_digits_nonneg(t: Seq<u8>)
    requires
        all_digits(t),
    ensures
        digits_value(t) >= 0,
    decreases t.len(),
{
    if t.len() > 0 {
        assert(all_digits(t.drop_last()));
        lemma_digits_nonneg(t.drop_last());
        assert(is_digit(t[t.len() - 1]));
    }
}

proof fn lemma_signed_four_digit_bound(t: Seq<u8>)
    requires
        t.len() == 4,
        parse_signed(t) is Some,
    ensures
        -999 <= parse_signed(t)->0 <= 9999,
{
    reveal_with_fuel(digits_value, 5);
    if t[0] == 45 || t[0] == 43 {
        let u = t.skip(1);
        assert(is_digit(u[0]) && is_digit(u[1]) && is_digit(u[2]));
        assert(u.drop_last().drop_last().drop_last().len() == 0);
    } else {
        assert(is_digit(t[0]) && is_digit(t[1]) && is_digit(t[2]) && is_digit(t[3]));
        assert(t.drop_last().drop_last().drop_last().drop_last().len() == 0);
    }
}

/// Parse a timestamp token into nanoseconds since the Unix epoch (UTC).
/// Recognizes bare Unix epoch seconds and RFC 3339 (`Z` or a numeric
/// `+HH:MM`/`-HH:MM` offset, with or without fractional seconds).
pub fn to_epoch_nanos(input: &str) -> (r: Option<i128>)
    ensures
        opt_i128(r) == epoch_nanos(input.spec_bytes()),
{
    match parse_unix_epoch(input) {
        Some(n) => Some(n),
        None => parse_rfc3339(input),
    }
}

} // verus!
