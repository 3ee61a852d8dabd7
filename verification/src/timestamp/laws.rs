//! What the recognized timestamp shapes mean, stated over the bytes of the
//! tokens: a fractional part only adds nanoseconds, and a numeric offset
//! moves the instant by exactly that offset relative to UTC.
use vstd::prelude::*;
use super::civil::civil_seconds;
use super::digits::{all_digits, digits_value, is_digit, parse_signed, parse_unsigned, pow10,
    lemma_pow10_values};
use super::parse::{
    digit_run_end, epoch_nanos, first_index_of, fraction_and_zone, padded_nanos, rfc3339_nanos,
    unix_epoch_nanos, zone_offset,
};

verus! {

proof fn lemma_first_index_props(s: Seq<u8>, b: u8, from: int)
    requires
        0 <= from <= s.len(),
    ensures
        from <= first_index_of(s, b, from) <= s.len(),
        forall|k: int| from <= k < first_index_of(s, b, from) ==> s[k] != b,
    decreases s.len() - from,
{
    if from < s.len() && s[from] != b {
        lemma_first_index_props(s, b, from + 1);
    }
}

/// A token with `-` as its fifth byte (the shape of an RFC 3339 date) is
/// never read as epoch seconds.
proof fn lemma_dashed_not_epoch_seconds(s: Seq<u8>)
    requires
        s.len() > 4,
        s[4] == 45,
    ensures
        unix_epoch_nanos(s) is None,
        epoch_nanos(s) == rfc3339_nanos(s),
{
    lemma_first_index_props(s, 46, 0);
    let dot = first_index_of(s, 46, 0);
    if 9 <= dot {
        assert(s.take(dot)[4] == 45);
        assert(!is_digit(s.take(dot)[4]));
    }
}

proof fn lemma_digit_run_end_at(s: Seq<u8>, from: int, k: int)
    requires
        0 <= from <= k <= s.len(),
        forall|j: int| from <= j < k ==> is_digit(#[trigger] s[j]),
        k == s.len() || !is_digit(s[k]),
    ensures
        digit_run_end(s, from) == k,
    decreases k - from,
{
    if from < k {
        lemma_digit_run_end_at(s, from + 1, k);
    }
}

/// `d` and `d'` agree on the date-time fields of an RFC 3339 token.
proof fn lemma_same_fields(s: Seq<u8>, t: Seq<u8>, d: Seq<u8>)
    requires
        d.len() == 19,
        s.len() >= 19,
        t.len() >= 19,
        s.take(19) == d,
        t.take(19) == d,
    ensures
        s.subrange(0, 4) == t.subrange(0, 4),
        s.subrange(5, 7) == t.subrange(5, 7),
        s.subrange(8, 10) == t.subrange(8, 10),
        s.subrange(11, 13) == t.subrange(11, 13),
        s.subrange(14, 16) == t.subrange(14, 16),
        s.subrange(17, 19) == t.subrange(17, 19),
        forall|k: int| 0 <= k < 19 ==> s[k] == t[k],
{
    assert forall|k: int| 0 <= k < 19 implies s[k] == t[k] by {
        assert(s[k] == s.take(19)[k]);
        assert(t[k] == t.take(19)[k]);
    }
    assert(s.subrange(0, 4) =~= t.subrange(0, 4));
    assert(s.subrange(5, 7) =~= t.subrange(5, 7));
    assert(s.subrange(8, 10) =~= t.subrange(8, 10));
    assert(s.subrange(11, 13) =~= t.subrange(11, 13));
    assert(s.subrange(14, 16) =~= t.subrange(14, 16));
    assert(s.subrange(17, 19) =~= t.subrange(17, 19));
}

/// Two RFC 3339 tokens with the same date-time fields and different
/// suffixes: what each suffix contributes decides the difference.
proof fn lemma_rfc_by_suffix(d: Seq<u8>, r1: Seq<u8>, r2: Seq<u8>)
    requires
        d.len() == 19,
        r1.len() > 0,
        r2.len() > 0,
    ensures
        rfc3339_nanos(d + r1) is Some && fraction_and_zone(r2) is Some ==> rfc3339_nanos(d + r2) == Some(
            rfc3339_nanos(d + r1)->0 + ((fraction_and_zone(r2)->0).0 - (fraction_and_zone(r1)->0).0)
                - ((fraction_and_zone(r2)->0).1 - (fraction_and_zone(r1)->0).1) * 1_000_000_000,
        ),
        fraction_and_zone(r2) is None ==> rfc3339_nanos(d + r2) is None,
        rfc3339_nanos(d + r1) is None && fraction_and_zone(r1) is Some ==> rfc3339_nanos(d + r2) is None,
{
    let s1 = d + r1;
    let s2 = d + r2;
    assert(s1.take(19) =~= d);
    assert(s2.take(19) =~= d);
    lemma_same_fields(s1, s2, d);
    assert(s1.skip(19) =~= r1);
    assert(s2.skip(19) =~= r2);
}

/// A fractional part only adds nanoseconds: for a date-time `d` (the 19
/// bytes `YYYY-MM-DDTHH:MM:SS`), a non-empty run of digits `f` and a zone
/// suffix `z`, the token `d.fz` denotes `padded_nanos(f)` nanoseconds after
/// the token `dz`, the zone offset counting the same in both.
pub proof fn lemma_fraction_adds_nanos(d: Seq<u8>, f: Seq<u8>, z: Seq<u8>)
    requires
        d.len() == 19,
        d[4] == 45,
        f.len() > 0,
        all_digits(f),
        zone_offset(z) is Some,
        epoch_nanos(d + z) is Some,
    ensures
        epoch_nanos(d + seq![46u8] + f + z) == Some(epoch_nanos(d + z)->0 + padded_nanos(f)),
{
    let r1 = z;
    let r2 = seq![46u8] + f + z;
    assert(d + seq![46u8] + f + z =~= d + r2);
    lemma_dashed_not_epoch_seconds(d + z);
    lemma_dashed_not_epoch_seconds(d + r2);
    assert(z[0] != 46u8);
    assert(fraction_and_zone(r1) == Some((0int, zone_offset(z)->0)));
    let n = 1 + f.len() as int;
    assert forall|j: int| 1 <= j < n implies is_digit(#[trigger] r2[j]) by {
        assert(r2[j] == f[j - 1]);
    }
    assert(r2[n] == z[0]);
    lemma_digit_run_end_at(r2, 1, n);
    assert(r2.skip(n) =~= z);
    assert(r2.subrange(1, n) =~= f);
    assert(fraction_and_zone(r2) == Some((padded_nanos(f), zone_offset(z)->0)));
    lemma_rfc_by_suffix(d, r1, r2);
}

/// The sign that a zone suffix's first byte gives its offset.
pub open spec fn offset_sign(b: u8) -> int {
    if b == 45 { -1 } else { 1 }
}

proof fn lemma_two_digits_parse(t: Seq<u8>)
    requires
        t.len() == 2,
        all_digits(t),
    ensures
        parse_signed(t) == Some(digits_value(t)),
        digits_value(t) >= 0,
{
    reveal_with_fuel(digits_value, 3);
    assert(is_digit(t[0]) && is_digit(t[1]));
    assert(t.drop_last().drop_last().len() == 0);
}

/// A numeric offset moves the instant by exactly that offset: the token
/// `d±HH:MM` denotes the instant `HH` hours and `MM` minutes before
/// (for `+`) or after (for `-`) the token `dZ`.
pub proof fn lemma_offset_shifts_instant(d: Seq<u8>, sign: u8, hh: Seq<u8>, mm: Seq<u8>)
    requires
        d.len() == 19,
        d[4] == 45,
        sign == 43 || sign == 45,
        hh.len() == 2,
        mm.len() == 2,
        all_digits(hh),
        all_digits(mm),
        digits_value(hh) <= 23,
        digits_value(mm) <= 59,
    ensures
        epoch_nanos(d + seq![sign] + hh + seq![58u8] + mm) == match epoch_nanos(d + seq![90u8]) {
            Some(n) => Some(
                n - offset_sign(sign) * (digits_value(hh) * 3600 + digits_value(mm) * 60)
                    * 1_000_000_000,
            ),
            None => None,
        },
{
    let z = seq![sign] + hh + seq![58u8] + mm;
    let r1 = seq![90u8];
    assert(d + seq![sign] + hh + seq![58u8] + mm =~= d + z);
    lemma_dashed_not_epoch_seconds(d + z);
    lemma_dashed_not_epoch_seconds(d + r1);
    assert(z.subrange(1, 3) =~= hh);
    assert(z.subrange(4, 6) =~= mm);
    assert(z[3] == 58u8);
    lemma_two_digits_parse(hh);
    lemma_two_digits_parse(mm);
    assert(zone_offset(z) == Some(offset_sign(sign) * (digits_value(hh) * 3600 + digits_value(mm) * 60)));
    assert(fraction_and_zone(z) == Some((0int, zone_offset(z)->0)));
    assert(zone_offset(r1) == Some(0int));
    assert(fraction_and_zone(r1) == Some((0int, 0int)));
    lemma_rfc_by_suffix(d, r1, z);
    lemma_rfc_by_suffix(d, z, r1);
    let x = digits_value(hh) * 3600 + digits_value(mm) * 60;
    let g = offset_sign(sign);
    assert((g * x - 0) * 1_000_000_000 == g * x * 1_000_000_000) by (nonlinear_arith);
}

/// The ASCII digit for `d` (0..=9).
pub open spec fn digit_byte(d: int) -> u8 {
    (48 + d) as u8
}

/// `n` (0..=99) written with two digits.
pub open spec fn two_digit_bytes(n: int) -> Seq<u8> {
    seq![digit_byte(n / 10), digit_byte(n % 10)]
}

/// `n` (0..=9999) written with four digits.
pub open spec fn four_digit_bytes(n: int) -> Seq<u8> {
    seq![digit_byte(n / 1000), digit_byte(n / 100 % 10), digit_byte(n / 10 % 10), digit_byte(n % 10)]
}

/// The RFC 3339 text `YYYY-MM-DDTHH:MM:SS` of a civil date and time.
pub open spec fn rfc3339_text(y: int, m: int, d: int, h: int, mi: int, sec: int) -> Seq<u8> {
    four_digit_bytes(y) + seq![45u8] + two_digit_bytes(m) + seq![45u8] + two_digit_bytes(d) + seq![84u8]
        + two_digit_bytes(h) + seq![58u8] + two_digit_bytes(mi) + seq![58u8] + two_digit_bytes(sec)
}

proof fn lemma_two_digit_value(n: int)
    requires
        0 <= n <= 99,
    ensures
        parse_unsigned(two_digit_bytes(n)) == Some(n),
        parse_signed(two_digit_bytes(n)) == Some(n),
{
    let t = two_digit_bytes(n);
    reveal_with_fuel(digits_value, 3);
    assert(t.drop_last().drop_last().len() == 0);
    assert(is_digit(t[0]) && is_digit(t[1]));
    assert(all_digits(t));
    assert(t.drop_last() =~= seq![t[0]]);
}

proof fn lemma_four_digit_value(n: int)
    requires
        0 <= n <= 9999,
    ensures
        parse_signed(four_digit_bytes(n)) == Some(n),
{
    let t = four_digit_bytes(n);
    reveal_with_fuel(digits_value, 5);
    assert(is_digit(t[0]) && is_digit(t[1]) && is_digit(t[2]) && is_digit(t[3]));
    assert(all_digits(t));
    assert(t.drop_last().drop_last().drop_last().drop_last().len() == 0);
    assert(t.drop_last().drop_last().drop_last() =~= seq![t[0]]);
    assert(t.drop_last().drop_last() =~= seq![t[0], t[1]]);
    assert(t.drop_last() =~= seq![t[0], t[1], t[2]]);
}

/// A UTC token written out from a civil date and time denotes that civil
/// instant: `YYYY-MM-DDTHH:MM:SSZ` is the number of seconds from
/// 1970-01-01T00:00:00 to that date and time, in nanoseconds.
pub proof fn lemma_utc_token_denotes_civil_instant(y: int, m: int, d: int, h: int, mi: int, sec: int)
    requires
        0 <= y <= 9999,
        1 <= m <= 12,
        1 <= d <= 31,
        0 <= h <= 23,
        0 <= mi <= 59,
        0 <= sec <= 60,
    ensures
        epoch_nanos(rfc3339_text(y, m, d, h, mi, sec) + seq![90u8]) == Some(
            civil_seconds(y, m, d, h, mi, sec) * 1_000_000_000,
        ),
{
    let t = rfc3339_text(y, m, d, h, mi, sec) + seq![90u8];
    assert(t.len() == 20);
    assert(t[4] == 45u8);
    lemma_dashed_not_epoch_seconds(t);
    assert(t.subrange(0, 4) =~= four_digit_bytes(y));
    assert(t.subrange(5, 7) =~= two_digit_bytes(m));
    assert(t.subrange(8, 10) =~= two_digit_bytes(d));
    assert(t.subrange(11, 13) =~= two_digit_bytes(h));
    assert(t.subrange(14, 16) =~= two_digit_bytes(mi));
    assert(t.subrange(17, 19) =~= two_digit_bytes(sec));
    assert(t[7] == 45u8 && t[10] == 84u8 && t[13] == 58u8 && t[16] == 58u8);
    assert(t.skip(19) =~= seq![90u8]);
    lemma_four_digit_value(y);
    lemma_two_digit_value(m);
    lemma_two_digit_value(d);
    lemma_two_digit_value(h);
    lemma_two_digit_value(mi);
    lemma_two_digit_value(sec);
    assert(zone_offset(seq![90u8]) == Some(0int));
    assert(fraction_and_zone(seq![90u8]) == Some((0int, 0int)));
}

/// The last `k` decimal digits of `n` (0 <= n), zero-padded.
pub open spec fn digit_bytes(n: int, k: nat) -> Seq<u8>
    decreases k,
{
    if k == 0 {
        Seq::empty()
    } else {
        digit_bytes(n / 10, (k - 1) as nat).push(digit_byte(n % 10))
    }
}

proof fn lemma_digit_bytes_value(n: int, k: nat)
    requires
        0 <= n,
    ensures
        digit_bytes(n, k).len() == k,
        all_digits(digit_bytes(n, k)),
        digits_value(digit_bytes(n, k)) == n % pow10(k),
        forall|j: int| 0 <= j < k ==> digit_bytes(n, k)[j] != 46u8,
    decreases k,
{
    if k > 0 {
        let k1 = (k - 1) as nat;
        lemma_digit_bytes_value(n / 10, k1);
        let t = digit_bytes(n, k);
        assert(t.drop_last() =~= digit_bytes(n / 10, k1));
        assert(all_digits(t)) by {
            assert forall|j: int| 0 <= j < t.len() implies is_digit(#[trigger] t[j]) by {
                if j < k1 {
                    assert(t[j] == digit_bytes(n / 10, k1)[j]);
                }
            }
        }
        assert forall|j: int| 0 <= j < k implies t[j] != 46u8 by {
            if j < k1 {
                assert(t[j] == digit_bytes(n / 10, k1)[j]);
            }
        }
        lemma_pow10_positive(k1);
        let p = pow10(k1);
        assert(pow10(k) == 10 * p);
        assert((n / 10) % p * 10 + n % 10 == n % (10 * p)) by (nonlinear_arith)
            requires p > 0, n >= 0;
    }
}

proof fn lemma_pow10_positive(k: nat)
    ensures
        pow10(k) > 0,
    decreases k,
{
    if k > 0 {
        lemma_pow10_positive((k - 1) as nat);
    }
}

/// Ten digits of bare epoch seconds denote that many seconds after
/// 1970-01-01T00:00:00Z.
pub proof fn lemma_epoch_seconds_token(n: int)
    requires
        0 <= n < 10_000_000_000,
    ensures
        epoch_nanos(digit_bytes(n, 10)) == Some(n * 1_000_000_000),
{
    let t = digit_bytes(n, 10);
    lemma_digit_bytes_value(n, 10);
    lemma_first_index_props(t, 46, 0);
    assert(first_index_of(t, 46, 0) == 10) by {
        if first_index_of(t, 46, 0) < 10 {
            lemma_first_index_hit(t, 46, 0);
        }
    }
    assert(t.take(10) =~= t);
    lemma_pow10_values();
    assert(n % 10_000_000_000 == n);
    assert(digits_value(t.take(10)) == n);
    assert(unix_epoch_nanos(t) == Some(n * 1_000_000_000));
}

proof fn lemma_first_index_hit(s: Seq<u8>, b: u8, from: int)
    requires
        0 <= from <= s.len(),
        first_index_of(s, b, from) < s.len(),
    ensures
        s[first_index_of(s, b, from)] == b,
    decreases s.len() - from,
{
    if from < s.len() && s[from] != b {
        lemma_first_index_hit(s, b, from + 1);
    }
}

/// The two recognized shapes agree: the epoch-seconds token for an
/// instant and the UTC token naming the same civil date and time denote
/// the same nanosecond.
pub proof fn lemma_epoch_and_utc_tokens_agree(y: int, m: int, d: int, h: int, mi: int, sec: int)
    requires
        0 <= y <= 9999,
        1 <= m <= 12,
        1 <= d <= 31,
        0 <= h <= 23,
        0 <= mi <= 59,
        0 <= sec <= 60,
        0 <= civil_seconds(y, m, d, h, mi, sec) < 10_000_000_000,
    ensures
        epoch_nanos(digit_bytes(civil_seconds(y, m, d, h, mi, sec), 10)) == epoch_nanos(
            rfc3339_text(y, m, d, h, mi, sec) + seq![90u8],
        ),
{
    lemma_epoch_seconds_token(civil_seconds(y, m, d, h, mi, sec));
    lemma_utc_token_denotes_civil_instant(y, m, d, h, mi, sec);
}

/// Fractional digits read as a decimal fraction of a second: nine digits
/// are the nanoseconds themselves, a trailing zero changes nothing, and
/// digits past the ninth are dropped.
pub proof fn lemma_fraction_digits(f: Seq<u8>)
    requires
        all_digits(f),
    ensures
        f.len() == 9 ==> padded_nanos(f) == digits_value(f),
        f.len() < 9 ==> padded_nanos(f.push(48u8)) == padded_nanos(f),
        f.len() > 9 ==> padded_nanos(f) == padded_nanos(f.take(9)),
{
    if f.len() < 9 {
        let g = f.push(48u8);
        assert(g.drop_last() =~= f);
        assert(digits_value(g) == digits_value(f) * 10);
        let k = (9 - f.len()) as nat;
        assert(pow10(k) == 10 * pow10((k - 1) as nat));
        if f.len() + 1 < 9 {
            assert(9 - g.len() == k - 1);
            let v = digits_value(f);
            let p = pow10((k - 1) as nat);
            assert(v * 10 * p == v * (10 * p)) by (nonlinear_arith);
        } else {
            assert(g.take(9) =~= g);
            assert(k == 1);
            assert(pow10(0) == 1);
        }
    } else if f.len() == 9 {
        assert(f.take(9) =~= f);
    } else {
        assert(f.take(9).take(9) =~= f.take(9));
    }
}

} // verus!
