//! Decimal digit runs in byte strings, read the way Rust's integer
//! `from_str` reads them.
use vstd::prelude::*;

verus! {

pub open spec fn is_digit(b: u8) -> bool {
    48 <= b <= 57
}

pub open spec fn all_digits(s: Seq<u8>) -> bool {
    forall|i: int| 0 <= i < s.len() ==> is_digit(#[trigger] s[i])
}

/// The number a run of decimal digits denotes.
pub open spec fn digits_value(s: Seq<u8>) -> int
    decreases s.len(),
{
    if s.len() == 0 {
        0
    } else {
        digits_value(s.drop_last()) * 10 + (s.last() - 48)
    }
}

pub open spec fn pow10(n: nat) -> int
    decreases n,
{
    if n == 0 { 1 } else { 10 * pow10((n - 1) as nat) }
}

/// What `u32::from_str` (or any unsigned integer type) yields on a short
/// input: an optional `+` followed by at least one digit.
pub open spec fn parse_unsigned(s: Seq<u8>) -> Option<int> {
    if s.len() == 0 {
        None
    } else if s[0] == 43 {
        if s.len() > 1 && all_digits(s.skip(1)) { Some(digits_value(s.skip(1))) } else { None }
    } else if all_digits(s) {
        Some(digits_value(s))
    } else {
        None
    }
}

/// What `i64::from_str` yields on a short input: an optional `+` or `-`
/// followed by at least one digit.
pub open spec fn parse_signed(s: Seq<u8>) -> Option<int> {
    if s.len() > 0 && s[0] == 45 {
        if s.len() > 1 && all_digits(s.skip(1)) { Some(-digits_value(s.skip(1))) } else { None }
    } else {
        parse_unsigned(s)
    }
}

pub open spec fn opt_int(o: Option<i64>) -> Option<int> {
    match o {
        Some(v) => Some(v as int),
        None => None,
    }
}

pub proof fn lemma_pow10_values()
    ensures
        pow10(0) == 1,
        pow10(1) == 10,
        pow10(2) == 100,
        pow10(3) == 1000,
        pow10(4) == 10000,
        pow10(5) == 100000,
        pow10(6) == 1000000,
        pow10(7) == 10000000,
        pow10(8) == 100000000,
        pow10(9) == 1000000000,
        pow10(10) == 10000000000,
{
    reveal_with_fuel(pow10, 11);
}

/// Reads `s[start..end]` as a run of decimal digits.
pub fn digits_at(s: &[u8], start: usize, end: usize) -> (r: i64)
    requires
        start <= end <= s@.len(),
        end - start <= 10,
        all_digits(s@.subrange(start as int, end as int)),
    ensures
        r == digits_value(s@.subrange(start as int, end as int)),
        0 <= r < pow10((end - start) as nat),
{
    proof {
        lemma_pow10_values();
    }
    let mut value: i64 = 0;
    let mut i = start;
    while i < end
        invariant
            start <= i <= end <= s@.len(),
            end - start <= 10,
            all_digits(s@.subrange(start as int, end as int)),
            value == digits_value(s@.subrange(start as int, i as int)),
            0 <= value < pow10((i - start) as nat),
            pow10(10) == 10000000000,
        decreases end - i,
    {
        proof {
            assert(s@.subrange(start as int, i + 1).drop_last() =~= s@.subrange(start as int, i as int));
            assert(s@.subrange(start as int, end as int)[i - start] == s@[i as int]);
            assert(pow10((i + 1 - start) as nat) == 10 * pow10((i - start) as nat));
            assert(pow10((i + 1 - start) as nat) <= pow10(10)) by {
                lemma_pow10_monotone((i + 1 - start) as nat, 10);
            }
        }
        value = value * 10 + (s[i] - 48) as i64;
        i = i + 1;
    }
    value
}

pub proof fn lemma_pow10_monotone(a: nat, b: nat)
    requires
        a <= b,
    ensures
        1 <= pow10(a) <= pow10(b),
    decreases b,
{
    if b > 0 {
        if a < b {
            lemma_pow10_monotone(a, (b - 1) as nat);
        } else {
            lemma_pow10_monotone((b - 1) as nat, (b - 1) as nat);
        }
    }
}

/// Whether `s[start..end]` is all digits.
pub fn all_digits_at(s: &[u8], start: usize, end: usize) -> (r: bool)
    requires
        start <= end <= s@.len(),
    ensures
        r == all_digits(s@.subrange(start as int, end as int)),
{
    let mut i = start;
    while i < end
        invariant
            start <= i <= end <= s@.len(),
            all_digits(s@.subrange(start as int, i as int)),
        decreases end - i,
    {
        if s[i] < 48 || s[i] > 57 {
            assert(s@.subrange(start as int, end as int)[i - start] == s@[i as int]);
            return false;
        }
        assert(all_digits(s@.subrange(start as int, i + 1))) by {
            assert forall|k: int| 0 <= k < i + 1 - start implies is_digit(
                #[trigger] s@.subrange(start as int, i + 1)[k],
            ) by {
                if k < i - start {
                    assert(s@.subrange(start as int, i + 1)[k] == s@.subrange(start as int, i as int)[k]);
                }
            }
        }
        i = i + 1;
    }
    true
}

/// Reads `s[start..end]` (at most four bytes) the way `u32::from_str` does.
pub fn parse_unsigned_at(s: &[u8], start: usize, end: usize) -> (r: Option<i64>)
    requires
        start <= end <= s@.len(),
        end - start <= 4,
    ensures
        opt_int(r) == parse_unsigned(s@.subrange(start as int, end as int)),
{
    let ghost sub = s@.subrange(start as int, end as int);
    if start == end {
        return None;
    }
    if s[start] == 43 {
        assert(sub.skip(1) =~= s@.subrange(start + 1, end as int));
        if end - start > 1 && all_digits_at(s, start + 1, end) {
            Some(digits_at(s, start + 1, end))
        } else {
            None
        }
    } else if all_digits_at(s, start, end) {
        Some(digits_at(s, start, end))
    } else {
        None
    }
}

/// Reads `s[start..end]` (at most four bytes) the way `i64::from_str` does.
pub fn parse_signed_at(s: &[u8], start: usize, end: usize) -> (r: Option<i64>)
    requires
        start <= end <= s@.len(),
        end - start <= 4,
    ensures
        opt_int(r) == parse_signed(s@.subrange(start as int, end as int)),
{
    let ghost sub = s@.subrange(start as int, end as int);
    if start < end && s[start] == 45 {
        assert(sub.skip(1) =~= s@.subrange(start + 1, end as int));
        if end - start > 1 && all_digits_at(s, start + 1, end) {
            let v = digits_at(s, start + 1, end);
            Some(-v)
        } else {
            None
        }
    } else {
        parse_unsigned_at(s, start, end)
    }
}

} // verus!
