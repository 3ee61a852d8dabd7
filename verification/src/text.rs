//! Character-level helpers shared by the parsers and the renderers.
use vstd::prelude::*;

verus! {

/// Unicode `White_Space`: the characters `char::is_whitespace` accepts.
pub open spec fn is_ws(c: char) -> bool {
    ('\u{9}' <= c && c <= '\u{d}') || c == ' ' || c == '\u{85}' || c == '\u{a0}'
        || c == '\u{1680}' || ('\u{2000}' <= c && c <= '\u{200a}') || c == '\u{2028}'
        || c == '\u{2029}' || c == '\u{202f}' || c == '\u{205f}' || c == '\u{3000}'
}

/// Whether every character of `s` is whitespace (true of the empty line).
pub open spec fn is_blank(s: Seq<char>) -> bool {
    forall|i: int| 0 <= i < s.len() ==> is_ws(#[trigger] s[i])
}

/// Whether `c` has the Unicode `White_Space` property.
pub fn is_whitespace(c: char) -> (r: bool)
    ensures
        r == is_ws(c),
{
    ('\u{9}' <= c && c <= '\u{d}') || c == ' ' || c == '\u{85}' || c == '\u{a0}'
        || c == '\u{1680}' || ('\u{2000}' <= c && c <= '\u{200a}') || c == '\u{2028}'
        || c == '\u{2029}' || c == '\u{202f}' || c == '\u{205f}' || c == '\u{3000}'
}

/// The characters of `s`, in order.
pub fn chars_of(s: &str) -> (v: Vec<char>)
    ensures
        v@ == s@,
{
    let mut v: Vec<char> = Vec::new();
    for c in it: s.chars()
        invariant
            v@ == it.seq().take(it.index() as int),
    {
        v.push(c);
    }
    v
}

/// Whether the line is empty or whitespace only.
pub fn blank(line: &str) -> (r: bool)
    ensures
        r == is_blank(line@),
{
    let v = chars_of(line);
    let mut i: usize = 0;
    while i < v.len()
        invariant
            i <= v@.len(),
            v@ == line@,
            forall|k: int| 0 <= k < i ==> is_ws(#[trigger] v@[k]),
        decreases v@.len() - i,
    {
        if !is_whitespace(v[i]) {
            return false;
        }
        i = i + 1;
    }
    true
}

/// Whether two character sequences are equal.
pub fn chars_equal(a: &[char], b: &[char]) -> (r: bool)
    ensures
        r == (a@ == b@),
{
    if a.len() != b.len() {
        return false;
    }
    let mut i: usize = 0;
    while i < a.len()
        invariant
            i <= a@.len(),
            a@.len() == b@.len(),
            forall|k: int| 0 <= k < i ==> a@[k] == b@[k],
        decreases a@.len() - i,
    {
        if a[i] != b[i] {
            return false;
        }
        i = i + 1;
    }
    assert(a@ =~= b@);
    true
}

/// Appends one character (`String::push`).
#[verifier::external_body]
pub fn push_char(s: &mut String, c: char)
    ensures
        final(s)@ == old(s)@.push(c),
{
    s.push(c);
}

/// The decimal digit character for `d` (0..=9).
pub open spec fn digit_char(d: int) -> char {
    if d == 0 { '0' }
    else if d == 1 { '1' }
    else if d == 2 { '2' }
    else if d == 3 { '3' }
    else if d == 4 { '4' }
    else if d == 5 { '5' }
    else if d == 6 { '6' }
    else if d == 7 { '7' }
    else if d == 8 { '8' }
    else { '9' }
}

/// Base-ten rendering of `n`, without leading zeros.
pub open spec fn decimal(n: nat) -> Seq<char>
    decreases n,
{
    if n < 10 {
        seq![digit_char(n as int)]
    } else {
        decimal(n / 10).push(digit_char((n % 10) as int))
    }
}

fn digit(d: usize) -> (c: char)
    requires
        d < 10,
    ensures
        c == digit_char(d as int),
{
    if d == 0 { '0' }
    else if d == 1 { '1' }
    else if d == 2 { '2' }
    else if d == 3 { '3' }
    else if d == 4 { '4' }
    else if d == 5 { '5' }
    else if d == 6 { '6' }
    else if d == 7 { '7' }
    else if d == 8 { '8' }
    else { '9' }
}

/// Appends the decimal rendering of `n`.
pub fn push_decimal(out: &mut String, n: usize)
    ensures
        final(out)@ == old(out)@ + decimal(n as nat),
    decreases n,
{
    if n >= 10 {
        push_decimal(out, n / 10);
    }
    push_char(out, digit(n % 10));
    assert(n >= 10 ==> decimal(n as nat) == decimal((n / 10) as nat).push(digit_char((n % 10) as int)));
}

/// A new string holding `v[start..end]`.
pub fn string_from(v: &[char], start: usize, end: usize) -> (r: String)
    requires
        start <= end <= v@.len(),
    ensures
        r@ == v@.subrange(start as int, end as int),
{
    let mut out = String::new();
    let mut i = start;
    while i < end
        invariant
            start <= i <= end <= v@.len(),
            out@ == v@.subrange(start as int, i as int),
        decreases end - i,
    {
        push_char(&mut out, v[i]);
        assert(v@.subrange(start as int, i + 1) =~= v@.subrange(start as int, i as int).push(v@[i as int]));
        i = i + 1;
    }
    out
}

/// First index at or after `from` holding whitespace, or the length: the
/// end of the token that starts at `from`.
pub open spec fn token_end(s: Seq<char>, from: int) -> int
    decreases s.len() - from,
{
    if from >= s.len() || from < 0 {
        s.len() as int
    } else if is_ws(s[from]) {
        from
    } else {
        token_end(s, from + 1)
    }
}

/// First index at or after `from` not holding whitespace, or the length:
/// the end of the whitespace run that starts at `from`.
pub open spec fn run_end(s: Seq<char>, from: int) -> int
    decreases s.len() - from,
{
    if from >= s.len() || from < 0 {
        s.len() as int
    } else if !is_ws(s[from]) {
        from
    } else {
        run_end(s, from + 1)
    }
}

pub fn find_token_end(v: &[char], from: usize) -> (r: usize)
    requires
        from <= v@.len(),
    ensures
        r == token_end(v@, from as int),
        from <= r <= v@.len(),
{
    let mut i = from;
    while i < v.len() && !is_whitespace(v[i])
        invariant
            from <= i <= v@.len(),
            token_end(v@, from as int) == token_end(v@, i as int),
        decreases v@.len() - i,
    {
        i = i + 1;
    }
    i
}

pub fn find_run_end(v: &[char], from: usize) -> (r: usize)
    requires
        from <= v@.len(),
    ensures
        r == run_end(v@, from as int),
        from <= r <= v@.len(),
{
    let mut i = from;
    while i < v.len() && is_whitespace(v[i])
        invariant
            from <= i <= v@.len(),
            run_end(v@, from as int) == run_end(v@, i as int),
        decreases v@.len() - i,
    {
        i = i + 1;
    }
    i
}

/// Whether two strings hold the same characters.
pub fn str_eq(a: &str, b: &str) -> (r: bool)
    ensures
        r == (a@ == b@),
{
    let va = chars_of(a);
    let vb = chars_of(b);
    chars_equal(va.as_slice(), vb.as_slice())
}

/// A new string holding `s`.
pub fn string_of(s: &str) -> (r: String)
    ensures
        r@ == s@,
{
    let mut out = String::new();
    out.append(s);
    out
}

/// Whether `t` occurs in `s` as a contiguous run of characters (the
/// empty text occurs in every string).
pub open spec fn contains_text(s: Seq<char>, t: Seq<char>) -> bool {
    exists|i: int| 0 <= i && i + t.len() <= s.len() && #[trigger] s.subrange(i, i + t.len()) == t
}

fn occurs_at(s: &[char], t: &[char], i: usize) -> (r: bool)
    requires
        i + t@.len() <= s@.len(),
    ensures
        r == (s@.subrange(i as int, i + t@.len()) == t@),
{
    let slen = s.len();
    let mut k: usize = 0;
    while k < t.len()
        invariant
            slen == s@.len(),
            k <= t@.len(),
            i + t@.len() <= s@.len(),
            forall|j: int| 0 <= j < k ==> s@[i + j] == t@[j],
        decreases t@.len() - k,
    {
        assert(i + k < s@.len());
        if s[i + k] != t[k] {
            assert(s@.subrange(i as int, i + t@.len())[k as int] != t@[k as int]);
            return false;
        }
        k = k + 1;
    }
    assert(s@.subrange(i as int, i + t@.len()) =~= t@);
    true
}

/// Whether `needle` occurs in `haystack`.
pub fn contains(haystack: &str, needle: &str) -> (r: bool)
    ensures
        r == contains_text(haystack@, needle@),
{
    let h = chars_of(haystack);
    let n = chars_of(needle);
    if n.len() > h.len() {
        return false;
    }
    let last = h.len() - n.len();
    let mut i: usize = 0;
    while i <= last
        invariant
            last == h@.len() - n@.len(),
            n@.len() <= h@.len(),
            h@ == haystack@,
            n@ == needle@,
            forall|j: int| 0 <= j < i ==> #[trigger] h@.subrange(j, j + n@.len()) != n@,
        decreases last + 1 - i,
    {
        if occurs_at(h.as_slice(), n.as_slice(), i) {
            return true;
        }
        if i == last {
            return false;
        }
        i = i + 1;
    }
    false
}

pub proof fn lemma_token_end_props(s: Seq<char>, from: int)
    requires
        0 <= from <= s.len(),
    ensures
        from <= token_end(s, from) <= s.len(),
        forall|j: int| from <= j < token_end(s, from) ==> !is_ws(#[trigger] s[j]),
        token_end(s, from) < s.len() ==> is_ws(s[token_end(s, from)]),
    decreases s.len() - from,
{
    if from < s.len() && !is_ws(s[from]) {
        lemma_token_end_props(s, from + 1);
    }
}

pub proof fn lemma_run_end_props(s: Seq<char>, from: int)
    requires
        0 <= from <= s.len(),
    ensures
        from <= run_end(s, from) <= s.len(),
        forall|j: int| from <= j < run_end(s, from) ==> is_ws(#[trigger] s[j]),
        run_end(s, from) < s.len() ==> !is_ws(s[run_end(s, from)]),
    decreases s.len() - from,
{
    if from < s.len() && is_ws(s[from]) {
        lemma_run_end_props(s, from + 1);
    }
}

pub proof fn lemma_token_end_at(s: Seq<char>, from: int, k: int)
    requires
        0 <= from <= k <= s.len(),
        forall|j: int| from <= j < k ==> !is_ws(#[trigger] s[j]),
        k == s.len() || is_ws(s[k]),
    ensures
        token_end(s, from) == k,
    decreases k - from,
{
    if from < k {
        lemma_token_end_at(s, from + 1, k);
    }
}

pub proof fn lemma_run_end_at(s: Seq<char>, from: int, k: int)
    requires
        0 <= from <= k <= s.len(),
        forall|j: int| from <= j < k ==> is_ws(#[trigger] s[j]),
        k == s.len() || !is_ws(s[k]),
    ensures
        run_end(s, from) == k,
    decreases k - from,
{
    if from < k {
        lemma_run_end_at(s, from + 1, k);
    }
}

/// A text holds whatever stands in its middle.
pub proof fn lemma_contains_middle(pre: Seq<char>, mid: Seq<char>, post: Seq<char>)
    ensures
        contains_text(pre + mid + post, mid),
{
    let t = pre + mid + post;
    assert(t.subrange(pre.len() as int, pre.len() + mid.len() as int) =~= mid);
}

/// Text held by a part is held by the whole: appending keeps it.
pub proof fn lemma_contains_extend(a: Seq<char>, b: Seq<char>, m: Seq<char>)
    requires
        contains_text(a, m),
    ensures
        contains_text(a + b, m),
{
    let i = choose|i: int| 0 <= i && i + m.len() <= a.len() && #[trigger] a.subrange(i, i + m.len()) == m;
    assert((a + b).subrange(i, i + m.len()) =~= a.subrange(i, i + m.len()));
}

/// Text held by a part is held by the whole: prepending keeps it.
pub proof fn lemma_contains_prepend(a: Seq<char>, b: Seq<char>, m: Seq<char>)
    requires
        contains_text(b, m),
    ensures
        contains_text(a + b, m),
{
    let i = choose|i: int| 0 <= i && i + m.len() <= b.len() && #[trigger] b.subrange(i, i + m.len()) == m;
    assert((a + b).subrange(a.len() + i, a.len() + i + m.len()) =~= b.subrange(i, i + m.len()));
}

} // verus!
