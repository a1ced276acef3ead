//! A small verified scanner over frame text.
//!
//! Frames are scanned, not fully parsed: the protocol only ever needs the
//! first occurrence of a known key and the small value that follows it.
//! Every executable scanner is pinned to a spec function, and
//! `lemma_find_first` states that `spec_find` really is the first match.

use vstd::prelude::*;
use crate::text::{is_digit, is_ws, digit_val, digit_char, dec_rep};

verus! {

/// The pattern occurs in `s` at position `i`.
pub open spec fn match_at(s: Seq<char>, pat: Seq<char>, i: int) -> bool {
    &&& 0 <= i
    &&& i + pat.len() <= s.len()
    &&& s.subrange(i, i + pat.len()) == pat
}

/// The position of the first occurrence of `pat` in `s` at or after `from`.
/// The empty pattern is never searched for.
pub open spec fn spec_find(s: Seq<char>, pat: Seq<char>, from: int) -> Option<int>
    decreases s.len() - from when 0 <= from <= s.len()
{
    if pat.len() == 0 {
        None
    } else if from + pat.len() <= s.len() {
        if match_at(s, pat, from) {
            Some(from)
        } else {
            spec_find(s, pat, from + 1)
        }
    } else {
        None
    }
}

/// `spec_find` returns the first match and nothing before it; `None` means
/// there is no match at all.
pub proof fn lemma_find_first(s: Seq<char>, pat: Seq<char>, from: int)
    requires
        0 <= from <= s.len(),
        1 <= pat.len(),
    ensures
        match spec_find(s, pat, from) {
            Some(i) => match_at(s, pat, i) && from <= i
                && forall|j: int| from <= j < i ==> !match_at(s, pat, j),
            None => forall|j: int| from <= j ==> !match_at(s, pat, j),
        },
    decreases s.len() - from,
{
    if from + pat.len() <= s.len() && !match_at(s, pat, from) {
        lemma_find_first(s, pat, from + 1);
    }
}

/// The index of the first non-whitespace character at or after `from`.
pub open spec fn spec_skip_ws(s: Seq<char>, from: int) -> int
    decreases s.len() - from when 0 <= from <= s.len()
{
    if from < s.len() && is_ws(s[from]) {
        spec_skip_ws(s, from + 1)
    } else {
        from
    }
}

/// The index just past the run of digit characters starting at `from`.
pub open spec fn digits_end(s: Seq<char>, from: int) -> int
    decreases s.len() - from when 0 <= from <= s.len()
{
    if from < s.len() && is_digit(s[from]) {
        digits_end(s, from + 1)
    } else {
        from
    }
}

/// The value of the digit characters of `s` between `from` and `end`.
pub open spec fn digits_val(s: Seq<char>, from: int, end: int) -> int
    decreases end - from when from <= end
{
    if from < end {
        digits_val(s, from, end - 1) * 10 + digit_val(s[end - 1])
    } else {
        0
    }
}

/// Ten to the `k`.
pub open spec fn pow10(k: nat) -> int
    decreases k,
{
    if k == 0 {
        1
    } else {
        10 * pow10((k - 1) as nat)
    }
}

/// A run of `end - from` digits has a value below `pow10(end - from)`.
pub proof fn lemma_digits_val_bound(s: Seq<char>, from: int, end: int)
    requires
        0 <= from <= end <= s.len(),
        forall|k: int| from <= k < end ==> is_digit(s[k]),
    ensures
        0 <= digits_val(s, from, end) < pow10((end - from) as nat),
    decreases end - from,
{
    if from < end {
        lemma_digits_val_bound(s, from, end - 1);
    }
}

/// `pow10` is positive.
pub proof fn lemma_pow10_pos(k: nat)
    ensures
        pow10(k) >= 1,
    decreases k,
{
    if k > 0 {
        lemma_pow10_pos((k - 1) as nat);
    }
}

/// `pow10` does not decrease.
pub proof fn lemma_pow10_le(a: nat, b: nat)
    requires
        a <= b,
    ensures
        pow10(a) <= pow10(b),
    decreases b,
{
    if a < b {
        lemma_pow10_le(a, (b - 1) as nat);
        lemma_pow10_pos((b - 1) as nat);
    }
}

/// Appending a character does not change the value of the digits before it.
proof fn lemma_digits_val_push(s: Seq<char>, c: char, k: int)
    requires
        0 <= k <= s.len(),
    ensures
        digits_val(s.push(c), 0, k) == digits_val(s, 0, k),
    decreases k,
{
    if k > 0 {
        lemma_digits_val_push(s, c, k - 1);
        assert(s.push(c)[k - 1] == s[k - 1]);
    }
}

/// Rendering a number in decimal and scanning the digits back yields the
/// same number: the decimal labels the forwarder writes are faithful.
pub proof fn lemma_dec_rep_round_trip(n: nat)
    ensures
        dec_rep(n).len() >= 1,
        forall|k: int| 0 <= k < dec_rep(n).len() ==> is_digit(#[trigger] dec_rep(n)[k]),
        digits_val(dec_rep(n), 0, dec_rep(n).len() as int) == n,
    decreases n,
{
    if n < 10 {
        assert(digits_val(dec_rep(n), 0, 0) == 0);
    } else {
        lemma_dec_rep_round_trip(n / 10);
        let s = dec_rep(n / 10);
        let c = digit_char((n % 10) as int);
        lemma_digits_val_push(s, c, s.len() as int);
        assert(dec_rep(n) == s.push(c));
        assert(s.push(c)[s.len() as int] == c);
        assert forall|k: int| 0 <= k < s.len() + 1 implies is_digit(#[trigger] s.push(c)[k]) by {
            if k < s.len() {
                assert(s.push(c)[k] == s[k]);
            }
        }
    }
}

/// Over a run of digit characters that ends at a non-digit or at the end of
/// the text, `digits_end` stops exactly at the run's end.
pub proof fn lemma_digits_end_run(s: Seq<char>, i: int, e: int)
    requires
        0 <= i <= e <= s.len(),
        forall|k: int| i <= k < e ==> is_digit(s[k]),
        e == s.len() || !is_digit(s[e]),
    ensures
        digits_end(s, i) == e,
    decreases e - i,
{
    if i < e {
        lemma_digits_end_run(s, i + 1, e);
    }
}

/// `digits_val` depends only on the characters of the run it reads.
pub proof fn lemma_digits_val_subrange(s: Seq<char>, a: int, d: Seq<char>, k: int)
    requires
        0 <= a,
        0 <= k <= d.len(),
        a + d.len() <= s.len(),
        forall|j: int| 0 <= j < d.len() ==> s[a + j] == d[j],
    ensures
        digits_val(s, a, a + k) == digits_val(d, 0, k),
    decreases k,
{
    if k > 0 {
        lemma_digits_val_subrange(s, a, d, k - 1);
    }
}

/// Distinct sequence numbers render as distinct text, so a dense run of
/// relabelled frames never repeats a label.
pub proof fn lemma_dec_rep_injective(m: nat, n: nat)
    requires
        dec_rep(m) == dec_rep(n),
    ensures
        m == n,
{
    lemma_dec_rep_round_trip(m);
    lemma_dec_rep_round_trip(n);
}

/// The scanned number at `from`: its value and the index just past its
/// digits. A number is a run of one to nineteen digits; a longer run might
/// not fit the value's machine word and is treated as malformed.
pub open spec fn spec_scan_number(s: Seq<char>, from: int) -> Option<(u64, int)> {
    let end = digits_end(s, from);
    if from < end && end - from <= 19 {
        Some((digits_val(s, from, end) as u64, end))
    } else {
        None
    }
}

/// Whether the character is a decimal digit.
pub fn digit(c: char) -> (b: bool)
    ensures
        b == is_digit(c),
{
    let u = c as u32;
    48 <= u && u <= 57
}

/// Whether the character is insignificant whitespace.
pub fn ws(c: char) -> (b: bool)
    ensures
        b == is_ws(c),
{
    c == ' ' || c == '\t' || c == '\n' || c == '\r'
}

/// Whether `pat` occurs in `s` at position `at`.
pub fn match_prefix(s: &Vec<char>, pat: &Vec<char>, at: usize) -> (b: bool)
    requires
        at + pat@.len() <= s@.len(),
    ensures
        b == match_at(s@, pat@, at as int),
{
    let n = s.len();
    let m = pat.len();
    let mut k: usize = 0;
    while k < m
        invariant
            n == s@.len(),
            m == pat@.len(),
            at + m <= n,
            k <= m,
            forall|j: int| 0 <= j < k ==> s@[at + j] == pat@[j],
        decreases m - k,
    {
        if s[at + k] != pat[k] {
            proof {
                assert(s@.subrange(at as int, at + pat@.len())[k as int] == s@[at + k]);
            }
            return false;
        }
        k = k + 1;
    }
    proof {
        assert(s@.subrange(at as int, at + pat@.len()) =~= pat@);
    }
    true
}

/// Finds the first occurrence of `pat` in `s` at or after `from`.
pub fn find(s: &Vec<char>, pat: &Vec<char>, from: usize) -> (r: Option<usize>)
    requires
        from <= s@.len(),
    ensures
        match r {
            Some(i) => spec_find(s@, pat@, from as int) == Some(i as int) && from <= i
                && i + pat@.len() <= s@.len(),
            None => spec_find(s@, pat@, from as int) is None,
        },
{
    let n = s.len();
    let m = pat.len();
    if m == 0 {
        return None;
    }
    if m > n || from > n - m {
        proof {
            lemma_find_none(s@, pat@, from as int);
        }
        return None;
    }
    let mut i = from;
    while i <= n - m
        invariant
            n == s@.len(),
            m == pat@.len(),
            1 <= m <= n,
            from <= i <= n - m + 1,
            spec_find(s@, pat@, from as int) == spec_find(s@, pat@, i as int),
        decreases n - i,
    {
        if match_prefix(s, pat, i) {
            return Some(i);
        }
        i = i + 1;
    }
    None
}

/// Past the last position where the pattern could start, there is no match.
proof fn lemma_find_none(s: Seq<char>, pat: Seq<char>, from: int)
    requires
        0 <= from <= s.len(),
        from + pat.len() > s.len(),
    ensures
        spec_find(s, pat, from) is None,
    decreases s.len() - from,
{
}

/// Skips insignificant whitespace.
pub fn skip_ws(s: &Vec<char>, from: usize) -> (r: usize)
    requires
        from <= s@.len(),
    ensures
        r as int == spec_skip_ws(s@, from as int),
        from <= r <= s@.len(),
{
    let n = s.len();
    let mut i = from;
    while i < n && ws(s[i])
        invariant
            n == s@.len(),
            from <= i <= n,
            spec_skip_ws(s@, from as int) == spec_skip_ws(s@, i as int),
        decreases n - i,
    {
        i = i + 1;
    }
    i
}

/// Scans the number at `from`, if any.
pub fn scan_number(s: &Vec<char>, from: usize) -> (r: Option<(u64, usize)>)
    requires
        from <= s@.len(),
    ensures
        match r {
            Some((v, e)) => spec_scan_number(s@, from as int) == Some((v, e as int))
                && from < e <= s@.len(),
            None => spec_scan_number(s@, from as int) is None,
        },
{
    let n = s.len();
    let mut end = from;
    while end < n && digit(s[end])
        invariant
            n == s@.len(),
            from <= end <= n,
            digits_end(s@, from as int) == digits_end(s@, end as int),
            forall|k: int| from <= k < end ==> is_digit(s@[k]),
        decreases n - end,
    {
        end = end + 1;
    }
    if end == from || end - from > 19 {
        return None;
    }
    let ghost ds = digits_end(s@, from as int);
    proof {
        assert(ds == end as int);
        lemma_digits_val_bound(s@, from as int, end as int);
    }
    let mut acc: u64 = 0;
    let mut i = from;
    while i < end
        invariant
            n == s@.len(),
            from <= i <= end <= n,
            end - from <= 19,
            forall|k: int| from <= k < end ==> is_digit(s@[k]),
            acc == digits_val(s@, from as int, i as int),
            acc < pow10((i - from) as nat),
        decreases end - i,
    {
        proof {
            lemma_pow10_le((i - from) as nat, 18);
            assert(pow10(18) == 1000000000000000000) by {
                reveal_with_fuel(pow10, 20);
            }
            lemma_digits_val_bound(s@, from as int, i + 1);
        }
        let d = (s[i] as u32 - 48) as u64;
        acc = acc * 10 + d;
        i = i + 1;
    }
    Some((acc, end))
}

} // verus!
