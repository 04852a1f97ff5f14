//! Character-level scanning shared by the text formats of the engine:
//! substring search, whitespace-separated words and unsigned decimals.

use vstd::prelude::*;
use vstd::string::StrSliceExecFns;
use crate::data_source::{decimal, digit_char};

verus! {

/// The first position at or after `i` where `pat` occurs in `s`.
pub open spec fn find_from(s: Seq<char>, pat: Seq<char>, i: int) -> Option<int>
    decreases s.len() - i,
{
    if i < 0 || i + pat.len() > s.len() {
        None
    } else if s.subrange(i, i + pat.len()) == pat {
        Some(i)
    } else {
        proof {
            if pat.len() == 0 {
                assert(s.subrange(i, i) =~= pat);
            }
        }
        find_from(s, pat, i + 1)
    }
}

/// A position that `find_from` reports lies at or after where the search
/// began and holds `pat`.
pub proof fn lemma_find_from_found(s: Seq<char>, pat: Seq<char>, i: int)
    ensures
        match find_from(s, pat, i) {
            Some(j) => 0 <= i <= j && j + pat.len() <= s.len() && s.subrange(j, j + pat.len()) == pat,
            None => true,
        },
    decreases s.len() - i,
{
    if !(i < 0 || i + pat.len() > s.len()) && s.subrange(i, i + pat.len()) != pat {
        if pat.len() == 0 {
            assert(s.subrange(i, i) =~= pat);
        }
        lemma_find_from_found(s, pat, i + 1);
    }
}

/// `find_from` finds the first occurrence: when `pat` occurs at some
/// position `k` at or after `i`, the search reports a position no later
/// than `k`, and `pat` occurs at no position before the one reported.
pub proof fn lemma_find_from_first(s: Seq<char>, pat: Seq<char>, i: int, k: int)
    requires
        0 <= i <= k,
        k + pat.len() <= s.len(),
        s.subrange(k, k + pat.len()) == pat,
    ensures
        find_from(s, pat, i) is Some,
        find_from(s, pat, i)->0 <= k,
        forall|j: int| i <= j < find_from(s, pat, i)->0 ==> #[trigger] s.subrange(j, j + pat.len()) != pat,
    decreases k - i,
{
    if s.subrange(i, i + pat.len()) != pat {
        lemma_find_from_first(s, pat, i + 1, k);
    }
}

/// A search that finds nothing means `pat` occurs nowhere at or after `i`.
pub proof fn lemma_find_from_none(s: Seq<char>, pat: Seq<char>, i: int, k: int)
    requires
        0 <= i <= k,
        k + pat.len() <= s.len(),
        find_from(s, pat, i) is None,
    ensures
        s.subrange(k, k + pat.len()) != pat,
{
    if s.subrange(k, k + pat.len()) == pat {
        lemma_find_from_first(s, pat, i, k);
    }
}

/// Whether `s` holds `pat` at position `i`.
fn occurs_at(s: &str, pat: &str, i: usize) -> (r: bool)
    requires
        i + pat@.len() <= s@.len(),
        s@.len() <= usize::MAX,
    ensures
        r == (s@.subrange(i as int, i + pat@.len()) == pat@),
{
    let m = pat.unicode_len();
    let mut j: usize = 0;
    while j < m
        invariant
            m == pat@.len(),
            i + m <= s@.len(),
            s@.len() <= usize::MAX,
            j <= m,
            forall|k: int| 0 <= k < j ==> s@[i + k] == pat@[k],
        decreases m - j,
    {
        if s.get_char(i + j) != pat.get_char(j) {
            assert(s@.subrange(i as int, i + m)[j as int] != pat@[j as int]);
            return false;
        }
        j = j + 1;
    }
    assert(s@.subrange(i as int, i + m) =~= pat@);
    true
}

/// The position of the first occurrence of `pat` in `s`, counted in characters.
pub fn find_text(s: &str, pat: &str) -> (r: Option<usize>)
    ensures
        match r {
            Some(i) => find_from(s@, pat@, 0) == Some(i as int),
            None => find_from(s@, pat@, 0) is None,
        },
{
    let n = s.unicode_len();
    let m = pat.unicode_len();
    if m > n {
        return None;
    }
    if m == 0 {
        assert(s@.subrange(0, 0) =~= pat@);
        return Some(0);
    }
    let mut i: usize = 0;
    while i <= n - m
        invariant
            n == s@.len(),
            m == pat@.len(),
            1 <= m <= n,
            i <= n - m + 1,
            find_from(s@, pat@, 0) == find_from(s@, pat@, i as int),
        decreases n - m + 1 - i,
    {
        if occurs_at(s, pat, i) {
            return Some(i);
        }
        i = i + 1;
    }
    None
}

/// Whether `c` has the Unicode `White_Space` property.
pub open spec fn is_white_space(c: char) -> bool {
    ||| ('\u{9}' <= c && c <= '\u{d}')
    ||| c == ' '
    ||| c == '\u{85}'
    ||| c == '\u{a0}'
    ||| c == '\u{1680}'
    ||| ('\u{2000}' <= c && c <= '\u{200a}')
    ||| c == '\u{2028}'
    ||| c == '\u{2029}'
    ||| c == '\u{202f}'
    ||| c == '\u{205f}'
    ||| c == '\u{3000}'
}

/// Whether `c` has the Unicode `White_Space` property.
pub fn white_space(c: char) -> (r: bool)
    ensures
        r == is_white_space(c),
{
    ('\u{9}' <= c && c <= '\u{d}') || c == ' ' || c == '\u{85}' || c == '\u{a0}' || c == '\u{1680}'
        || ('\u{2000}' <= c && c <= '\u{200a}') || c == '\u{2028}' || c == '\u{2029}' || c
        == '\u{202f}' || c == '\u{205f}' || c == '\u{3000}'
}

/// Where the word of `s` that runs through position `i` ends: the first
/// whitespace at or after `i`, or the end of `s`.
pub open spec fn word_end(s: Seq<char>, i: int) -> int
    decreases s.len() - i,
{
    if i >= s.len() {
        s.len() as int
    } else if is_white_space(s[i]) {
        i
    } else {
        word_end(s, i + 1)
    }
}

/// Whether a whitespace-separated word of `s` starts at position `i`.
pub open spec fn starts_word(s: Seq<char>, i: int) -> bool {
    &&& 0 <= i < s.len()
    &&& !is_white_space(s[i])
    &&& (i == 0 || is_white_space(s[i - 1]))
}

/// Whether `w` begins with `p`.
pub open spec fn has_prefix(w: Seq<char>, p: Seq<char>) -> bool {
    p.len() <= w.len() && w.subrange(0, p.len() as int) == p
}

/// The start of the first word of `s`, at or after position `i`, that
/// begins with `p`.
pub open spec fn first_word_with(s: Seq<char>, p: Seq<char>, i: int) -> Option<int>
    decreases s.len() - i,
{
    if i < 0 || i >= s.len() {
        None
    } else if starts_word(s, i) && has_prefix(s.subrange(i, word_end(s, i)), p) {
        Some(i)
    } else {
        first_word_with(s, p, i + 1)
    }
}

proof fn lemma_word_end_bounds(s: Seq<char>, i: int)
    requires
        0 <= i <= s.len(),
    ensures
        i <= word_end(s, i) <= s.len(),
        forall|k: int| i <= k < word_end(s, i) ==> !is_white_space(#[trigger] s[k]),
    decreases s.len() - i,
{
    if i < s.len() && !is_white_space(s[i]) {
        lemma_word_end_bounds(s, i + 1);
    }
}

/// The end of the word that runs through position `i` of `s`.
fn word_end_at(s: &str, n: usize, i: usize) -> (e: usize)
    requires
        n == s@.len(),
        i <= n,
    ensures
        e == word_end(s@, i as int),
        i <= e <= n,
{
    proof {
        lemma_word_end_bounds(s@, i as int);
    }
    let mut j: usize = i;
    while j < n && !white_space(s.get_char(j))
        invariant
            n == s@.len(),
            i <= j <= n,
            word_end(s@, i as int) == word_end(s@, j as int),
        decreases n - j,
    {
        j = j + 1;
    }
    j
}

/// Whether the characters of `s` from `i` to `e` begin with `p` followed by `tail`.
fn begins_with_then(s: &str, i: usize, e: usize, p: &str, tail: char) -> (r: bool)
    requires
        i <= e <= s@.len(),
        s@.len() <= usize::MAX,
    ensures
        r == has_prefix(s@.subrange(i as int, e as int), p@.push(tail)),
{
    let m = p.unicode_len();
    if m >= e - i {
        return false;
    }
    let ok = occurs_at(s, p, i) && s.get_char(i + m) == tail;
    proof {
        let w = s@.subrange(i as int, e as int);
        let q = p@.push(tail);
        if ok {
            assert(w.subrange(0, q.len() as int) =~= q);
        } else if has_prefix(w, q) {
            assert(s@.subrange(i as int, i + m) =~= w.subrange(0, q.len() as int).subrange(0, m as int));
            assert(q.subrange(0, m as int) =~= p@);
            assert(w[m as int] == q[m as int]);
        }
    }
    ok
}

/// The rest of the first whitespace-separated word of `s` that begins with
/// `name` followed by `tail`, after that prefix.
pub open spec fn tagged_word(s: Seq<char>, name: Seq<char>, tail: char) -> Option<Seq<char>> {
    let p = name.push(tail);
    match first_word_with(s, p, 0) {
        Some(i) => Some(s.subrange(i + p.len(), word_end(s, i))),
        None => None,
    }
}

/// The rest of the first word of `s` that begins with `name` and `tail`.
pub fn tagged_word_text<'a>(s: &'a str, name: &str, tail: char) -> (r: Option<&'a str>)
    ensures
        match r {
            Some(t) => tagged_word(s@, name@, tail) == Some(t@),
            None => tagged_word(s@, name@, tail) is None,
        },
{
    let n = s.unicode_len();
    let ghost q = name@.push(tail);
    let mut i: usize = 0;
    while i < n
        invariant
            n == s@.len(),
            i <= n,
            q == name@.push(tail),
            first_word_with(s@, q, 0) == first_word_with(s@, q, i as int),
        decreases n - i,
    {
        let c = s.get_char(i);
        let starts = !white_space(c) && (i == 0 || white_space(s.get_char(i - 1)));
        if starts {
            let e = word_end_at(s, n, i);
            if begins_with_then(s, i, e, name, tail) {
                proof {
                    lemma_word_end_bounds(s@, i as int);
                }
                let m = name.unicode_len();
                return Some(s.substring_char(i + m + 1, e));
            }
        }
        i = i + 1;
    }
    None
}

/// The value of an ASCII digit.
pub open spec fn digit_value(c: char) -> int {
    c as int - '0' as int
}

/// Whether every character of `s` is an ASCII digit.
pub open spec fn all_digits(s: Seq<char>) -> bool {
    forall|k: int| 0 <= k < s.len() ==> '0' <= #[trigger] s[k] && s[k] <= '9'
}

/// The number that the digits `s` spell in base ten.
pub open spec fn digits_value(s: Seq<char>) -> nat
    decreases s.len(),
{
    if s.len() == 0 {
        0
    } else {
        (digits_value(s.drop_last()) * 10 + digit_value(s.last())) as nat
    }
}

/// The digits of an unsigned number: `s` without a leading `+`.
pub open spec fn unsigned_digits(s: Seq<char>) -> Seq<char> {
    if s.len() > 0 && s[0] == '+' { s.subrange(1, s.len() as int) } else { s }
}

/// The unsigned number `s` spells: an optional `+` and at least one digit.
pub open spec fn unsigned_value(s: Seq<char>) -> Option<nat> {
    let d = unsigned_digits(s);
    if d.len() > 0 && all_digits(d) {
        Some(digits_value(d))
    } else {
        None
    }
}

/// `s` read as a `usize` in base ten, as `str::parse` reads one: `None` when
/// `s` is not an optional `+` and digits, or when the number exceeds `usize::MAX`.
pub open spec fn usize_value(s: Seq<char>) -> Option<usize> {
    match unsigned_value(s) {
        Some(v) => if v <= usize::MAX { Some(v as usize) } else { None },
        None => None,
    }
}

/// Reads `s` as an unsigned decimal.
pub fn parse_usize(s: &str) -> (r: Option<usize>)
    ensures
        r == usize_value(s@),
{
    let n = s.unicode_len();
    let start: usize = if n > 0 && s.get_char(0) == '+' { 1 } else { 0 };
    let ghost d = unsigned_digits(s@);
    assert(d =~= s@.subrange(start as int, n as int));
    if start == n {
        return None;
    }
    let mut acc: usize = 0;
    let mut overflow = false;
    let mut i: usize = start;
    while i < n
        invariant
            n == s@.len(),
            start < n,
            start <= i <= n,
            d == s@.subrange(start as int, n as int),
            d == unsigned_digits(s@),
            all_digits(s@.subrange(start as int, i as int)),
            !overflow ==> acc == digits_value(s@.subrange(start as int, i as int)),
            overflow ==> digits_value(s@.subrange(start as int, i as int)) > usize::MAX,
        decreases n - i,
    {
        let c = s.get_char(i);
        let ghost before = s@.subrange(start as int, i as int);
        let ghost after = s@.subrange(start as int, i + 1);
        assert(after.drop_last() =~= before);
        assert(after.last() == c);
        if c < '0' || c > '9' {
            assert(d[i - start] == c);
            assert(!all_digits(d));
            return None;
        }
        let v = (c as u32 - '0' as u32) as usize;
        assert(v == digit_value(c));
        assert(digits_value(after) == digits_value(before) * 10 + v);
        assert(all_digits(after)) by {
            assert forall|k: int| 0 <= k < after.len() implies '0' <= #[trigger] after[k] && after[k] <= '9' by {
                if k < before.len() {
                    assert(after[k] == before[k]);
                }
            }
        }
        if !overflow {
            match acc.checked_mul(10) {
                Some(t) => match t.checked_add(v) {
                    Some(u) => {
                        acc = u;
                    },
                    None => {
                        overflow = true;
                    },
                },
                None => {
                    overflow = true;
                    assert(digits_value(before) * 10 + v > usize::MAX) by (nonlinear_arith)
                        requires
                            digits_value(before) * 10 > usize::MAX,
                            v >= 0,
                    ;
                },
            }
        } else {
            assert(digits_value(before) * 10 + v >= digits_value(before)) by (nonlinear_arith)
                requires
                    v >= 0,
            ;
        }
        i = i + 1;
    }
    assert(s@.subrange(start as int, n as int) == d);
    if overflow {
        None
    } else {
        Some(acc)
    }
}

/// `s` with every trailing repetition of `suffix` removed.
pub open spec fn without_suffixes(s: Seq<char>, suffix: Seq<char>) -> Seq<char>
    decreases s.len(),
{
    if suffix.len() > 0 && suffix.len() <= s.len() && s.subrange(s.len() - suffix.len(), s.len() as int) == suffix {
        without_suffixes(s.subrange(0, s.len() - suffix.len()), suffix)
    } else {
        s
    }
}

/// Removes every trailing repetition of `suffix` from `s`.
pub fn trim_suffixes<'a>(s: &'a str, suffix: &str) -> (r: &'a str)
    ensures
        r@ == without_suffixes(s@, suffix@),
{
    let m = suffix.unicode_len();
    let n = s.unicode_len();
    if m == 0 {
        return s;
    }
    let mut end: usize = n;
    assert(s@.subrange(0, n as int) =~= s@);
    while m <= end && occurs_at(s, suffix, end - m)
        invariant
            n == s@.len(),
            m == suffix@.len(),
            m > 0,
            end <= n,
            without_suffixes(s@, suffix@) == without_suffixes(s@.subrange(0, end as int), suffix@),
        decreases end,
    {
        proof {
            let t = s@.subrange(0, end as int);
            assert(t.subrange(t.len() - m, t.len() as int) =~= s@.subrange(end - m, end as int));
            assert(t.subrange(0, t.len() - m) =~= s@.subrange(0, end - m));
        }
        end = end - m;
    }
    proof {
        let t = s@.subrange(0, end as int);
        if m <= end {
            assert(t.subrange(t.len() - m, t.len() as int) =~= s@.subrange(end - m, end as int));
        }
        assert(s@.subrange(0, n as int) =~= s@);
    }
    s.substring_char(0, end)
}

proof fn lemma_digit_char_value(d: int)
    requires
        0 <= d < 10,
    ensures
        '0' <= digit_char(d) <= '9',
        digit_value(digit_char(d)) == d,
{
}

proof fn lemma_decimal_digits(n: nat)
    ensures
        decimal(n).len() > 0,
        all_digits(decimal(n)),
        digits_value(decimal(n)) == n,
    decreases n,
{
    if n < 10 {
        lemma_digit_char_value(n as int);
        assert(decimal(n).drop_last() =~= Seq::<char>::empty());
        assert(digits_value(Seq::<char>::empty()) == 0);
        assert(decimal(n).last() == digit_char(n as int));
    } else {
        lemma_decimal_digits(n / 10);
        lemma_digit_char_value((n % 10) as int);
        let d = decimal(n);
        assert(d.drop_last() =~= decimal(n / 10));
        assert(d.last() == digit_char((n % 10) as int));
        assert(n == (n / 10) * 10 + n % 10);
        assert forall|k: int| 0 <= k < d.len() implies '0' <= #[trigger] d[k] && d[k] <= '9' by {
            if k < d.len() - 1 {
                assert(d[k] == decimal(n / 10)[k]);
            }
        }
    }
}

/// A number written in decimal reads back as itself: `usize_value` of the
/// decimal digits of `n` is `n`.
pub proof fn lemma_decimal_reads_back(n: usize)
    ensures
        usize_value(decimal(n as nat)) == Some(n),
{
    lemma_decimal_digits(n as nat);
    lemma_digit_char_value(0);
    let d = decimal(n as nat);
    assert('0' <= d[0] && d[0] <= '9');
    assert(unsigned_digits(d) == d);
}

} // verus!
