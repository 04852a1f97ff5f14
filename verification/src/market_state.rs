//! The market-state line that the encoder writes into every context window:
//! `key:value` fields (`bid:`, `ask:`, `spread:`, `momentum:` ...) separated
//! by spaces or bars. Perception rules, the compiler and the dashboard read
//! prices back out of it; this module finds the text of each value, and the
//! caller reads the number.

use vstd::prelude::*;
use vstd::string::StrSliceExecFns;
use crate::text::{find_from, find_text, has_prefix, lemma_find_from_found, trim_suffixes, without_suffixes};

verus! {

/// What ends the value of a field.
#[derive(Clone, Copy, Debug, PartialEq, Eq, Structural)]
pub enum FieldEnd {
    /// The value runs to the next space.
    Space,
    /// The value runs to the next space or bar.
    SpaceOrBar,
}

/// Whether `c` ends a value.
pub open spec fn ends_value(c: char, end: FieldEnd) -> bool {
    c == ' ' || (end == FieldEnd::SpaceOrBar && c == '|')
}

/// Where the value that starts at position `i` of `s` ends.
pub open spec fn value_end(s: Seq<char>, i: int, end: FieldEnd) -> int
    decreases s.len() - i,
{
    if i >= s.len() {
        s.len() as int
    } else if ends_value(s[i], end) {
        i
    } else {
        value_end(s, i + 1, end)
    }
}

proof fn lemma_value_end_bounds(s: Seq<char>, i: int, end: FieldEnd)
    requires
        0 <= i <= s.len(),
    ensures
        i <= value_end(s, i, end) <= s.len(),
    decreases s.len() - i,
{
    if i < s.len() && !ends_value(s[i], end) {
        lemma_value_end_bounds(s, i + 1, end);
    }
}

proof fn lemma_value_end_skips(s: Seq<char>, i: int, j: int, end: FieldEnd)
    requires
        0 <= i <= j <= s.len(),
        forall|k: int| i <= k < j ==> !ends_value(#[trigger] s[k], end),
    ensures
        value_end(s, i, end) == value_end(s, j, end),
    decreases j - i,
{
    if i < j {
        lemma_value_end_skips(s, i + 1, j, end);
    }
}

/// The value of the field `key` in `state`: the text after the first
/// occurrence of `key`, up to the end of the value; none where `key` does
/// not occur.
pub open spec fn field_text(state: Seq<char>, key: Seq<char>, end: FieldEnd) -> Option<Seq<char>> {
    match find_from(state, key, 0) {
        Some(i) => Some(state.subrange(i + key.len(), value_end(state, i + key.len(), end))),
        None => None,
    }
}

fn value_end_at(s: &str, n: usize, i: usize, end: FieldEnd) -> (e: usize)
    requires
        n == s@.len(),
        i <= n,
    ensures
        e == value_end(s@, i as int, end),
        i <= e <= n,
{
    proof {
        lemma_value_end_bounds(s@, i as int, end);
    }
    let mut j: usize = i;
    while j < n
        invariant
            n == s@.len(),
            i <= j <= n,
            value_end(s@, i as int, end) == value_end(s@, j as int, end),
        decreases n - j,
    {
        let c = s.get_char(j);
        if c == ' ' || (end == FieldEnd::SpaceOrBar && c == '|') {
            return j;
        }
        j = j + 1;
    }
    j
}

/// The text of the value of field `key` in `state`.
pub fn field_value<'a>(state: &'a str, key: &str, end: FieldEnd) -> (r: Option<&'a str>)
    ensures
        match r {
            Some(v) => field_text(state@, key@, end) == Some(v@),
            None => field_text(state@, key@, end) is None,
        },
{
    match find_text(state, key) {
        Some(i) => {
            proof {
                lemma_find_from_found(state@, key@, 0);
            }
            let n = state.unicode_len();
            let start = i + key.unicode_len();
            let e = value_end_at(state, n, start, end);
            Some(state.substring_char(start, e))
        },
        None => None,
    }
}

/// A value written right after the first occurrence of its key, and ended
/// by a character that ends values or by the end of the state, is the value
/// read back.
pub proof fn lemma_field_reads_back(before: Seq<char>, key: Seq<char>, value: Seq<char>, after: Seq<char>, end: FieldEnd)
    requires
        find_from(before + key + value + after, key, 0) == Some(before.len() as int),
        forall|k: int| 0 <= k < value.len() ==> !ends_value(#[trigger] value[k], end),
        after.len() == 0 || ends_value(after[0], end),
    ensures
        field_text(before + key + value + after, key, end) == Some(value),
{
    let s = before + key + value + after;
    let i = (before.len() + key.len()) as int;
    let j = i + value.len();
    assert forall|k: int| i <= k < j implies !ends_value(#[trigger] s[k], end) by {
        assert(s[k] == value[k - i]);
    }
    lemma_value_end_skips(s, i, j, end);
    if after.len() > 0 {
        assert(s[j] == after[0]);
    }
    assert(s.subrange(i, j) =~= value);
}

/// The spread the mean-reversion agent reads: the `spread:` value, which
/// runs to a space or bar, without its trailing `bps` units.
pub open spec fn spread_text(state: Seq<char>) -> Option<Seq<char>> {
    match field_text(state, "spread:"@, FieldEnd::SpaceOrBar) {
        Some(v) => Some(without_suffixes(v, "bps"@)),
        None => None,
    }
}

/// The text of the spread in basis points, without its `bps` units.
pub fn spread_bps_text(state: &str) -> (r: Option<&str>)
    ensures
        match r {
            Some(v) => spread_text(state@) == Some(v@),
            None => spread_text(state@) is None,
        },
{
    match field_value(state, "spread:", FieldEnd::SpaceOrBar) {
        Some(v) => Some(trim_suffixes(v, "bps")),
        None => None,
    }
}

/// Whether `c` may stand in a price: an ASCII digit or a dot.
pub open spec fn is_price_char(c: char) -> bool {
    ('0' <= c && c <= '9') || c == '.'
}

/// Where the price that starts at position `i` of `s` ends.
pub open spec fn price_end(s: Seq<char>, i: int) -> int
    decreases s.len() - i,
{
    if i >= s.len() {
        s.len() as int
    } else if !is_price_char(s[i]) {
        i
    } else {
        price_end(s, i + 1)
    }
}

proof fn lemma_price_end_bounds(s: Seq<char>, i: int)
    requires
        0 <= i <= s.len(),
    ensures
        i <= price_end(s, i) <= s.len(),
    decreases s.len() - i,
{
    if i < s.len() && is_price_char(s[i]) {
        lemma_price_end_bounds(s, i + 1);
    }
}

fn price_end_at(s: &str, n: usize, i: usize) -> (e: usize)
    requires
        n == s@.len(),
        i <= n,
    ensures
        e == price_end(s@, i as int),
        i <= e <= n,
{
    proof {
        lemma_price_end_bounds(s@, i as int);
    }
    let mut j: usize = i;
    while j < n
        invariant
            n == s@.len(),
            i <= j <= n,
            price_end(s@, i as int) == price_end(s@, j as int),
        decreases n - j,
    {
        let c = s.get_char(j);
        if !(('0' <= c && c <= '9') || c == '.') {
            return j;
        }
        j = j + 1;
    }
    j
}

/// The bid and ask texts the dashboard reads from a market state that
/// begins with `bid:`: the digits and dots right after `bid:`, and those
/// right after the first `ask:`. None when the state does not begin with
/// `bid:` or holds no `ask:`.
pub open spec fn quote_text(state: Seq<char>) -> Option<(Seq<char>, Seq<char>)> {
    if has_prefix(state, "bid:"@) {
        match find_from(state, "ask:"@, 0) {
            Some(a) => Some((state.subrange(4, price_end(state, 4)), state.subrange(a + 4, price_end(state, a + 4)))),
            None => None,
        }
    } else {
        None
    }
}

/// The texts of the bid and ask prices of a market state that begins with `bid:`.
pub fn quote_texts(state: &str) -> (r: Option<(&str, &str)>)
    ensures
        match r {
            Some((b, a)) => quote_text(state@) == Some((b@, a@)),
            None => quote_text(state@) is None,
        },
{
    proof {
        reveal_strlit("bid:");
        reveal_strlit("ask:");
    }
    let n = state.unicode_len();
    if n < 4 || !(state.get_char(0) == 'b' && state.get_char(1) == 'i' && state.get_char(2) == 'd' && state.get_char(3) == ':') {
        proof {
            if n >= 4 && has_prefix(state@, "bid:"@) {
                assert(state@[0] == state@.subrange(0, 4)[0]);
                assert(state@[1] == state@.subrange(0, 4)[1]);
                assert(state@[2] == state@.subrange(0, 4)[2]);
                assert(state@[3] == state@.subrange(0, 4)[3]);
            }
        }
        return None;
    }
    assert(state@.subrange(0, 4) =~= "bid:"@);
    let bid_end = price_end_at(state, n, 4);
    match find_text(state, "ask:") {
        Some(a) => {
            proof {
                lemma_find_from_found(state@, "ask:"@, 0);
            }
            let ask_end = price_end_at(state, n, a + 4);
            Some((state.substring_char(4, bid_end), state.substring_char(a + 4, ask_end)))
        },
        None => None,
    }
}

} // verus!
