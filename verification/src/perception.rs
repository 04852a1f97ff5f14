//! Perception vocabulary and the event-trace arithmetic the perception
//! layers share: which slots of the 64-entry trace hold the events to
//! compare or to show, and how event kinds and model answers are named.

use vstd::prelude::*;
use crate::llm_config::same_text;
use crate::text::{find_from, find_text, lemma_find_from_found};
use vstd::string::StrSliceExecFns;

verus! {

/// Number of entries in the context window's event trace.
pub const TRACE_SLOTS: u64 = 64;

/// Which layer produced a perception decision.
#[derive(Clone, Copy, Debug, PartialEq, Eq, Structural)]
pub enum RoutingLayer {
    Rule,
    SmallLlm,
    LargeLlm,
}

/// A trading action proposed by a language model.
#[derive(Clone, Copy, Debug, PartialEq, Eq, Structural)]
pub enum LlmAction {
    Buy,
    Sell,
    Hold,
}

/// The action each answer keyword names.
pub open spec fn action_for(word: Seq<char>) -> Option<LlmAction> {
    if word == "BUY"@ {
        Some(LlmAction::Buy)
    } else if word == "SELL"@ {
        Some(LlmAction::Sell)
    } else if word == "HOLD"@ {
        Some(LlmAction::Hold)
    } else {
        None
    }
}

impl LlmAction {
    /// The action a model's `"action"` field names; any other word is no action.
    pub fn from_keyword(word: &str) -> (r: Option<LlmAction>)
        ensures
            r == action_for(word@),
    {
        proof {
            reveal_strlit("BUY");
            reveal_strlit("SELL");
            reveal_strlit("HOLD");
        }
        if same_text(word, "BUY") {
            Some(LlmAction::Buy)
        } else if same_text(word, "SELL") {
            Some(LlmAction::Sell)
        } else if same_text(word, "HOLD") {
            Some(LlmAction::Hold)
        } else {
            None
        }
    }
}

/// The position of the last `c` in `s` before position `i`.
pub open spec fn last_before(s: Seq<char>, c: char, i: int) -> Option<int>
    decreases i,
{
    if i <= 0 {
        None
    } else if s[i - 1] == c {
        Some(i - 1)
    } else {
        last_before(s, c, i - 1)
    }
}

proof fn lemma_last_before_found(s: Seq<char>, c: char, i: int)
    requires
        i <= s.len(),
    ensures
        match last_before(s, c, i) {
            Some(j) => 0 <= j < i && s[j] == c,
            None => true,
        },
    decreases i,
{
    if i > 0 && s[i - 1] != c {
        lemma_last_before_found(s, c, i - 1);
    }
}

/// The JSON object of a model's reply, which may come wrapped in other
/// text such as a markdown fence: from the first `{` to the last `}`. None
/// when the reply holds no `{`, no `}`, or no text between them because its
/// last `}` comes before its first `{` (with a `}` right before the first
/// `{`, the object is the empty text).
pub open spec fn json_object_text(reply: Seq<char>) -> Option<Seq<char>> {
    match (find_from(reply, seq!['{'], 0), last_before(reply, '}', reply.len() as int)) {
        (Some(a), Some(b)) => if a <= b + 1 {
            Some(reply.subrange(a, b + 1))
        } else {
            None
        },
        _ => None,
    }
}

/// The JSON object of a model's reply.
pub fn json_object(reply: &str) -> (r: Option<&str>)
    ensures
        match r {
            Some(t) => json_object_text(reply@) == Some(t@),
            None => json_object_text(reply@) is None,
        },
{
    proof {
        reveal_strlit("{");
    }
    assert("{"@ =~= seq!['{']);
    let n = reply.unicode_len();
    let start = match find_text(reply, "{") {
        Some(a) => a,
        None => return None,
    };
    proof {
        lemma_find_from_found(reply@, seq!['{'], 0);
        lemma_last_before_found(reply@, '}', n as int);
    }
    let mut i: usize = n;
    while i > 0 && reply.get_char(i - 1) != '}'
        invariant
            n == reply@.len(),
            i <= n,
            last_before(reply@, '}', n as int) == last_before(reply@, '}', i as int),
        decreases i,
    {
        i = i - 1;
    }
    if i == 0 || start > i {
        return None;
    }
    Some(reply.substring_char(start, i))
}

/// The text of the string field `key` of the JSON document `json`, as
/// `serde_json` reads it: None when the document does not parse, is not an
/// object, has no such field, or the field is not a string.
pub uninterp spec fn json_text_field(json: Seq<char>, key: Seq<char>) -> Option<Seq<char>>;

/// Calls `serde_json::from_str` into a `serde_json::Value`, then
/// `Value::get(key)` and `Value::as_str`. Claimed: the result depends on
/// `json` and `key` alone and is named `json_text_field`; what the parser
/// accepts is left unsaid.
#[verifier::external_body]
fn json_string_field(json: &str, key: &str) -> (r: Option<String>)
    ensures
        match r {
            Some(t) => json_text_field(json@, key@) == Some(t@),
            None => json_text_field(json@, key@) is None,
        },
{
    let parsed: serde_json::Value = serde_json::from_str(json).ok()?;
    parsed.get(key).and_then(|v| v.as_str()).map(|t| t.to_string())
}

/// The action a reply's `"action"` field names, given that field's text.
pub open spec fn action_of_field(field: Option<Seq<char>>) -> Option<LlmAction> {
    match field {
        Some(word) => action_for(word),
        None => None,
    }
}

/// The action named by a reply, given the text of its `"action"` field:
/// none without the field or for a word other than `BUY`, `SELL`, `HOLD`.
pub fn action_from_field(field: Option<&str>) -> (r: Option<LlmAction>)
    ensures
        r == action_of_field(match field { Some(t) => Some(t@), None => None }),
{
    match field {
        Some(word) => LlmAction::from_keyword(word),
        None => None,
    }
}

/// The action a model's reply names: the `"action"` field of its JSON
/// object, read as a keyword.
pub open spec fn reply_action_of(reply: Seq<char>) -> Option<LlmAction> {
    match json_object_text(reply) {
        Some(j) => action_of_field(json_text_field(j, "action"@)),
        None => None,
    }
}

/// The action a model's reply names; None without a JSON object, when the
/// object has no string `"action"`, or for an unknown action.
pub fn reply_action(reply: &str) -> (r: Option<LlmAction>)
    ensures
        r == reply_action_of(reply@),
{
    let json = match json_object(reply) {
        Some(j) => j,
        None => return None,
    };
    let field = json_string_field(json, "action");
    match field {
        Some(t) => action_from_field(Some(t.as_str())),
        None => action_from_field(None),
    }
}

/// The reasoning a model's reply gives: the `"reasoning"` field of its JSON
/// object, or the empty text.
pub open spec fn reply_reasoning_of(reply: Seq<char>) -> Seq<char> {
    match json_object_text(reply) {
        Some(j) => match json_text_field(j, "reasoning"@) {
            Some(t) => t,
            None => Seq::empty(),
        },
        None => Seq::empty(),
    }
}

/// The reasoning a model's reply gives, or the empty text.
pub fn reply_reasoning(reply: &str) -> (r: String)
    ensures
        r@ == reply_reasoning_of(reply@),
{
    let json = match json_object(reply) {
        Some(j) => j,
        None => return String::new(),
    };
    match json_string_field(json, "reasoning") {
        Some(t) => t,
        None => String::new(),
    }
}

/// The name each event kind is shown under in prompts.
pub open spec fn event_kind_name(event_type: u8) -> Seq<char> {
    if event_type == 0 {
        "QUOTE"@
    } else if event_type == 1 {
        "TRADE"@
    } else if event_type == 2 {
        "FILL"@
    } else if event_type == 3 {
        "ALERT"@
    } else if event_type == 4 {
        "RISK"@
    } else {
        "UNKNOWN"@
    }
}

/// Builds prompts from a context window.
pub struct PromptTemplate;

impl PromptTemplate {
    /// The name an event kind is shown under.
    pub fn event_kind(event_type: u8) -> (r: &'static str)
        ensures
            r@ == event_kind_name(event_type),
    {
        match event_type {
            0 => "QUOTE",
            1 => "TRADE",
            2 => "FILL",
            3 => "ALERT",
            4 => "RISK",
            _ => "UNKNOWN",
        }
    }

    /// Trace slots of the events shown in a prompt, oldest first: the last
    /// (at most 64) of the `count` events recorded.
    pub fn trace_slots(count: u64) -> (r: Vec<usize>)
        ensures
            r@.len() == if count < 64 { count as int } else { 64 },
            forall|i: int| 0 <= i < r@.len() ==> #[trigger] r@[i] as int == (count - r@.len() + i) % 64,
    {
        let start: u64 = if count > TRACE_SLOTS { count - TRACE_SLOTS } else { 0 };
        let mut out: Vec<usize> = Vec::new();
        let mut i: u64 = start;
        while i < count
            invariant
                start <= i <= count,
                start == if count > 64 { count - 64 } else { 0 },
                out@.len() == i - start,
                forall|k: int| 0 <= k < out@.len() ==> #[trigger] out@[k] as int == (start + k) % 64,
            decreases count - i,
        {
            out.push((i % TRACE_SLOTS) as usize);
            i = i + 1;
        }
        out
    }
}

/// Trace slots of the most recent events, newest first: the last `limit`
/// of the `count` recorded (all of them when fewer were recorded).
pub fn newest_slots(count: u64, limit: u64) -> (r: Vec<usize>)
    ensures
        r@.len() == if count < limit { count as int } else { limit as int },
        forall|i: int| 0 <= i < r@.len() ==> #[trigger] r@[i] as int == (count - 1 - i) % 64,
{
    let n: u64 = if count < limit { count } else { limit };
    let mut out: Vec<usize> = Vec::new();
    let mut i: u64 = 0;
    while i < n
        invariant
            n == if count < limit { count } else { limit },
            i <= n,
            out@.len() == i,
            forall|k: int| 0 <= k < out@.len() ==> #[trigger] out@[k] as int == (count - 1 - k) % 64,
        decreases n - i,
    {
        out.push(((count - 1 - i) % TRACE_SLOTS) as usize);
        i = i + 1;
    }
    out
}

/// Trace slots compared to measure momentum after `count` events: the most
/// recent event against the one ten events earlier (the first slot while
/// fewer than eleven events were recorded). No momentum below two events.
pub open spec fn momentum_slots(count: u64) -> Option<(int, int)> {
    if count < 2 {
        None
    } else {
        Some(((count - 1) % 64, if count > 10 { (count - 10) % 64 } else { 0 }))
    }
}

/// The trace slots (recent, old) whose prices measure momentum.
pub fn momentum_pair(count: u64) -> (r: Option<(usize, usize)>)
    ensures
        match r {
            Some((recent, old)) => momentum_slots(count) == Some((recent as int, old as int)),
            None => momentum_slots(count) is None,
        },
{
    if count < 2 {
        return None;
    }
    let recent = ((count - 1) % TRACE_SLOTS) as usize;
    let old = if count > 10 {
        ((count - 10) % TRACE_SLOTS) as usize
    } else {
        0
    };
    Some((recent, old))
}

/// The trace slot of the `index`-th oldest of the `count` recorded events,
/// after `trace_len` writes: counted from the oldest slot once the trace has
/// wrapped, from slot 0 before. None past the recorded events.
pub open spec fn chronological_slot(trace_len: u64, count: u64, index: u64) -> Option<int> {
    if index >= count {
        None
    } else {
        let start = if trace_len >= 64 { trace_len % 64 } else { 0 };
        Some((start + index) % 64)
    }
}

/// The trace slot of the `index`-th oldest recorded event.
pub fn event_slot(trace_len: u64, count: u64, index: u64) -> (r: Option<usize>)
    ensures
        match r {
            Some(slot) => chronological_slot(trace_len, count, index) == Some(slot as int),
            None => chronological_slot(trace_len, count, index) is None,
        },
{
    if index >= count {
        return None;
    }
    let start: u64 = if trace_len >= TRACE_SLOTS { trace_len % TRACE_SLOTS } else { 0 };
    Some(((start + index % TRACE_SLOTS) % TRACE_SLOTS) as usize)
}

/// The events a prompt shows are the recorded events in the order they
/// were recorded: after `trace_len` writes, the `i`-th slot that
/// `PromptTemplate::trace_slots` lists is the slot of the `i`-th oldest
/// recorded event.
pub proof fn lemma_prompt_follows_chronology(trace_len: u64, i: u64)
    requires
        i < (if trace_len < 64 { trace_len } else { 64 }),
    ensures
        ({
            let shown = if trace_len < 64 { trace_len as int } else { 64 };
            chronological_slot(trace_len, shown as u64, i) == Some((trace_len - shown + i) % 64)
        }),
{
    if trace_len >= 64 {
        vstd::arithmetic::div_mod::lemma_add_mod_noop(trace_len as int, i as int, 64);
        vstd::arithmetic::div_mod::lemma_mod_sub_multiples_vanish(trace_len + i, 64);
        assert((i as int) % 64 == i);
    }
}

/// How many events of kind `kind` the kinds `s` hold.
pub open spec fn kind_count(s: Seq<u8>, kind: u8) -> nat
    decreases s.len(),
{
    if s.len() == 0 {
        0
    } else {
        kind_count(s.drop_last(), kind) + if s.last() == kind { 1nat } else { 0nat }
    }
}

/// Event counts by kind: quotes, trades, fills, alerts, risk alerts.
pub struct EventCounts {
    pub quotes: usize,
    pub trades: usize,
    pub fills: usize,
    pub alerts: usize,
    pub risk_alerts: usize,
}

proof fn lemma_kind_count_bound(s: Seq<u8>, kind: u8)
    ensures
        kind_count(s, kind) <= s.len(),
    decreases s.len(),
{
    if s.len() > 0 {
        lemma_kind_count_bound(s.drop_last(), kind);
    }
}

/// Counts the recorded events by kind; kinds above 4 are not counted.
pub fn count_event_types(kinds: &Vec<u8>) -> (r: EventCounts)
    ensures
        r.quotes == kind_count(kinds@, 0),
        r.trades == kind_count(kinds@, 1),
        r.fills == kind_count(kinds@, 2),
        r.alerts == kind_count(kinds@, 3),
        r.risk_alerts == kind_count(kinds@, 4),
{
    let mut c = EventCounts { quotes: 0, trades: 0, fills: 0, alerts: 0, risk_alerts: 0 };
    let mut i: usize = 0;
    while i < kinds.len()
        invariant
            i <= kinds@.len(),
            c.quotes == kind_count(kinds@.subrange(0, i as int), 0),
            c.trades == kind_count(kinds@.subrange(0, i as int), 1),
            c.fills == kind_count(kinds@.subrange(0, i as int), 2),
            c.alerts == kind_count(kinds@.subrange(0, i as int), 3),
            c.risk_alerts == kind_count(kinds@.subrange(0, i as int), 4),
        decreases kinds@.len() - i,
    {
        let ghost prefix = kinds@.subrange(0, i + 1);
        proof {
            assert(prefix.drop_last() =~= kinds@.subrange(0, i as int));
            lemma_kind_count_bound(kinds@.subrange(0, i as int), 0);
            lemma_kind_count_bound(kinds@.subrange(0, i as int), 1);
            lemma_kind_count_bound(kinds@.subrange(0, i as int), 2);
            lemma_kind_count_bound(kinds@.subrange(0, i as int), 3);
            lemma_kind_count_bound(kinds@.subrange(0, i as int), 4);
        }
        match kinds[i] {
            0 => c.quotes = c.quotes + 1,
            1 => c.trades = c.trades + 1,
            2 => c.fills = c.fills + 1,
            3 => c.alerts = c.alerts + 1,
            4 => c.risk_alerts = c.risk_alerts + 1,
            _ => {},
        }
        i = i + 1;
    }
    assert(kinds@.subrange(0, i as int) =~= kinds@);
    c
}

} // verus!
