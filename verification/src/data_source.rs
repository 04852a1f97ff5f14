//! Log records handed to the dashboard by its data sources.

use vstd::prelude::*;
use vstd::string::StringExecFns;

verus! {

/// A log entry from the data source (agent decision, event, etc.).
pub struct LogEntry {
    pub timestamp: String,
    pub agent_type: LogAgentType,
    pub latency_ms: u64,
    pub summary: String,
}

/// Which kind of agent produced a log entry.
#[derive(Clone, Copy, Debug, PartialEq, Eq, Structural)]
pub enum LogAgentType {
    Perception,
    Strategy,
    Risk,
    Execution,
}

/// The label shown for each kind of agent.
pub open spec fn log_agent_label(t: LogAgentType) -> Seq<char> {
    match t {
        LogAgentType::Perception => "PERCEPTION"@,
        LogAgentType::Strategy => "STRATEGY"@,
        LogAgentType::Risk => "RISK"@,
        LogAgentType::Execution => "EXECUTION"@,
    }
}

impl LogAgentType {
    pub fn label(self) -> (r: &'static str)
        ensures
            r@ == log_agent_label(self),
    {
        match self {
            LogAgentType::Perception => "PERCEPTION",
            LogAgentType::Strategy => "STRATEGY",
            LogAgentType::Risk => "RISK",
            LogAgentType::Execution => "EXECUTION",
        }
    }
}

/// The decimal digit `d`.
pub open spec fn digit_char(d: int) -> char {
    if d == 0 {
        '0'
    } else if d == 1 {
        '1'
    } else if d == 2 {
        '2'
    } else if d == 3 {
        '3'
    } else if d == 4 {
        '4'
    } else if d == 5 {
        '5'
    } else if d == 6 {
        '6'
    } else if d == 7 {
        '7'
    } else if d == 8 {
        '8'
    } else {
        '9'
    }
}

/// A number below 100 written with two digits.
pub open spec fn two_digits(n: int) -> Seq<char> {
    seq![digit_char(n / 10), digit_char(n % 10)]
}

/// The wall-clock time of day `HH:MM:SS` of a Unix timestamp (UTC).
pub open spec fn clock_text(epoch_secs: u64) -> Seq<char> {
    let h = (epoch_secs % 86400) / 3600;
    let m = (epoch_secs % 3600) / 60;
    let s = epoch_secs % 60;
    two_digits(h as int) + seq![':'] + two_digits(m as int) + seq![':'] + two_digits(s as int)
}

pub(crate) fn digit(d: u64) -> (r: &'static str)
    requires
        d < 10,
    ensures
        r@ == seq![digit_char(d as int)],
{
    proof {
        reveal_strlit("0");
        reveal_strlit("1");
        reveal_strlit("2");
        reveal_strlit("3");
        reveal_strlit("4");
        reveal_strlit("5");
        reveal_strlit("6");
        reveal_strlit("7");
        reveal_strlit("8");
        reveal_strlit("9");
    }
    match d {
        0 => "0",
        1 => "1",
        2 => "2",
        3 => "3",
        4 => "4",
        5 => "5",
        6 => "6",
        7 => "7",
        8 => "8",
        _ => "9",
    }
}

fn push_two_digits(s: String, n: u64) -> (r: String)
    requires
        n < 100,
    ensures
        r@ == s@ + two_digits(n as int),
{
    let r = s.concat(digit(n / 10));
    let r = r.concat(digit(n % 10));
    assert(r@ =~= s@ + two_digits(n as int));
    r
}

/// Formats a Unix timestamp as the UTC time of day `HH:MM:SS`.
pub fn format_ts(epoch_secs: u64) -> (r: String)
    ensures
        r@ == clock_text(epoch_secs),
{
    let h = (epoch_secs % 86400) / 3600;
    let m = (epoch_secs % 3600) / 60;
    let s = epoch_secs % 60;
    proof {
        reveal_strlit(":");
        reveal_strlit("");
    }
    let empty = "".to_owned();
    assert(empty@ =~= Seq::<char>::empty());
    let out = push_two_digits(empty, h);
    assert(":"@ =~= seq![':']);
    let out = out.concat(":");
    let out = push_two_digits(out, m);
    let out = out.concat(":");
    let out = push_two_digits(out, s);
    assert(out@ =~= clock_text(epoch_secs));
    out
}

/// The decimal representation of `n`, most significant digit first.
pub open spec fn decimal(n: nat) -> Seq<char>
    decreases n,
{
    if n < 10 {
        seq![digit_char(n as int)]
    } else {
        decimal(n / 10).push(digit_char((n % 10) as int))
    }
}

proof fn lemma_digit_char_injective(a: int, b: int)
    requires
        0 <= a < 10,
        0 <= b < 10,
        digit_char(a) == digit_char(b),
    ensures
        a == b,
{
}

/// Different numbers have different decimal representations.
pub proof fn lemma_decimal_injective(a: nat, b: nat)
    requires
        decimal(a) == decimal(b),
    ensures
        a == b,
    decreases a + b,
{
    if a < 10 && b < 10 {
        assert(decimal(a) == seq![digit_char(a as int)]);
        assert(decimal(b) == seq![digit_char(b as int)]);
        assert(seq![digit_char(a as int)][0] == digit_char(a as int));
        assert(seq![digit_char(b as int)][0] == digit_char(b as int));
        assert(decimal(a)[0] == decimal(b)[0]);
        lemma_digit_char_injective(a as int, b as int);
    } else if a < 10 {
        lemma_decimal_len(b / 10);
        assert(decimal(b).len() >= 2);
    } else if b < 10 {
        lemma_decimal_len(a / 10);
        assert(decimal(a).len() >= 2);
    } else {
        assert(decimal(a).drop_last() =~= decimal(a / 10));
        assert(decimal(b).drop_last() =~= decimal(b / 10));
        lemma_decimal_injective(a / 10, b / 10);
        assert(decimal(a).last() == digit_char((a % 10) as int));
        assert(decimal(b).last() == digit_char((b % 10) as int));
        assert(decimal(a).last() == decimal(b).last());
        lemma_digit_char_injective((a % 10) as int, (b % 10) as int);
    }
}

proof fn lemma_decimal_len(n: nat)
    ensures
        decimal(n).len() >= 1,
    decreases n,
{
    if n >= 10 {
        lemma_decimal_len(n / 10);
    }
}

/// Writes `n` in decimal.
pub fn decimal_string(n: u64) -> (r: String)
    ensures
        r@ == decimal(n as nat),
    decreases n,
{
    if n < 10 {
        let r = digit(n).to_owned();
        r
    } else {
        let prefix = decimal_string(n / 10);
        let r = prefix.concat(digit(n % 10));
        assert(r@ =~= decimal(n as nat));
        r
    }
}

/// A log entry the simulator emits at a tick, before its summary is written.
pub struct ScheduledLog {
    pub timestamp: String,
    pub agent_type: LogAgentType,
    pub latency_ms: u64,
}

/// The simulated wall-clock second of a tick (about ten ticks per second).
pub open spec fn tick_second(tick: u64) -> u64 {
    (1_700_000_000 + tick / 10) as u64
}

/// The agents that log at `tick`, in order, with their latencies: perception
/// on every tick after the first, strategy every 10 ticks, risk every 30
/// ticks or whenever volatility is high, execution every 30 ticks while a
/// position is held.
pub open spec fn log_plan(tick: u64, high_volatility: bool, has_position: bool) -> Seq<(LogAgentType, u64)> {
    let p = if tick > 0 {
        seq![(LogAgentType::Perception, (2 + tick % 7) as u64)]
    } else {
        Seq::empty()
    };
    let s = if tick % 10 == 0 && tick > 0 {
        p.push((LogAgentType::Strategy, (8 + tick % 15) as u64))
    } else {
        p
    };
    let r = if tick % 30 == 0 || high_volatility {
        s.push((LogAgentType::Risk, (3 + tick % 5) as u64))
    } else {
        s
    };
    if tick % 30 == 0 && has_position {
        r.push((LogAgentType::Execution, (1 + tick % 3) as u64))
    } else {
        r
    }
}

/// The log entries due at `tick`, each stamped with the tick's time of day.
pub fn scheduled_logs(tick: u64, high_volatility: bool, has_position: bool) -> (r: Vec<ScheduledLog>)
    ensures
        r@.len() == log_plan(tick, high_volatility, has_position).len(),
        forall|i: int| 0 <= i < r@.len() ==> {
            &&& (#[trigger] r@[i]).agent_type == log_plan(tick, high_volatility, has_position)[i].0
            &&& r@[i].latency_ms == log_plan(tick, high_volatility, has_position)[i].1
            &&& r@[i].timestamp@ == clock_text(tick_second(tick))
        },
{
    let base_ts = 1_700_000_000 + tick / 10;
    let ghost plan = log_plan(tick, high_volatility, has_position);
    let mut out: Vec<ScheduledLog> = Vec::new();
    if tick > 0 {
        out.push(ScheduledLog { timestamp: format_ts(base_ts), agent_type: LogAgentType::Perception, latency_ms: 2 + tick % 7 });
    }
    if tick % 10 == 0 && tick > 0 {
        out.push(ScheduledLog { timestamp: format_ts(base_ts), agent_type: LogAgentType::Strategy, latency_ms: 8 + tick % 15 });
    }
    if tick % 30 == 0 || high_volatility {
        out.push(ScheduledLog { timestamp: format_ts(base_ts), agent_type: LogAgentType::Risk, latency_ms: 3 + tick % 5 });
    }
    if tick % 30 == 0 && has_position {
        out.push(ScheduledLog { timestamp: format_ts(base_ts), agent_type: LogAgentType::Execution, latency_ms: 1 + tick % 3 });
    }
    out
}

} // verus!
