//! Trade limiter: a per-agent circuit breaker with a hard cap on fills.

use vstd::prelude::*;

verus! {

/// Whether a limiter with cap `max` (0 = unlimited) that has recorded
/// `count` fills still lets its agent trade.
pub open spec fn permits(count: nat, max: nat) -> bool {
    max == 0 || count < max
}

/// A call on a trade limiter.
#[derive(Clone, Copy, Debug, PartialEq, Eq, Structural)]
pub enum LimiterCall {
    TryTrade,
    RecordFill,
    TradeCount,
    MaxTrades,
}

/// Per-agent trade counter with a hard cap.
///
/// Once `max_trades` is reached, `try_trade()` returns `false` and the agent
/// should produce a Hold intent. A cap of zero means "unlimited".
pub struct TradeLimiter {
    agent_id: String,
    trade_count: u32,
    max_trades: u32,
}

impl TradeLimiter {
    /// The agent this limiter belongs to.
    pub closed spec fn spec_agent_id(&self) -> Seq<char> {
        self.agent_id@
    }

    /// Fills recorded so far.
    pub closed spec fn spec_trade_count(&self) -> nat {
        self.trade_count as nat
    }

    /// The cap on fills (0 = unlimited).
    pub closed spec fn spec_max_trades(&self) -> nat {
        self.max_trades as nat
    }

    /// The limiter once one more fill has been recorded.
    pub closed spec fn after_fill(self) -> Self {
        TradeLimiter { trade_count: (self.trade_count + 1) as u32, ..self }
    }

    /// One more fill adds one to the count (below the count's limit) and
    /// keeps the cap and the agent.
    pub proof fn lemma_after_fill(self)
        ensures
            self.spec_trade_count() < u32::MAX ==> self.after_fill().spec_trade_count() == self.spec_trade_count() + 1,
            self.after_fill().spec_max_trades() == self.spec_max_trades(),
            self.after_fill().spec_agent_id() == self.spec_agent_id(),
    {
    }

    /// The limiter after `call`: only a recorded fill changes it.
    pub open spec fn after_call(self, call: LimiterCall) -> Self {
        match call {
            LimiterCall::RecordFill => self.after_fill(),
            _ => self,
        }
    }

    /// Whether another trade is permitted in this state.
    pub open spec fn allows(&self) -> bool {
        permits(self.spec_trade_count(), self.spec_max_trades())
    }

    pub fn new(agent_id: &str, max_trades: u32) -> (r: Self)
        ensures
            r.spec_agent_id() == agent_id@,
            r.spec_trade_count() == 0,
            r.spec_max_trades() == max_trades,
    {
        TradeLimiter { agent_id: agent_id.to_owned(), trade_count: 0, max_trades }
    }

    /// Returns `true` if the agent is still allowed to trade.
    pub fn try_trade(&self) -> (r: bool)
        ensures
            r == self.allows(),
    {
        if self.max_trades == 0 {
            return true;
        }
        self.trade_count < self.max_trades
    }

    /// Record a successful fill.
    pub fn record_fill(&mut self)
        requires
            old(self).spec_trade_count() < u32::MAX,
        ensures
            final(self).spec_trade_count() == old(self).spec_trade_count() + 1,
            final(self).spec_max_trades() == old(self).spec_max_trades(),
            final(self).spec_agent_id() == old(self).spec_agent_id(),
            *final(self) == old(self).after_fill(),
    {
        self.trade_count = self.trade_count + 1;
    }

    /// Current trade count.
    pub fn trade_count(&self) -> (r: u32)
        ensures
            r == self.spec_trade_count(),
    {
        self.trade_count
    }

    /// Max trades (0 = unlimited).
    pub fn max_trades(&self) -> (r: u32)
        ensures
            r == self.spec_max_trades(),
    {
        self.max_trades
    }
}

/// A limiter with cap `max > 0` lets through exactly `max` trades: it
/// permits every count below the cap, and once the cap is reached no number
/// of further fills reopens it. A cap of zero never blocks.
pub proof fn lemma_cap_is_exact(max: nat, count: nat, extra: nat)
    ensures
        max > 0 && count < max ==> permits(count, max),
        max > 0 && count >= max ==> !permits(count + extra, max),
        max == 0 ==> permits(count, max),
{
}

/// The limiter after the calls `calls`, in order, starting from `l`.
pub open spec fn after_calls(l: TradeLimiter, calls: Seq<LimiterCall>) -> TradeLimiter
    decreases calls.len(),
{
    if calls.len() == 0 {
        l
    } else {
        after_calls(l, calls.drop_last()).after_call(calls.last())
    }
}

/// How many of `calls` record a fill.
pub open spec fn fill_count(calls: Seq<LimiterCall>) -> nat
    decreases calls.len(),
{
    if calls.len() == 0 {
        0
    } else {
        fill_count(calls.drop_last()) + if calls.last() == LimiterCall::RecordFill { 1nat } else { 0nat }
    }
}

/// Over any sequence of calls, a limiter keeps its cap and its agent: from
/// `TradeLimiter::new(id, m)`, `max_trades()` is `m` forever (0 meaning
/// unlimited).
pub proof fn lemma_cap_never_changes(l: TradeLimiter, calls: Seq<LimiterCall>)
    ensures
        after_calls(l, calls).spec_max_trades() == l.spec_max_trades(),
        after_calls(l, calls).spec_agent_id() == l.spec_agent_id(),
    decreases calls.len(),
{
    if calls.len() > 0 {
        lemma_cap_never_changes(l, calls.drop_last());
    }
}

/// Over any sequence of calls, a limiter counts every fill, past its cap
/// too: after `calls` starting from `l`, the count is `l`'s count plus the
/// number of fills recorded. From `TradeLimiter::new(id, m)`,
/// `trade_count()` is then the number of fills. (A `u32` holds the count,
/// so the fills recorded fit in one.)
pub proof fn lemma_counts_every_fill(l: TradeLimiter, calls: Seq<LimiterCall>)
    requires
        l.spec_trade_count() + fill_count(calls) <= u32::MAX,
    ensures
        after_calls(l, calls).spec_trade_count() == l.spec_trade_count() + fill_count(calls),
        after_calls(l, calls).spec_max_trades() == l.spec_max_trades(),
        after_calls(l, calls).spec_agent_id() == l.spec_agent_id(),
    decreases calls.len(),
{
    lemma_cap_never_changes(l, calls);
    if calls.len() > 0 {
        lemma_counts_every_fill(l, calls.drop_last());
    }
}

/// A cap of zero never blocks; any other cap permits a trade exactly while
/// fewer fills than the cap are recorded.
pub proof fn lemma_permits_cases(count: nat, max: nat)
    ensures
        max == 0 ==> permits(count, max),
        max > 0 ==> (permits(count, max) <==> count < max),
        max > 0 && count >= max ==> !permits(count + 1, max),
{
}

} // verus!
