//! The decisions of the rule-based trading agents. Each agent reads one
//! number per cycle (momentum, or the z-score of the price), compares it
//! with its threshold, and steps a small position cycle: enter when the
//! signal is strong and nothing is held, exit when a held position's signal
//! has faded, hold otherwise. The comparisons are made by the caller, on
//! the agent's numbers; what follows from them is decided here.

use vstd::prelude::*;
use crate::intent::IntentType;
use crate::trade_limiter::TradeLimiter;

verus! {

/// Where a signal stands against an agent's threshold.
#[derive(Clone, Copy, Debug, PartialEq, Eq, Structural)]
pub struct SignalReading {
    /// The signal is above the threshold.
    pub above: bool,
    /// The signal is below the negated threshold.
    pub below: bool,
    /// The signal is close enough to zero to close a held position.
    pub faded: bool,
}

/// A step of the position cycle.
#[derive(Clone, Copy, Debug, PartialEq, Eq, Structural)]
pub enum PositionStep {
    /// Open a position.
    Enter,
    /// Close the held position.
    Exit,
    /// Do nothing.
    Stay,
}

/// The step of the position cycle: enter on a strong signal while nothing
/// is held, exit once the signal of a held position has faded.
pub open spec fn position_step(held: bool, r: SignalReading) -> PositionStep {
    if (r.above || r.below) && !held {
        PositionStep::Enter
    } else if held && r.faded {
        PositionStep::Exit
    } else {
        PositionStep::Stay
    }
}

/// Whether a position is held after `step`.
pub open spec fn held_after(held: bool, step: PositionStep) -> bool {
    match step {
        PositionStep::Enter => true,
        PositionStep::Exit => false,
        PositionStep::Stay => held,
    }
}

/// The step of the position cycle for a reading.
pub fn step_position(held: bool, r: SignalReading) -> (s: PositionStep)
    ensures
        s == position_step(held, r),
{
    if (r.above || r.below) && !held {
        PositionStep::Enter
    } else if held && r.faded {
        PositionStep::Exit
    } else {
        PositionStep::Stay
    }
}

/// The cycle never opens a position over a held one and never closes one
/// that is not held: an entry starts from no position and an exit from a
/// held one.
pub proof fn lemma_positions_alternate(held: bool, r: SignalReading)
    ensures
        position_step(held, r) == PositionStep::Enter ==> !held && held_after(held, position_step(held, r)),
        position_step(held, r) == PositionStep::Exit ==> held && !held_after(held, position_step(held, r)),
{
}

/// The position cycle, case by case: with nothing held, a signal beyond
/// the threshold either way opens a position and anything else waits; with
/// a position held, it is closed exactly when the signal has faded, and
/// kept otherwise, however strong the signal is in either direction.
pub proof fn lemma_position_cycle_cases(held: bool, r: SignalReading)
    ensures
        !held && (r.above || r.below) ==> position_step(held, r) == PositionStep::Enter,
        !held && !r.above && !r.below ==> position_step(held, r) == PositionStep::Stay,
        held && r.faded ==> position_step(held, r) == PositionStep::Exit,
        held && !r.faded ==> position_step(held, r) == PositionStep::Stay,
        position_step(held, r) == PositionStep::Exit ==> held && r.faded,
        held_after(held, position_step(held, r)) == if held { !r.faded } else { r.above || r.below },
{
}

/// Why an agent decided what it did.
#[derive(Clone, Copy, Debug, PartialEq, Eq, Structural)]
pub enum Cause {
    /// The agent has used up its trades.
    TradeLimit,
    /// The spread is too wide to trade.
    WideSpread,
    /// A debugging trade was forced.
    Forced,
    /// The position cycle decided.
    Signal,
}

/// What an agent decided in one cycle.
#[derive(Clone, Copy, Debug, PartialEq, Eq, Structural)]
pub struct AgentDecision {
    pub intent: IntentType,
    pub cause: Cause,
}

/// The state of the momentum agent between cycles.
pub struct MomentumState {
    pub position_held: bool,
    /// A debugging trade is to be forced once.
    pub force_trade: bool,
    pub force_triggered: bool,
    /// Fills so far.
    pub trade_count: u32,
    /// Most fills (0 = unlimited).
    pub max_trades: u32,
}

/// The momentum agent's decision in a cycle, and its state after: hold
/// once `max_trades` (if not 0) fills are reached; force one trend-following
/// entry if asked to, while nothing is held; otherwise follow the position
/// cycle, entering with a trend-following intent and exiting with a
/// mean-reversion intent.
pub open spec fn momentum_cycle(s: MomentumState, r: SignalReading) -> (MomentumState, AgentDecision) {
    if s.max_trades > 0 && s.trade_count >= s.max_trades {
        (s, AgentDecision { intent: IntentType::Hold, cause: Cause::TradeLimit })
    } else if s.force_trade && !s.force_triggered && !s.position_held {
        (
            MomentumState { force_triggered: true, position_held: true, ..s },
            AgentDecision { intent: IntentType::TrendFollow, cause: Cause::Forced },
        )
    } else {
        let step = position_step(s.position_held, r);
        (
            MomentumState { position_held: held_after(s.position_held, step), ..s },
            AgentDecision {
                intent: match step {
                    PositionStep::Enter => IntentType::TrendFollow,
                    PositionStep::Exit => IntentType::MeanReversion,
                    PositionStep::Stay => IntentType::Hold,
                },
                cause: Cause::Signal,
            },
        )
    }
}

impl MomentumState {
    /// A fresh agent: nothing held, no fills.
    pub fn new(max_trades: u32, force_trade: bool) -> (r: Self)
        ensures
            !r.position_held,
            r.force_trade == force_trade,
            !r.force_triggered,
            r.trade_count == 0,
            r.max_trades == max_trades,
    {
        MomentumState { position_held: false, force_trade, force_triggered: false, trade_count: 0, max_trades }
    }

    /// Decides one cycle from the reading of the momentum against the threshold.
    pub fn perceive(&mut self, r: SignalReading) -> (d: AgentDecision)
        ensures
            (*final(self), d) == momentum_cycle(*old(self), r),
    {
        if self.max_trades > 0 && self.trade_count >= self.max_trades {
            return AgentDecision { intent: IntentType::Hold, cause: Cause::TradeLimit };
        }
        if self.force_trade && !self.force_triggered && !self.position_held {
            self.force_triggered = true;
            self.position_held = true;
            return AgentDecision { intent: IntentType::TrendFollow, cause: Cause::Forced };
        }
        let step = step_position(self.position_held, r);
        let intent = match step {
            PositionStep::Enter => {
                self.position_held = true;
                IntentType::TrendFollow
            },
            PositionStep::Exit => {
                self.position_held = false;
                IntentType::MeanReversion
            },
            PositionStep::Stay => IntentType::Hold,
        };
        AgentDecision { intent, cause: Cause::Signal }
    }

    /// Counts a successful fill.
    pub fn on_feedback(&mut self, success: bool)
        requires
            success ==> old(self).trade_count < u32::MAX,
        ensures
            *final(self) == (MomentumState {
                trade_count: if success { (old(self).trade_count + 1) as u32 } else { old(self).trade_count },
                ..*old(self)
            }),
    {
        if success {
            self.trade_count = self.trade_count + 1;
        }
    }
}

/// Once the momentum agent has used up its trades, every cycle holds and
/// changes nothing, whatever the market does.
pub proof fn lemma_momentum_limit_is_final(s: MomentumState, r: SignalReading)
    requires
        s.max_trades > 0,
        s.trade_count >= s.max_trades,
    ensures
        momentum_cycle(s, r) == (s, AgentDecision { intent: IntentType::Hold, cause: Cause::TradeLimit }),
{
}

/// The debugging trade is forced at most once: once forced, no later cycle
/// forces another.
pub proof fn lemma_forced_once(s: MomentumState, r: SignalReading)
    requires
        s.force_triggered,
    ensures
        momentum_cycle(s, r).1.cause != Cause::Forced,
        momentum_cycle(s, r).0.force_triggered,
{
}

/// Below its trade cap and with no trade to force, the momentum agent
/// follows its signal: from flat, a strong signal opens a trend-following
/// position; a held position stays held, with a hold, until the momentum
/// fades, and is then closed with a mean-reversion intent; the cap, the
/// count and the forcing flags never change in such a cycle.
pub proof fn lemma_momentum_follows_signal(s: MomentumState, r: SignalReading)
    requires
        s.max_trades == 0 || s.trade_count < s.max_trades,
        !s.force_trade || s.force_triggered || s.position_held,
    ensures
        !s.position_held && (r.above || r.below) ==> momentum_cycle(s, r).1 == (AgentDecision {
            intent: IntentType::TrendFollow,
            cause: Cause::Signal,
        }) && momentum_cycle(s, r).0.position_held,
        s.position_held && !r.faded ==> momentum_cycle(s, r).1 == (AgentDecision {
            intent: IntentType::Hold,
            cause: Cause::Signal,
        }) && momentum_cycle(s, r).0.position_held,
        s.position_held && r.faded ==> momentum_cycle(s, r).1 == (AgentDecision {
            intent: IntentType::MeanReversion,
            cause: Cause::Signal,
        }) && !momentum_cycle(s, r).0.position_held,
        !s.position_held && !r.above && !r.below ==> momentum_cycle(s, r) == (s, AgentDecision {
            intent: IntentType::Hold,
            cause: Cause::Signal,
        }),
        momentum_cycle(s, r).0.trade_count == s.trade_count,
        momentum_cycle(s, r).0.max_trades == s.max_trades,
        momentum_cycle(s, r).0.force_trade == s.force_trade,
        momentum_cycle(s, r).0.force_triggered == s.force_triggered,
{
}

/// A forced trade is taken exactly once, as a trend-following entry, when
/// it is asked for, nothing is held and the cap is not reached.
pub proof fn lemma_force_trade_enters(s: MomentumState, r: SignalReading)
    requires
        s.max_trades == 0 || s.trade_count < s.max_trades,
        s.force_trade,
        !s.force_triggered,
        !s.position_held,
    ensures
        momentum_cycle(s, r).1 == (AgentDecision { intent: IntentType::TrendFollow, cause: Cause::Forced }),
        momentum_cycle(s, r).0.position_held,
        momentum_cycle(s, r).0.force_triggered,
{
}

/// The state of the mean-reversion agent between cycles.
pub struct ReversionState {
    pub position_held: bool,
    pub limiter: TradeLimiter,
}

/// The mean-reversion agent's decision in a cycle, and its state after:
/// hold once the limiter blocks, or while the spread is too wide; otherwise
/// follow the position cycle, entering with a mean-reversion intent and
/// exiting with a hold.
pub open spec fn reversion_cycle(s: ReversionState, r: SignalReading, spread_wide: bool) -> (ReversionState, AgentDecision) {
    if !s.limiter.allows() {
        (s, AgentDecision { intent: IntentType::Hold, cause: Cause::TradeLimit })
    } else if spread_wide {
        (s, AgentDecision { intent: IntentType::Hold, cause: Cause::WideSpread })
    } else {
        let step = position_step(s.position_held, r);
        (
            ReversionState { position_held: held_after(s.position_held, step), ..s },
            AgentDecision {
                intent: if step == PositionStep::Enter { IntentType::MeanReversion } else { IntentType::Hold },
                cause: Cause::Signal,
            },
        )
    }
}

impl ReversionState {
    /// A fresh agent: nothing held, a limiter with no fills.
    pub fn new(agent_id: &str, max_trades: u32) -> (r: Self)
        ensures
            !r.position_held,
            r.limiter.spec_agent_id() == agent_id@,
            r.limiter.spec_trade_count() == 0,
            r.limiter.spec_max_trades() == max_trades,
    {
        ReversionState { position_held: false, limiter: TradeLimiter::new(agent_id, max_trades) }
    }

    /// Decides one cycle from the reading of the z-score against the
    /// threshold and whether the spread is too wide.
    pub fn perceive(&mut self, r: SignalReading, spread_wide: bool) -> (d: AgentDecision)
        ensures
            (*final(self), d) == reversion_cycle(*old(self), r, spread_wide),
    {
        if !self.limiter.try_trade() {
            return AgentDecision { intent: IntentType::Hold, cause: Cause::TradeLimit };
        }
        if spread_wide {
            return AgentDecision { intent: IntentType::Hold, cause: Cause::WideSpread };
        }
        let step = step_position(self.position_held, r);
        match step {
            PositionStep::Enter => {
                self.position_held = true;
                AgentDecision { intent: IntentType::MeanReversion, cause: Cause::Signal }
            },
            PositionStep::Exit => {
                self.position_held = false;
                AgentDecision { intent: IntentType::Hold, cause: Cause::Signal }
            },
            PositionStep::Stay => AgentDecision { intent: IntentType::Hold, cause: Cause::Signal },
        }
    }

    /// Takes the feedback on an order: a fill is counted in the limiter; a
    /// failed order clears the held position, so the agent can enter again.
    pub fn on_feedback(&mut self, success: bool)
        requires
            success ==> old(self).limiter.spec_trade_count() < u32::MAX,
        ensures
            *final(self) == reversion_after_feedback(*old(self), success),
            success ==> final(self).position_held == old(self).position_held,
            !success ==> !final(self).position_held,
            final(self).limiter.spec_agent_id() == old(self).limiter.spec_agent_id(),
            final(self).limiter.spec_max_trades() == old(self).limiter.spec_max_trades(),
            final(self).limiter.spec_trade_count() == old(self).limiter.spec_trade_count() + if success { 1nat } else { 0nat },
    {
        if success {
            self.limiter.record_fill();
        } else {
            self.position_held = false;
        }
    }
}

/// The mean-reversion agent, case by case: at its cap it holds and changes
/// nothing; below its cap a too-wide spread holds and changes nothing;
/// otherwise a strong z-score opens a mean-reversion position from flat,
/// a held position is closed (with a hold) once the z-score has faded and
/// kept (with a hold) until then. Its limiter never changes in a cycle.
pub proof fn lemma_reversion_cases(s: ReversionState, r: SignalReading, spread_wide: bool)
    ensures
        !(s.limiter.spec_max_trades() == 0 || s.limiter.spec_trade_count() < s.limiter.spec_max_trades())
            ==> reversion_cycle(s, r, spread_wide) == (s, AgentDecision {
            intent: IntentType::Hold,
            cause: Cause::TradeLimit,
        }),
        (s.limiter.spec_max_trades() == 0 || s.limiter.spec_trade_count() < s.limiter.spec_max_trades())
            && spread_wide ==> reversion_cycle(s, r, spread_wide) == (s, AgentDecision {
            intent: IntentType::Hold,
            cause: Cause::WideSpread,
        }),
        (s.limiter.spec_max_trades() == 0 || s.limiter.spec_trade_count() < s.limiter.spec_max_trades())
            && !spread_wide ==> {
            &&& !s.position_held && (r.above || r.below) ==> reversion_cycle(s, r, spread_wide).1 == (AgentDecision {
                intent: IntentType::MeanReversion,
                cause: Cause::Signal,
            }) && reversion_cycle(s, r, spread_wide).0.position_held
            &&& s.position_held && r.faded ==> reversion_cycle(s, r, spread_wide).1 == (AgentDecision {
                intent: IntentType::Hold,
                cause: Cause::Signal,
            }) && !reversion_cycle(s, r, spread_wide).0.position_held
            &&& s.position_held && !r.faded ==> reversion_cycle(s, r, spread_wide).1 == (AgentDecision {
                intent: IntentType::Hold,
                cause: Cause::Signal,
            }) && reversion_cycle(s, r, spread_wide).0.position_held
            &&& !s.position_held && !r.above && !r.below ==> reversion_cycle(s, r, spread_wide) == (s, AgentDecision {
                intent: IntentType::Hold,
                cause: Cause::Signal,
            })
        },
        reversion_cycle(s, r, spread_wide).0.limiter == s.limiter,
{
}

/// The feedback on an order, case by case: a fill adds one to the count and
/// keeps the position; a failure clears the position and keeps the count;
/// neither changes the cap.
pub proof fn lemma_feedback_cases(s: ReversionState, success: bool)
    requires
        success ==> s.limiter.spec_trade_count() < u32::MAX,
    ensures
        reversion_after_feedback(s, success).limiter.spec_trade_count() == s.limiter.spec_trade_count()
            + if success { 1int } else { 0int },
        reversion_after_feedback(s, success).limiter.spec_max_trades() == s.limiter.spec_max_trades(),
        reversion_after_feedback(s, success).position_held == (success && s.position_held),
{
    if success {
        s.limiter.lemma_after_fill();
    }
}

/// The mean-reversion agent's state after the feedback on an order: a fill
/// is counted, a failure clears the held position.
pub open spec fn reversion_after_feedback(s: ReversionState, success: bool) -> ReversionState {
    if success {
        ReversionState { limiter: s.limiter.after_fill(), ..s }
    } else {
        ReversionState { position_held: false, ..s }
    }
}

/// After a failed order the mean-reversion agent enters again on the next
/// strong reading, as long as its limiter allows a trade and the spread is
/// narrow; a failure never costs a trade.
pub proof fn lemma_failed_order_allows_reentry(s: ReversionState, r: SignalReading)
    requires
        s.limiter.allows(),
        r.above || r.below,
    ensures
        reversion_after_feedback(s, false).limiter == s.limiter,
        reversion_cycle(reversion_after_feedback(s, false), r, false).1 == (AgentDecision {
            intent: IntentType::MeanReversion,
            cause: Cause::Signal,
        }),
        reversion_cycle(reversion_after_feedback(s, false), r, false).0.position_held,
{
}

/// The description of a hold the mean-reversion agent makes without
/// reading its signal, that is when its limiter blocks or the spread is too
/// wide; it has one text for both.
pub open spec fn reversion_hold_text(cause: Cause) -> Option<Seq<char>> {
    match cause {
        Cause::TradeLimit | Cause::WideSpread => Some("spread too wide, holding"@),
        _ => None,
    }
}

/// The description of the mean-reversion agent's hold for `cause`, or
/// `None` when the decision came from the position cycle.
pub fn reversion_hold_description(cause: Cause) -> (r: Option<&'static str>)
    ensures
        match r {
            Some(t) => reversion_hold_text(cause) == Some(t@),
            None => reversion_hold_text(cause) is None,
        },
{
    match cause {
        Cause::TradeLimit | Cause::WideSpread => Some("spread too wide, holding"),
        _ => None,
    }
}

/// How the risk agent grades the risk potential against its two
/// thresholds.
#[derive(Clone, Copy, Debug, PartialEq, Eq, Structural)]
pub enum RiskVerdict {
    /// At or above the veto threshold: every other intent is overridden.
    Veto,
    /// At or above the warning threshold only: hold, with low confidence.
    Warn,
    /// Below both: hold, and let the other agents decide.
    Normal,
}

/// How the risk agent grades a potential. At or above the veto threshold
/// it vetoes; below it, at or above the warning threshold it warns.
pub open spec fn risk_verdict(at_veto: bool, at_warn: bool) -> RiskVerdict {
    if at_veto {
        RiskVerdict::Veto
    } else if at_warn {
        RiskVerdict::Warn
    } else {
        RiskVerdict::Normal
    }
}

/// The intent each verdict stands for: a veto, or a hold.
pub open spec fn verdict_intent(v: RiskVerdict) -> IntentType {
    match v {
        RiskVerdict::Veto => IntentType::Veto,
        _ => IntentType::Hold,
    }
}

/// The risk agent's verdict, given whether the risk potential reaches the
/// veto threshold and the warning threshold.
pub fn assess_risk(at_veto: bool, at_warn: bool) -> (r: RiskVerdict)
    ensures
        r == risk_verdict(at_veto, at_warn),
{
    if at_veto {
        RiskVerdict::Veto
    } else if at_warn {
        RiskVerdict::Warn
    } else {
        RiskVerdict::Normal
    }
}

impl RiskVerdict {
    /// The intent the verdict stands for.
    pub fn intent(self) -> (r: IntentType)
        ensures
            r == verdict_intent(self),
    {
        match self {
            RiskVerdict::Veto => IntentType::Veto,
            _ => IntentType::Hold,
        }
    }
}

/// The risk agent's grading, case by case: reaching the veto threshold
/// vetoes whatever the warning threshold says; below it, reaching the
/// warning threshold warns with a hold; below both it holds.
pub proof fn lemma_risk_cases(at_veto: bool, at_warn: bool)
    ensures
        at_veto ==> risk_verdict(at_veto, at_warn) == RiskVerdict::Veto
            && verdict_intent(risk_verdict(at_veto, at_warn)) == IntentType::Veto,
        !at_veto && at_warn ==> risk_verdict(at_veto, at_warn) == RiskVerdict::Warn
            && verdict_intent(risk_verdict(at_veto, at_warn)) == IntentType::Hold,
        !at_veto && !at_warn ==> risk_verdict(at_veto, at_warn) == RiskVerdict::Normal
            && verdict_intent(risk_verdict(at_veto, at_warn)) == IntentType::Hold,
{
}

/// The risk agent vetoes exactly when the risk potential reaches the veto
/// threshold; otherwise it holds.
pub proof fn lemma_veto_only_at_threshold(at_veto: bool, at_warn: bool)
    ensures
        verdict_intent(risk_verdict(at_veto, at_warn)) == IntentType::Veto <==> at_veto,
        !at_veto ==> verdict_intent(risk_verdict(at_veto, at_warn)) == IntentType::Hold,
{
}

} // verus!
