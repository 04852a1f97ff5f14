//! Strategy families the research ratchet can evaluate, the parameters a
//! hypothesis sets, and the decisions of the ratchet.

use vstd::prelude::*;
use crate::text::{parse_usize, tagged_word, tagged_word_text, usize_value};

verus! {

/// Strategy types the ratchet can evaluate.
#[derive(Clone, Copy, Debug, PartialEq, Eq, Structural)]
pub enum StrategyType {
    /// Trend-following: long above MA, flat below.
    Momentum,
    /// Mean-reversion: long when z-score < -threshold, short when > +threshold.
    MeanReversion,
    /// Breakout: long when price exceeds N-bar high, flat on reversal.
    Breakout,
    /// Volatility targeting: scale position inversely to realized vol.
    VolTarget,
    /// Dual momentum: absolute + relative momentum combined.
    DualMomentum,
}

/// The name of each strategy family.
pub open spec fn strategy_name(t: StrategyType) -> Seq<char> {
    match t {
        StrategyType::Momentum => "momentum"@,
        StrategyType::MeanReversion => "mean_reversion"@,
        StrategyType::Breakout => "breakout"@,
        StrategyType::VolTarget => "vol_target"@,
        StrategyType::DualMomentum => "dual_momentum"@,
    }
}

impl StrategyType {
    /// All available strategy types, in declaration order.
    pub fn all() -> (r: &'static [StrategyType])
        ensures
            r@ == seq![
                StrategyType::Momentum,
                StrategyType::MeanReversion,
                StrategyType::Breakout,
                StrategyType::VolTarget,
                StrategyType::DualMomentum,
            ],
    {
        &[
            StrategyType::Momentum,
            StrategyType::MeanReversion,
            StrategyType::Breakout,
            StrategyType::VolTarget,
            StrategyType::DualMomentum,
        ]
    }

    pub fn name(&self) -> (r: &'static str)
        ensures
            r@ == strategy_name(*self),
    {
        match self {
            StrategyType::Momentum => "momentum",
            StrategyType::MeanReversion => "mean_reversion",
            StrategyType::Breakout => "breakout",
            StrategyType::VolTarget => "vol_target",
            StrategyType::DualMomentum => "dual_momentum",
        }
    }
}

/// Side of an order or position in the event-driven backtester.
#[derive(Clone, Copy, Debug, PartialEq, Eq, Structural)]
pub enum Side {
    Buy,
    Sell,
}

/// Micro-backtest engine: runs a strategy over a short window to validate
/// hypotheses.
pub struct MicroBacktestEngine {
    /// Window size in nanoseconds.
    pub window_ns: u64,
}

impl MicroBacktestEngine {
    /// An engine over a window of `window_secs` seconds.
    pub fn new(window_secs: u64) -> (r: Self)
        requires
            window_secs * 1_000_000_000 <= u64::MAX,
        ensures
            r.window_ns == window_secs * 1_000_000_000,
    {
        MicroBacktestEngine { window_ns: window_secs * 1_000_000_000 }
    }
}

/// How a candidate's information ratio compared, as measured by the caller.
#[derive(Clone, Copy, Debug, PartialEq, Eq, Structural)]
pub struct Comparison {
    /// It improves on the ratchet baseline by the required margin.
    pub beats_ratchet: bool,
    /// It beats passive buy-and-hold.
    pub beats_hold: bool,
}

/// What the ratchet does with one hypothesis.
#[derive(Clone, Copy, Debug, PartialEq, Eq, Structural)]
pub enum RatchetOutcome {
    /// Accepted and applied: the baseline moves up to the candidate.
    RatchetUp { validated: bool },
    /// Accepted while the strategy is locked: staged for human approval.
    Staged { validated: bool },
    /// Rejected: it does not beat passive holding.
    BelowHold,
    /// Rejected against the ratchet baseline, or by event-driven validation.
    BelowRatchet,
}

/// A quick screening passes when the candidate beats both baselines.
pub open spec fn passes(c: Comparison) -> bool {
    c.beats_ratchet && c.beats_hold
}

/// The ratchet's decision for one hypothesis: `screening` is the quick
/// evaluation; `validation` is the event-driven one, which is run only when
/// the screening passes and validation is enabled.
pub open spec fn ratchet_decision(screening: Comparison, validation: Option<Comparison>, lock_open: bool) -> RatchetOutcome {
    let accepted = passes(screening) && match validation {
        Some(v) => passes(v),
        None => true,
    };
    if accepted {
        if lock_open {
            RatchetOutcome::RatchetUp { validated: validation is Some }
        } else {
            RatchetOutcome::Staged { validated: validation is Some }
        }
    } else if !screening.beats_hold {
        RatchetOutcome::BelowHold
    } else {
        RatchetOutcome::BelowRatchet
    }
}

/// Whether the event-driven validation must be run for this screening.
pub fn needs_validation(screening: Comparison, validation_enabled: bool) -> (r: bool)
    ensures
        r == (passes(screening) && validation_enabled),
{
    screening.beats_ratchet && screening.beats_hold && validation_enabled
}

/// The ratchet's decision for one hypothesis (see `ratchet_decision`).
pub fn ratchet_outcome(screening: Comparison, validation: Option<Comparison>, lock_open: bool) -> (r: RatchetOutcome)
    ensures
        r == ratchet_decision(screening, validation, lock_open),
{
    let mut accepted = screening.beats_ratchet && screening.beats_hold;
    let validated = validation.is_some();
    if accepted {
        if let Some(v) = validation {
            if !v.beats_hold || !v.beats_ratchet {
                accepted = false;
            }
        }
    }
    if accepted {
        if lock_open {
            RatchetOutcome::RatchetUp { validated }
        } else {
            RatchetOutcome::Staged { validated }
        }
    } else if !screening.beats_hold {
        RatchetOutcome::BelowHold
    } else {
        RatchetOutcome::BelowRatchet
    }
}

/// The ratchet never moves on a candidate that fails to beat either
/// baseline, or fails validation when validation ran; a locked strategy
/// never moves at all, it only stages.
pub proof fn lemma_ratchet_moves_only_on_improvement(screening: Comparison, validation: Option<Comparison>, lock_open: bool)
    ensures
        ratchet_decision(screening, validation, lock_open) is RatchetUp ==> passes(screening) && lock_open
            && (validation matches Some(v) ==> passes(v)),
        !lock_open ==> !(ratchet_decision(screening, validation, lock_open) is RatchetUp),
        !screening.beats_hold ==> ratchet_decision(screening, validation, lock_open) == RatchetOutcome::BelowHold,
{
}

/// The ratchet, case by case, in terms of the comparisons themselves. A
/// candidate is accepted when its screening beats both baselines and, if
/// the event-driven validation ran, that beats both too. An accepted
/// candidate moves the ratchet up when the strategy is unlocked and is
/// staged for approval when it is locked, noting whether it was validated.
/// A rejected one is below hold when its screening does not beat holding,
/// and below the ratchet otherwise.
pub proof fn lemma_ratchet_cases(screening: Comparison, validation: Option<Comparison>, lock_open: bool)
    ensures
        ({
            let accepted = screening.beats_ratchet && screening.beats_hold && match validation {
                Some(v) => v.beats_ratchet && v.beats_hold,
                None => true,
            };
            &&& accepted && lock_open ==> ratchet_decision(screening, validation, lock_open)
                == RatchetOutcome::RatchetUp { validated: validation is Some }
            &&& accepted && !lock_open ==> ratchet_decision(screening, validation, lock_open)
                == RatchetOutcome::Staged { validated: validation is Some }
            &&& !accepted && !screening.beats_hold ==> ratchet_decision(screening, validation, lock_open)
                == RatchetOutcome::BelowHold
            &&& !accepted && screening.beats_hold ==> ratchet_decision(screening, validation, lock_open)
                == RatchetOutcome::BelowRatchet
        }),
{
}

/// A screening passes exactly when it beats both baselines; validation is
/// run only then (see `needs_validation`).
pub proof fn lemma_validation_only_after_passing(screening: Comparison)
    ensures
        passes(screening) == (screening.beats_ratchet && screening.beats_hold),
{
}

/// The `usize` parameter `name` that a hypothesis description sets with a
/// word `name=value` (as in "window=20"): the value of the first word that
/// begins with `name=`, or `default` where no word does or where its value
/// is no `usize`.
pub open spec fn param_value(description: Seq<char>, name: Seq<char>, default: usize) -> usize {
    match tagged_word(description, name, '=') {
        Some(t) => match usize_value(t) {
            Some(v) => v,
            None => default,
        },
        None => default,
    }
}

/// Reads the `usize` parameter `name` from a hypothesis description.
pub fn parse_param(description: &str, name: &str, default: usize) -> (r: usize)
    ensures
        r == param_value(description@, name@, default),
{
    match tagged_word_text(description, name, '=') {
        Some(t) => match parse_usize(t) {
            Some(v) => v,
            None => default,
        },
        None => default,
    }
}

} // verus!
