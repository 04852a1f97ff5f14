//! Intent admission: from an agent intent to the execution template
//! that will carry it out, and the checks that come first.
//!
//! The checks run in a fixed order: Hold intents skip validation entirely;
//! then the instrument must carry a venue suffix, the target quantity must be
//! usable, the risk budget must hold, and dust orders are turned into Hold.
//! The numeric checks themselves (quantity, budget, notional) are made by the
//! caller on floating-point values; this module decides what follows from
//! their outcomes.

use vstd::prelude::*;
use vstd::string::{StrSliceExecFns, StringExecFns};
use crate::intent::IntentType;

verus! {

/// Errors during intent compilation.
#[derive(Clone, Debug)]
pub enum CompileError {
    /// Instrument ID missing venue suffix (e.g., ".OKX").
    InvalidInstrument,
    /// Quantity is non-finite, negative, or zero.
    InvalidQuantity,
    /// Could not parse a valid mid price from market state.
    InvalidPrice,
    /// Intent violates risk budget constraints.
    RiskBudgetViolation(String),
}

/// The text each error displays.
pub open spec fn error_message(e: CompileError) -> Seq<char> {
    match e {
        CompileError::InvalidInstrument => "invalid instrument ID (missing venue suffix)"@,
        CompileError::InvalidQuantity => "invalid quantity (non-finite, negative, or zero)"@,
        CompileError::InvalidPrice => "invalid price (could not parse mid from market state)"@,
        CompileError::RiskBudgetViolation(msg) => "risk budget violation: "@ + msg@,
    }
}

impl CompileError {
    /// Human-readable description of the error.
    pub fn message(&self) -> (r: String)
        ensures
            r@ == error_message(*self),
    {
        match self {
            CompileError::InvalidInstrument => "invalid instrument ID (missing venue suffix)".to_owned(),
            CompileError::InvalidQuantity => "invalid quantity (non-finite, negative, or zero)".to_owned(),
            CompileError::InvalidPrice => "invalid price (could not parse mid from market state)".to_owned(),
            CompileError::RiskBudgetViolation(msg) => {
                let prefix = "risk budget violation: ".to_owned();
                prefix.concat(msg.as_str())
            },
        }
    }
}

/// Pre-defined execution templates.
#[derive(Clone, Copy, Debug, PartialEq, Eq, Structural)]
pub enum ExecutionTemplate {
    DeltaHedgeTwap,
    GammaScalpIoc,
    TrendFollowTrailing,
    MeanRevertLimit,
    LiquidationCaptureIoc,
    Hold,
}

/// The template each intent type maps to.
pub open spec fn template_for(t: IntentType) -> ExecutionTemplate {
    match t {
        IntentType::DeltaHedge => ExecutionTemplate::DeltaHedgeTwap,
        IntentType::GammaScalp => ExecutionTemplate::GammaScalpIoc,
        IntentType::TrendFollow => ExecutionTemplate::TrendFollowTrailing,
        IntentType::MeanReversion => ExecutionTemplate::MeanRevertLimit,
        IntentType::LiquidationCapture => ExecutionTemplate::LiquidationCaptureIoc,
        IntentType::Hold | IntentType::Veto => ExecutionTemplate::Hold,
    }
}

impl ExecutionTemplate {
    /// Deterministic mapping from an intent's type to its template.
    pub fn from_intent(intent_type: IntentType) -> (r: Self)
        ensures
            r == template_for(intent_type),
    {
        match intent_type {
            IntentType::DeltaHedge => ExecutionTemplate::DeltaHedgeTwap,
            IntentType::GammaScalp => ExecutionTemplate::GammaScalpIoc,
            IntentType::TrendFollow => ExecutionTemplate::TrendFollowTrailing,
            IntentType::MeanReversion => ExecutionTemplate::MeanRevertLimit,
            IntentType::LiquidationCapture => ExecutionTemplate::LiquidationCaptureIoc,
            IntentType::Hold | IntentType::Veto => ExecutionTemplate::Hold,
        }
    }
}

/// What admission decides about an intent.
#[derive(Clone, Debug)]
pub enum Admission {
    /// Emit a directive with no orders.
    Hold,
    /// Refuse the intent.
    Reject(CompileError),
    /// Go on to compile with this template.
    Proceed(ExecutionTemplate),
}

/// What the numeric checks found, as admission needs it.
pub struct AdmissionChecks {
    /// The target quantity is absent, or finite and non-zero.
    pub quantity_usable: bool,
    /// The first risk budget rule broken, with its explanation, if any.
    pub budget_violation: Option<String>,
    /// The order is below the minimum notional and no volatility bypass applies.
    pub dust: bool,
}

/// The admission decision for an intent of type `t` on `instrument`.
pub open spec fn admission_of(t: IntentType, instrument: Seq<char>, checks: AdmissionChecks) -> Admission {
    if template_for(t) == ExecutionTemplate::Hold {
        Admission::Hold
    } else if !instrument.contains('.') {
        Admission::Reject(CompileError::InvalidInstrument)
    } else if !checks.quantity_usable {
        Admission::Reject(CompileError::InvalidQuantity)
    } else if checks.budget_violation is Some {
        Admission::Reject(CompileError::RiskBudgetViolation(checks.budget_violation->0))
    } else if checks.dust {
        Admission::Hold
    } else {
        Admission::Proceed(template_for(t))
    }
}

/// Two-stage intent compiler.
pub struct IntentCompiler;

impl IntentCompiler {
    /// Whether an instrument ID carries a venue suffix (contains a '.').
    pub fn has_venue_suffix(instrument: &str) -> (r: bool)
        ensures
            r == instrument@.contains('.'),
    {
        let n = instrument.unicode_len();
        let mut i: usize = 0;
        while i < n
            invariant
                n == instrument@.len(),
                i <= n,
                forall|k: int| 0 <= k < i ==> instrument@[k] != '.',
            decreases n - i,
        {
            if instrument.get_char(i) == '.' {
                return true;
            }
            i = i + 1;
        }
        false
    }

    /// Stage one of compilation: decide whether an intent holds, is refused,
    /// or goes on to its template, given the outcome of the numeric checks.
    pub fn triage(intent_type: IntentType, instrument: &str, checks: AdmissionChecks) -> (r: Admission)
        ensures
            r == admission_of(intent_type, instrument@, checks),
    {
        let template = ExecutionTemplate::from_intent(intent_type);
        if template == ExecutionTemplate::Hold {
            return Admission::Hold;
        }
        if !Self::has_venue_suffix(instrument) {
            return Admission::Reject(CompileError::InvalidInstrument);
        }
        if !checks.quantity_usable {
            return Admission::Reject(CompileError::InvalidQuantity);
        }
        match checks.budget_violation {
            Some(msg) => Admission::Reject(CompileError::RiskBudgetViolation(msg)),
            None => {
                if checks.dust {
                    Admission::Hold
                } else {
                    Admission::Proceed(template)
                }
            },
        }
    }
}

/// Hold and Veto intents never reach a template, and an intent goes on to
/// compilation exactly when every check passes, with the template of its type.
pub proof fn lemma_admission_proceeds_only_when_clear(t: IntentType, instrument: Seq<char>, checks: AdmissionChecks)
    ensures
        (t == IntentType::Hold || t == IntentType::Veto) ==> admission_of(t, instrument, checks) is Hold,
        admission_of(t, instrument, checks) is Proceed <==> (template_for(t) != ExecutionTemplate::Hold
            && instrument.contains('.') && checks.quantity_usable && checks.budget_violation is None
            && !checks.dust),
        admission_of(t, instrument, checks) is Proceed ==> admission_of(t, instrument, checks)->Proceed_0
            == template_for(t),
        template_for(t) == ExecutionTemplate::Hold <==> (t == IntentType::Hold || t == IntentType::Veto),
{
}

/// The template of each type that trades: delta hedges go by TWAP, gamma
/// scalps and liquidation captures by IOC, trend following by a trailing
/// order, mean reversion by a limit; Hold and Veto have none.
pub proof fn lemma_template_cases(t: IntentType)
    ensures
        t == IntentType::DeltaHedge ==> template_for(t) == ExecutionTemplate::DeltaHedgeTwap,
        t == IntentType::GammaScalp ==> template_for(t) == ExecutionTemplate::GammaScalpIoc,
        t == IntentType::TrendFollow ==> template_for(t) == ExecutionTemplate::TrendFollowTrailing,
        t == IntentType::MeanReversion ==> template_for(t) == ExecutionTemplate::MeanRevertLimit,
        t == IntentType::LiquidationCapture ==> template_for(t) == ExecutionTemplate::LiquidationCaptureIoc,
        t == IntentType::Hold || t == IntentType::Veto ==> template_for(t) == ExecutionTemplate::Hold,
{
}

/// Admission, case by case, for an intent that trades (neither Hold nor
/// Veto): an instrument without a venue suffix is refused as invalid; then
/// an unusable quantity is refused; then a broken risk budget is refused
/// with its explanation; then a dust order holds; otherwise the intent goes
/// on to its type's template. Hold and Veto intents hold.
pub proof fn lemma_admission_cases(t: IntentType, instrument: Seq<char>, checks: AdmissionChecks)
    ensures
        (t == IntentType::Hold || t == IntentType::Veto) ==> admission_of(t, instrument, checks) == Admission::Hold,
        t != IntentType::Hold && t != IntentType::Veto ==> {
            &&& !instrument.contains('.') ==> admission_of(t, instrument, checks) == Admission::Reject(
                CompileError::InvalidInstrument,
            )
            &&& instrument.contains('.') && !checks.quantity_usable ==> admission_of(t, instrument, checks)
                == Admission::Reject(CompileError::InvalidQuantity)
            &&& instrument.contains('.') && checks.quantity_usable && checks.budget_violation is Some
                ==> admission_of(t, instrument, checks) == Admission::Reject(
                CompileError::RiskBudgetViolation(checks.budget_violation->0),
            )
            &&& instrument.contains('.') && checks.quantity_usable && checks.budget_violation is None && checks.dust
                ==> admission_of(t, instrument, checks) == Admission::Hold
            &&& instrument.contains('.') && checks.quantity_usable && checks.budget_violation is None && !checks.dust
                ==> admission_of(t, instrument, checks) == Admission::Proceed(template_for(t))
        },
{
}

} // verus!
