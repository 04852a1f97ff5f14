use sextant::agents::{
    assess_risk, reversion_hold_description, step_position, AgentDecision, Cause, MomentumState, PositionStep, ReversionState, RiskVerdict, SignalReading,
};
use sextant::intent::IntentType;

fn reading(value: f64, threshold: f64, fade: f64) -> SignalReading {
    SignalReading { above: value > threshold, below: value < -threshold, faded: value.abs() < fade }
}

#[test]
fn position_cycle_enters_then_exits() {
    let strong = SignalReading { above: true, below: false, faded: false };
    let weak = SignalReading { above: false, below: false, faded: true };
    assert_eq!(step_position(false, strong), PositionStep::Enter);
    assert_eq!(step_position(true, strong), PositionStep::Stay);
    assert_eq!(step_position(true, weak), PositionStep::Exit);
    assert_eq!(step_position(false, weak), PositionStep::Stay);
}

#[test]
fn momentum_agent_follows_and_exits_trends() {
    let threshold = 0.001;
    let mut agent = MomentumState::new(0, false);
    let d = agent.perceive(reading(0.0035, threshold, threshold * 0.3));
    assert_eq!(d, AgentDecision { intent: IntentType::TrendFollow, cause: Cause::Signal });
    assert!(agent.position_held);
    let d = agent.perceive(reading(-0.004, threshold, threshold * 0.3));
    assert_eq!(d.intent, IntentType::Hold);
    let d = agent.perceive(reading(0.0001, threshold, threshold * 0.3));
    assert_eq!(d.intent, IntentType::MeanReversion);
    assert!(!agent.position_held);
    let d = agent.perceive(reading(-0.0012, threshold, threshold * 0.3));
    assert_eq!(d.intent, IntentType::TrendFollow);
}

#[test]
fn momentum_agent_stops_at_its_trade_cap() {
    let mut agent = MomentumState::new(2, false);
    agent.on_feedback(true);
    agent.on_feedback(false);
    assert_eq!(agent.trade_count, 1);
    agent.on_feedback(true);
    let strong = SignalReading { above: true, below: false, faded: false };
    let d = agent.perceive(strong);
    assert_eq!(d, AgentDecision { intent: IntentType::Hold, cause: Cause::TradeLimit });
    assert!(!agent.position_held);
}

#[test]
fn momentum_agent_forces_one_trade() {
    let mut agent = MomentumState::new(0, true);
    let flat = SignalReading { above: false, below: false, faded: true };
    let d = agent.perceive(flat);
    assert_eq!(d, AgentDecision { intent: IntentType::TrendFollow, cause: Cause::Forced });
    let d = agent.perceive(flat);
    assert_eq!(d, AgentDecision { intent: IntentType::MeanReversion, cause: Cause::Signal });
    let d = agent.perceive(flat);
    assert_eq!(d, AgentDecision { intent: IntentType::Hold, cause: Cause::Signal });
}

#[test]
fn reversion_agent_fades_extremes() {
    let z_threshold = 1.5;
    let mut agent = ReversionState::new("mean-rev-01", 0);
    let d = agent.perceive(reading(2.1, z_threshold, 0.3), false);
    assert_eq!(d, AgentDecision { intent: IntentType::MeanReversion, cause: Cause::Signal });
    assert!(agent.position_held);
    let d = agent.perceive(reading(0.1, z_threshold, 0.3), false);
    assert_eq!(d, AgentDecision { intent: IntentType::Hold, cause: Cause::Signal });
    assert!(!agent.position_held);
}

#[test]
fn reversion_agent_holds_on_wide_spreads_and_at_its_cap() {
    let strong = SignalReading { above: false, below: true, faded: false };
    let mut agent = ReversionState::new("mean-rev-01", 1);
    let d = agent.perceive(strong, true);
    assert_eq!(d, AgentDecision { intent: IntentType::Hold, cause: Cause::WideSpread });
    assert!(!agent.position_held);
    agent.on_feedback(true);
    let d = agent.perceive(strong, false);
    assert_eq!(d, AgentDecision { intent: IntentType::Hold, cause: Cause::TradeLimit });
    assert_eq!(agent.limiter.trade_count(), 1);
}

#[test]
fn risk_agent_vetoes_at_the_veto_threshold() {
    // At or above the veto threshold (hence also the warning one).
    assert_eq!(assess_risk(true, true), RiskVerdict::Veto);
    assert_eq!(assess_risk(true, true).intent(), IntentType::Veto);
    // Reaching the veto threshold vetoes, whether or not the warning one is reached.
    assert_eq!(assess_risk(true, false), RiskVerdict::Veto);
}

#[test]
fn risk_agent_warns_between_thresholds() {
    assert_eq!(assess_risk(false, true), RiskVerdict::Warn);
    assert_eq!(assess_risk(false, true).intent(), IntentType::Hold);
}

#[test]
fn risk_agent_holds_below_both_thresholds() {
    assert_eq!(assess_risk(false, false), RiskVerdict::Normal);
    assert_eq!(assess_risk(false, false).intent(), IntentType::Hold);
}

#[test]
fn reversion_agent_reenters_after_a_failed_order() {
    let strong = SignalReading { above: true, below: false, faded: false };
    let mut agent = ReversionState::new("mean-rev-01", 3);
    let d = agent.perceive(strong, false);
    assert_eq!(d.intent, IntentType::MeanReversion);
    assert!(agent.position_held);
    // The order failed: the position is not held, and no trade is counted.
    agent.on_feedback(false);
    assert!(!agent.position_held);
    assert_eq!(agent.limiter.trade_count(), 0);
    let d = agent.perceive(strong, false);
    assert_eq!(d, AgentDecision { intent: IntentType::MeanReversion, cause: Cause::Signal });
    // A fill keeps the position and counts the trade.
    agent.on_feedback(true);
    assert!(agent.position_held);
    assert_eq!(agent.limiter.trade_count(), 1);
}

#[test]
fn reversion_holds_describe_the_spread() {
    assert_eq!(reversion_hold_description(Cause::WideSpread), Some("spread too wide, holding"));
    assert_eq!(reversion_hold_description(Cause::TradeLimit), Some("spread too wide, holding"));
    assert_eq!(reversion_hold_description(Cause::Signal), None);
    assert_eq!(reversion_hold_description(Cause::Forced), None);
}
