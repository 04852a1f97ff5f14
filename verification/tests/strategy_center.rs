use sextant::dashboard::{card_side, side_for_lowercase, update_crew_status, AgentState, AgentStatus, AgentType, EventKind, RiskBand};
use sextant::strategy_center::{family_of, recent_decisions, strategy_cards, StrategyStatus};

fn agent(id: &str, agent_type: AgentType, status: AgentStatus) -> AgentState {
    AgentState { id: id.to_string(), agent_type, status, task: "Starting".to_string() }
}

#[test]
fn strategy_families_follow_agent_ids() {
    assert_eq!(family_of("momentum-01"), "Trend Follow");
    assert_eq!(family_of("mean-rev-02"), "Mean Reversion");
    assert_eq!(family_of("alpha"), "Strategy");
    assert_eq!(family_of("mean-reversion-momentum"), "Trend Follow");
}

#[test]
fn one_card_per_strategy_agent() {
    let agents = vec![
        agent("perception-01", AgentType::Perception, AgentStatus::Active),
        agent("momentum-01", AgentType::Strategy, AgentStatus::Active),
        agent("mean-rev-01", AgentType::Strategy, AgentStatus::Idle),
        agent("risk-01", AgentType::Risk, AgentStatus::Active),
    ];
    let cards = strategy_cards(&agents, false);
    assert_eq!(cards.len(), 2);
    assert_eq!((cards[0].id.as_str(), cards[0].family, cards[0].status, cards[0].sample), ("momentum-01", "Trend Follow", StrategyStatus::Running, false));
    assert_eq!((cards[1].id.as_str(), cards[1].family, cards[1].status), ("mean-rev-01", "Mean Reversion", StrategyStatus::Paused));
    let alert = strategy_cards(&agents, true);
    assert!(alert.iter().all(|c| c.status == StrategyStatus::Alert));
}

#[test]
fn sample_cards_without_strategy_agents() {
    let cards = strategy_cards(&vec![agent("risk-01", AgentType::Risk, AgentStatus::Active)], true);
    assert_eq!(cards.len(), 2);
    assert_eq!((cards[0].id.as_str(), cards[0].family, cards[0].status, cards[0].sample), ("momentum-01", "Trend Follow", StrategyStatus::Running, true));
    assert_eq!((cards[1].id.as_str(), cards[1].family), ("mean-rev-01", "Mean Reversion"));
}

#[test]
fn recent_decisions_are_the_latest_submissions() {
    let s = EventKind::OrderSubmitted;
    let f = EventKind::OrderFilled;
    let r = EventKind::OrderRejected;
    let kinds = vec![s, s, f, s, r, s, f];
    assert_eq!(recent_decisions(&kinds), vec![5, 3]);
    assert_eq!(recent_decisions(&vec![s, f]), vec![0]);
    assert!(recent_decisions(&Vec::new()).is_empty());
}

#[test]
fn crew_follows_the_risk_band() {
    let mut crew = vec![
        agent("perception-01", AgentType::Perception, AgentStatus::Idle),
        agent("momentum-01", AgentType::Strategy, AgentStatus::Idle),
        agent("risk-01", AgentType::Risk, AgentStatus::Idle),
        agent("exec-01", AgentType::Execution, AgentStatus::Idle),
    ];
    update_crew_status(&mut crew, 0, RiskBand::High, "Watching 150", "Risk: 90%");
    assert!(crew.iter().all(|a| a.status == AgentStatus::Idle && a.task == "Starting"));
    update_crew_status(&mut crew, 3, RiskBand::High, "Watching 150", "Risk: 90%");
    assert_eq!((crew[0].status, crew[0].task.as_str()), (AgentStatus::Active, "Processing quotes"));
    assert_eq!((crew[1].status, crew[1].task.as_str()), (AgentStatus::Active, "Watching 150"));
    assert_eq!((crew[2].status, crew[2].task.as_str()), (AgentStatus::Alert, "Risk: 90%"));
    assert_eq!((crew[3].status, crew[3].task.as_str()), (AgentStatus::Active, "Starting"));
    update_crew_status(&mut crew, 4, RiskBand::Elevated, "Watching 151", "Risk: 60%");
    assert_eq!(crew[2].status, AgentStatus::Busy);
    update_crew_status(&mut crew, 5, RiskBand::Normal, "Watching 151", "Risk: 10%");
    assert_eq!((crew[2].status, crew[2].task.as_str()), (AgentStatus::Active, "Nominal"));
}

#[test]
fn intent_cards_show_their_side_in_any_case() {
    assert_eq!(card_side("SELL_SHORT"), "SELL");
    assert_eq!(card_side("Short-Gamma"), "SELL");
    assert_eq!(card_side("TrendFollow"), "BUY");
    assert_eq!(card_side("SeLl"), "SELL");
    assert_eq!(side_for_lowercase("SELL"), "BUY");
    assert_eq!(side_for_lowercase("sell"), "SELL");
    assert_eq!(side_for_lowercase("go short"), "SELL");
}
