use sextant::dashboard::{keep_latest, AgentType, Autonomy, Drawer, LogEntry};
use sextant::data_source::{self, format_ts, LogAgentType};

#[test]
fn shortcuts_open_and_close_drawers() {
    // [1] Orders · [2] Research · [3] Memory · [4] Hull Integrity
    assert_eq!(Drawer::for_shortcut(1), Some(Drawer::Orders));
    assert_eq!(Drawer::for_shortcut(2), Some(Drawer::Research));
    assert_eq!(Drawer::for_shortcut(3), Some(Drawer::Memory));
    assert_eq!(Drawer::for_shortcut(4), Some(Drawer::HullIntegrity));
    assert_eq!(Drawer::for_shortcut(7), Some(Drawer::ResearchLab));
    assert_eq!(Drawer::for_shortcut(8), None);
    let open = Drawer::toggle(None, Drawer::Orders);
    assert_eq!(open, Some(Drawer::Orders));
    let switched = Drawer::toggle(open, Drawer::Memory);
    assert_eq!(switched, Some(Drawer::Memory));
    assert_eq!(Drawer::toggle(switched, Drawer::Memory), None);
}

#[test]
fn labels() {
    assert_eq!(Drawer::HullIntegrity.label(), "Hull Integrity");
    assert_eq!(Drawer::StrategyCenter.label(), "策略工坊");
    assert_eq!(Autonomy::Assisted.label(), "ASSISTED");
    assert_eq!(Autonomy::Manual.label(), "MANUAL");
    assert_eq!(AgentType::Risk.label(), "RISK");
    assert_eq!(LogAgentType::Execution.label(), "EXECUTION");
    assert_eq!(AgentType::from(LogAgentType::Strategy), AgentType::Strategy);
}

#[test]
fn log_entries_convert_and_stay_bounded() {
    let src = data_source::LogEntry {
        timestamp: "12:00:00".to_string(),
        agent_type: LogAgentType::Perception,
        latency_ms: 42,
        summary: "quote".to_string(),
    };
    let entry = LogEntry::from_source(src);
    assert_eq!(entry.agent_type, AgentType::Perception);
    assert_eq!(entry.latency_ms, 42);
    let mut list: Vec<u32> = (0..250).collect();
    keep_latest(&mut list, 200);
    assert_eq!(list.len(), 200);
    assert_eq!(list[0], 50);
    assert_eq!(list[199], 249);
    keep_latest(&mut list, 500);
    assert_eq!(list.len(), 200);
}

#[test]
fn clock_formatting() {
    assert_eq!(format_ts(0), "00:00:00");
    assert_eq!(format_ts(1_700_000_000), "22:13:20");
    assert_eq!(format_ts(86_399), "23:59:59");
}

use sextant::dashboard::{EventFeed, EventKind, History, IntentDeck, FEED_CAPACITY, LOG_CAPACITY};
use sextant::data_source::{decimal_string, scheduled_logs};

#[test]
fn intent_cards_get_fresh_ids() {
    let mut deck: IntentDeck<&str> = IntentDeck::new();
    assert_eq!(deck.add("buy btc"), "INT-0");
    assert_eq!(deck.add("sell eth"), "INT-1");
    assert_eq!(deck.add("hold"), "INT-2");
    deck.resolve("INT-1");
    let ids: Vec<&str> = deck.cards().iter().map(|c| c.intent_id.as_str()).collect();
    assert_eq!(ids, vec!["INT-0", "INT-2"]);
    // Identifiers are never reused.
    assert_eq!(deck.add("again"), "INT-3");
    deck.dismiss(0);
    deck.dismiss(10);
    let bodies: Vec<&str> = deck.cards().iter().map(|c| c.body).collect();
    assert_eq!(bodies, vec!["hold", "again"]);
    deck.resolve("INT-9");
    assert_eq!(deck.cards().len(), 2);
}

#[test]
fn decimal_and_history() {
    assert_eq!(decimal_string(0), "0");
    assert_eq!(decimal_string(1234567890), "1234567890");
    assert_eq!(decimal_string(u64::MAX), "18446744073709551615");
    let mut h: History<f64> = History::new(3);
    for p in [1.0, 2.0, 3.0, 4.0, 5.0] {
        h.push(p);
    }
    assert_eq!(h.items, vec![3.0, 4.0, 5.0]);
}

#[test]
fn events_sorted_into_feeds() {
    assert_eq!(EventKind::OrderFilled.feed(), EventFeed::Orders);
    assert_eq!(EventKind::OrderRejected.feed(), EventFeed::Orders);
    assert_eq!(EventKind::AutoresearchResult.feed(), EventFeed::Research);
    assert_eq!(EventKind::RiskAlert.feed(), EventFeed::Risk);
    assert_eq!(EventKind::IntentApproved.feed(), EventFeed::Intents);
    assert_eq!((LOG_CAPACITY, FEED_CAPACITY), (200, 256));
}

#[test]
fn simulator_log_schedule() {
    let quiet = scheduled_logs(0, false, false);
    assert_eq!(quiet.len(), 1);
    assert_eq!(quiet[0].agent_type, LogAgentType::Risk);
    assert_eq!(quiet[0].latency_ms, 3);
    assert!(scheduled_logs(7, false, false).iter().all(|e| e.agent_type == LogAgentType::Perception));
    let at0 = scheduled_logs(0, false, true);
    assert_eq!(at0.len(), 2);
    assert_eq!(at0[0].agent_type, LogAgentType::Risk);
    assert_eq!(at0[1].agent_type, LogAgentType::Execution);
    let at7 = scheduled_logs(7, false, true);
    assert_eq!(at7.len(), 1);
    assert_eq!(at7[0].latency_ms, 2);
    assert_eq!(at7[0].timestamp, "22:13:20");
    let at30 = scheduled_logs(30, true, false);
    let kinds: Vec<LogAgentType> = at30.iter().map(|e| e.agent_type).collect();
    assert_eq!(kinds, vec![LogAgentType::Perception, LogAgentType::Strategy, LogAgentType::Risk]);
    assert_eq!(at30[1].latency_ms, 8);
    assert_eq!(at30[2].latency_ms, 3);
    assert_eq!(at30[0].timestamp, "22:13:23");
}
