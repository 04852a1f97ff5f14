use sextant::dashboard::{AgentType, EventKind, LogEntry, FEED_CAPACITY, LOG_CAPACITY};
use sextant::dashboard_state::{Arrival, CardEffect, DashboardFeeds};

fn log(n: u64) -> LogEntry {
    LogEntry { timestamp: format!("t{}", n), agent_type: AgentType::Strategy, latency_ms: n, summary: String::new() }
}

fn plain(kind: EventKind, tag: u32) -> Arrival<u32, &'static str> {
    Arrival { kind, event: tag, card: CardEffect::Keep }
}

fn generated(tag: u32, body: &'static str) -> Arrival<u32, &'static str> {
    Arrival { kind: EventKind::IntentGenerated, event: tag, card: CardEffect::Add(body) }
}

fn approved(tag: u32, id: &str) -> Arrival<u32, &'static str> {
    Arrival { kind: EventKind::IntentApproved, event: tag, card: CardEffect::Resolve(id.to_string()) }
}

#[test]
fn refresh_records_the_version_and_sorts_events() {
    let mut d: DashboardFeeds<LogEntry, u32, &'static str> = DashboardFeeds::new();
    d.refresh(
        7,
        vec![log(1), log(2)],
        vec![
            plain(EventKind::OrderSubmitted, 1),
            plain(EventKind::AutoresearchResult, 2),
            plain(EventKind::RiskAlert, 3),
            plain(EventKind::OrderFilled, 4),
            plain(EventKind::IntentRejected, 5),
        ],
    );
    assert_eq!(d.last_version, 7);
    assert_eq!(d.log_entries.len(), 2);
    assert_eq!(d.orders, vec![1, 4]);
    assert_eq!(d.research, vec![2]);
    assert_eq!(d.risk, vec![3]);
    assert_eq!(d.intents, vec![5]);
}

#[test]
fn refresh_keeps_the_newest_logs_and_events() {
    let mut d: DashboardFeeds<LogEntry, u32, &'static str> = DashboardFeeds::new();
    d.refresh(1, (0..150).map(log).collect(), (0..200).map(|i| plain(EventKind::OrderFilled, i)).collect());
    d.refresh(2, (150..260).map(log).collect(), (200..300).map(|i| plain(EventKind::OrderFilled, i)).collect());
    assert_eq!(d.log_entries.len(), LOG_CAPACITY);
    assert_eq!(d.log_entries[0].latency_ms, 60);
    assert_eq!(d.log_entries[LOG_CAPACITY - 1].latency_ms, 259);
    assert_eq!(d.orders.len(), FEED_CAPACITY);
    assert_eq!(d.orders[0], 44);
    assert_eq!(*d.orders.last().unwrap(), 299);
}

#[test]
fn intent_cards_get_rising_numbers_and_leave_when_resolved() {
    let mut d: DashboardFeeds<LogEntry, u32, &'static str> = DashboardFeeds::new();
    d.refresh(1, Vec::new(), vec![generated(1, "a"), generated(2, "b"), approved(3, "INT-0")]);
    let ids: Vec<&str> = d.deck.cards().iter().map(|c| c.intent_id.as_str()).collect();
    assert_eq!(ids, vec!["INT-1"]);
    assert_eq!(d.deck.cards()[0].body, "b");
    d.refresh(2, Vec::new(), vec![generated(4, "c")]);
    let ids: Vec<&str> = d.deck.cards().iter().map(|c| c.intent_id.as_str()).collect();
    assert_eq!(ids, vec!["INT-1", "INT-2"]);
    assert_eq!(d.deck.next_number(), 3);
    assert_eq!(d.intents, vec![1, 2, 3, 4]);
    // A resolve arriving on an event that is not an approval or rejection
    // leaves the cards.
    d.refresh(3, Vec::new(), vec![Arrival { kind: EventKind::RiskAlert, event: 5, card: CardEffect::Resolve("INT-1".to_string()) }]);
    assert_eq!(d.deck.cards().len(), 2);
    assert_eq!(d.risk, vec![5]);
}
