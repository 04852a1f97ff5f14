use sextant::perception::{
    action_from_field, count_event_types, event_slot, json_object, momentum_pair, reply_action, reply_reasoning, LlmAction,
    PromptTemplate, RoutingLayer,
};
use sextant::research::{MicroBacktestEngine, Side, StrategyType};

#[test]
fn momentum_slots() {
    assert_eq!(momentum_pair(0), None);
    assert_eq!(momentum_pair(1), None);
    // Ten rising events: compare the last against the first.
    assert_eq!(momentum_pair(10), Some((9, 0)));
    assert_eq!(momentum_pair(11), Some((10, 1)));
    assert_eq!(momentum_pair(70), Some((5, 60)));
}

#[test]
fn prompt_trace_and_keywords() {
    assert_eq!(PromptTemplate::event_kind(0), "QUOTE");
    assert_eq!(PromptTemplate::event_kind(4), "RISK");
    assert_eq!(PromptTemplate::event_kind(9), "UNKNOWN");
    assert_eq!(PromptTemplate::trace_slots(0), Vec::<usize>::new());
    assert_eq!(PromptTemplate::trace_slots(3), vec![0, 1, 2]);
    let slots = PromptTemplate::trace_slots(70);
    assert_eq!(slots.len(), 64);
    assert_eq!(slots[0], 6);
    assert_eq!(slots[63], 5);
    assert_eq!(LlmAction::from_keyword("BUY"), Some(LlmAction::Buy));
    assert_eq!(LlmAction::from_keyword("SELL"), Some(LlmAction::Sell));
    assert_eq!(LlmAction::from_keyword("HOLD"), Some(LlmAction::Hold));
    assert_eq!(LlmAction::from_keyword("buy"), None);
    assert_ne!(RoutingLayer::Rule, RoutingLayer::SmallLlm);
}

#[test]
fn research_vocabulary() {
    let names: Vec<&str> = StrategyType::all().iter().map(|t| t.name()).collect();
    assert_eq!(names, vec!["momentum", "mean_reversion", "breakout", "vol_target", "dual_momentum"]);
    assert_eq!(MicroBacktestEngine::new(300).window_ns, 300_000_000_000);
    assert_ne!(Side::Buy, Side::Sell);
}

use sextant::research::{needs_validation, ratchet_outcome, Comparison, RatchetOutcome};

#[test]
fn ratchet_decisions() {
    let good = Comparison { beats_ratchet: true, beats_hold: true };
    let below_hold = Comparison { beats_ratchet: true, beats_hold: false };
    let below_ratchet = Comparison { beats_ratchet: false, beats_hold: true };
    assert!(needs_validation(good, true));
    assert!(!needs_validation(good, false));
    assert!(!needs_validation(below_hold, true));
    assert_eq!(ratchet_outcome(good, None, true), RatchetOutcome::RatchetUp { validated: false });
    assert_eq!(ratchet_outcome(good, Some(good), false), RatchetOutcome::Staged { validated: true });
    assert_eq!(ratchet_outcome(below_hold, None, true), RatchetOutcome::BelowHold);
    assert_eq!(ratchet_outcome(below_ratchet, None, true), RatchetOutcome::BelowRatchet);
    // Fee-eaten alpha: passes screening, fails event-driven validation.
    assert_eq!(ratchet_outcome(good, Some(below_hold), true), RatchetOutcome::BelowRatchet);
}

#[test]
fn event_slots_follow_recording_order() {
    assert_eq!(event_slot(5, 5, 0), Some(0));
    assert_eq!(event_slot(5, 5, 4), Some(4));
    assert_eq!(event_slot(5, 5, 5), None);
    assert_eq!(event_slot(70, 64, 0), Some(6));
    assert_eq!(event_slot(70, 64, 63), Some(5));
    assert_eq!(event_slot(128, 64, 0), Some(0));
    let shown = PromptTemplate::trace_slots(70);
    for i in 0..64u64 {
        assert_eq!(event_slot(70, 64, i), Some(shown[i as usize]));
    }
}

#[test]
fn event_kinds_are_counted() {
    let c = count_event_types(&vec![0, 0, 1, 2, 3, 4, 4, 4, 9]);
    assert_eq!((c.quotes, c.trades, c.fills, c.alerts, c.risk_alerts), (2, 1, 1, 1, 3));
    let none = count_event_types(&Vec::new());
    assert_eq!((none.quotes, none.risk_alerts), (0, 0));
}

fn confidence_of(reply: &str) -> Option<f64> {
    let parsed: serde_json::Value = serde_json::from_str(json_object(reply)?).ok()?;
    parsed.get("confidence")?.as_f64()
}

#[test]
fn test_parse_llm_response() {
    let json = r#"{"action": "BUY", "confidence": 0.85, "reasoning": "Strong momentum"}"#;
    assert_eq!(json_object(json), Some(json));
    assert_eq!(reply_action(json), Some(LlmAction::Buy));
    assert!((confidence_of(json).unwrap() - 0.85).abs() < 1e-6);
    assert_eq!(reply_reasoning(json), "Strong momentum");
}

#[test]
fn test_parse_llm_response_with_markdown() {
    let json = "```json\n{\"action\": \"SELL\", \"confidence\": 0.6, \"reasoning\": \"Reversal\"}\n```";
    assert_eq!(json_object(json), Some("{\"action\": \"SELL\", \"confidence\": 0.6, \"reasoning\": \"Reversal\"}"));
    assert_eq!(reply_action(json), Some(LlmAction::Sell));
    assert_eq!(reply_reasoning(json), "Reversal");
}

#[test]
fn test_parse_invalid_json() {
    assert_eq!(json_object("not json"), None);
    assert_eq!(reply_action("not json"), None);
    assert_eq!(json_object("{}"), Some("{}"));
    assert_eq!(reply_action("{}"), None);
    assert_eq!(reply_reasoning("{}"), "");
    assert_eq!(LlmAction::from_keyword("buy"), None);
}

#[test]
fn replies_with_braces_out_of_order_hold_no_object() {
    assert_eq!(json_object("} {"), None);
    assert_eq!(json_object("}} x {"), None);
    assert_eq!(reply_action("} {"), None);
}

#[test]
fn json_objects_run_from_the_first_open_to_the_last_close_brace() {
    assert_eq!(json_object("x {\"a\": {\"b\": 1}} y"), Some("{\"a\": {\"b\": 1}}"));
    assert_eq!(json_object("no braces"), None);
    assert_eq!(json_object("{ open only"), None);
    assert_eq!(json_object("close only }"), None);
    assert_eq!(json_object("}{"), Some(""));
    assert_eq!(json_object("{}"), Some("{}"));
}

#[test]
fn newest_slots_run_backwards_from_the_latest_event() {
    use_newest_slots();
}

fn use_newest_slots() {
    assert_eq!(sextant::perception::newest_slots(3, 20), vec![2, 1, 0]);
    assert_eq!(sextant::perception::newest_slots(70, 4), vec![5, 4, 3, 2]);
    assert_eq!(sextant::perception::newest_slots(0, 20), Vec::<usize>::new());
    assert_eq!(sextant::perception::newest_slots(25, 20).len(), 20);
}

#[test]
fn test_momentum_calculation() {
    let mut trace = [0.0f64; 64];
    for i in 0..10 {
        trace[i] = 100.0 + i as f64;
    }
    let (recent, old) = momentum_pair(10).unwrap();
    assert_eq!((recent, old), (9, 0));
    assert!(trace[recent] > trace[old]);
}

#[test]
fn reply_fields_are_read_from_the_json_object() {
    // The field is read out of the document, not the document handed back.
    assert_eq!(reply_action(r#"{"action": "HOLD"}"#), Some(LlmAction::Hold));
    assert_eq!(reply_reasoning(r#"x {"reasoning": "flat", "action": "BUY"} y"#), "flat");
    // A non-string action, an unknown word, a lowercase word, a bad document.
    assert_eq!(reply_action(r#"{"action": 1}"#), None);
    assert_eq!(reply_action(r#"{"action": "WAIT"}"#), None);
    assert_eq!(reply_action(r#"{"action": "buy"}"#), None);
    assert_eq!(reply_action(r#"{"action": "BUY",}"#), None);
    assert_eq!(action_from_field(Some("SELL")), Some(LlmAction::Sell));
    assert_eq!(action_from_field(None), None);
}
