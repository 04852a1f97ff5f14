use sextant::event_file::{FileCursor, ReadStep, MAX_READ_ATTEMPTS};
use sextant::event_ring::{
    drain_plan, payload_len, slot_offset, EventRing, ExtendedEventHeader, RingCursor, EVENT_BUFFER_SIZE,
    HEADER_SIZE, MAX_EVENT_BYTES, TOTAL_FILE_SIZE,
};

fn order_submitted(i: u64) -> Vec<u8> {
    format!(
        "{{\"OrderSubmitted\":{{\"intent_id\":\"intent-{}\",\"order_type\":\"Market\",\"instrument\":\"BTC-USDT-SWAP.OKX\",\"side\":\"Buy\",\"quantity\":0.01,\"price\":null,\"timestamp_ns\":{}}}}}",
        i,
        1_700_000_000 + i
    )
    .into_bytes()
}

#[test]
fn test_round_trip() {
    let mut ring = EventRing::new();
    let mut reader = RingCursor::new();
    for i in 0..5 {
        assert!(ring.push(&order_submitted(i)));
    }
    let events = ring.drain_new(&mut reader);
    assert_eq!(events.len(), 5);
    assert_eq!(events[0], order_submitted(0));
    assert!(String::from_utf8(events[0].clone()).unwrap().contains("intent-0"));

    // Second read should be empty
    let events2 = ring.drain_new(&mut reader);
    assert!(events2.is_empty());
}

#[test]
fn test_ring_buffer_wrap() {
    let mut ring = EventRing::new();
    let mut reader = RingCursor::new();
    for i in 0..300u64 {
        let text = format!(
            "{{\"RiskAlert\":{{\"dimension\":\"position\",\"value\":{}.0,\"threshold\":100.0,\"timestamp_ns\":{}}}}}",
            i, i
        );
        assert!(ring.push(text.as_bytes()));
    }
    let events = ring.drain_new(&mut reader);
    assert!(events.len() <= EVENT_BUFFER_SIZE);
    assert!(events.len() > 0);
    // Exactly the newest EVENT_BUFFER_SIZE, oldest first.
    assert_eq!(events.len(), EVENT_BUFFER_SIZE);
    assert!(String::from_utf8(events[0].clone()).unwrap().contains("\"timestamp_ns\":44}"));
    assert!(String::from_utf8(events[255].clone()).unwrap().contains("\"timestamp_ns\":299}"));
}

#[test]
fn test_event_types() {
    let mut ring = EventRing::new();
    let mut reader = RingCursor::new();
    let payloads = [
        "{\"IntentGenerated\":{\"agent_id\":\"momentum-01\",\"intent_type\":\"TrendFollow\",\"title\":\"Buy BTC\",\"reasoning\":\"Strong momentum\",\"confidence\":0.85,\"confidence_label\":\"High\",\"instrument\":\"BTC-USDT-SWAP.OKX\",\"timestamp_ns\":1700000000}}",
        "{\"OrderFilled\":{\"order_id\":\"ord-001\",\"fill_price\":65000.0,\"fill_qty\":0.01,\"slippage_bps\":2.5,\"timestamp_ns\":1700000001}}",
        "{\"AutoresearchResult\":{\"hypothesis\":\"Increase momentum window\",\"ir_before\":1.2,\"ir_after\":1.35,\"accepted\":true,\"timestamp_ns\":1700000002}}",
    ];
    for p in payloads.iter() {
        assert!(ring.push(p.as_bytes()));
    }
    let events = ring.drain_new(&mut reader);
    assert_eq!(events.len(), 3);
}

#[test]
fn oversized_and_empty_payloads() {
    let mut ring = EventRing::new();
    let mut reader = RingCursor::new();
    let big = vec![b'x'; MAX_EVENT_BYTES + 1];
    assert!(!ring.push(&big));
    assert_eq!(ring.header(), ExtendedEventHeader { seq: 0, write_index: 0, event_count: 0 });
    let full = vec![b'y'; MAX_EVENT_BYTES];
    assert!(ring.push(&full));
    assert!(ring.push(b""));
    assert!(ring.push(b"ab\0cd"));
    let events = ring.drain_new(&mut reader);
    // The empty payload yields nothing; a zero byte cuts a payload short.
    assert_eq!(events, vec![full, b"ab".to_vec()]);
    assert_eq!(reader.last_seen_count(), 3);
}

#[test]
fn header_and_sequence_follow_writes() {
    let mut ring = EventRing::new();
    assert!(ring.push(b"a"));
    assert!(ring.push(b"b"));
    let h = ring.header();
    assert_eq!(h.seq, 4, "each write advances the sequence word by two");
    assert_eq!(h.write_index, 2);
    assert_eq!(h.event_count, 2);
    assert_eq!(ring.slot(1)[0], b'b');
    assert_eq!(ring.slot(1).len(), MAX_EVENT_BYTES);
    assert_eq!(TOTAL_FILE_SIZE, HEADER_SIZE + EVENT_BUFFER_SIZE * MAX_EVENT_BYTES);
    assert_eq!(slot_offset(3), 16 + 3 * 512);
}

#[test]
fn drain_plan_wraps_counters() {
    assert!(drain_plan(5, 5).is_empty());
    assert_eq!(drain_plan(3, 0), vec![0, 1, 2]);
    // Counter wrapped past 2^32: 4 events since last read.
    assert_eq!(drain_plan(2, u32::MAX - 1), vec![254, 255, 0, 1]);
    let plan = drain_plan(300, 0);
    assert_eq!(plan.len(), 256);
    assert_eq!(plan[0], 44);
    assert_eq!(plan[255], 43);
    assert_eq!(payload_len(b"abc\0\0"), 3);
    assert_eq!(payload_len(b"abc"), 3);
    assert_eq!(payload_len(b"\0abc"), 0);
    let h = ExtendedEventHeader { seq: 0, write_index: 255, event_count: u32::MAX };
    let n = h.advanced();
    assert_eq!((n.write_index, n.event_count), (0, 0));
    assert_eq!(h.slot_index(), 255);
}

#[test]
fn file_reader_takes_slots_only_around_a_stable_header() {
    let mut c = FileCursor::new();
    c.begin_drain();
    // A write in progress (odd word): wait.
    let busy = ExtendedEventHeader { seq: 3, write_index: 2, event_count: 2 };
    assert!(matches!(c.look(busy), ReadStep::Wait));
    // Stable: read the two slots written.
    let first = ExtendedEventHeader { seq: 4, write_index: 2, event_count: 2 };
    match c.look(first) {
        ReadStep::ReadSlots(slots) => assert_eq!(slots, vec![0, 1]),
        _ => panic!("expected slots to read"),
    }
    // A write began in between: the word changed, retry.
    assert!(!c.confirm(first, 5));
    assert_eq!(c.last_count, 0);
    // Unchanged: the read stands.
    assert!(c.confirm(first, 4));
    assert_eq!(c.last_count, 2);
    assert!(matches!(c.look(first), ReadStep::NothingNew));
    assert_eq!(c.attempts, 3);
    // Out of attempts.
    c.attempts = MAX_READ_ATTEMPTS;
    assert!(matches!(c.look(busy), ReadStep::GiveUp));
    c.begin_drain();
    assert_eq!(c.attempts, 0);
}
