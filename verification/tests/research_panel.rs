use sextant::research_panel::{hypothesis_id, hypothesis_rows, ratchet_tally, sample_hypotheses, ResearchOutcome, SampleVerdicts};

fn outcome(h: &str, accepted: bool) -> ResearchOutcome {
    ResearchOutcome { hypothesis: h.to_string(), accepted }
}

#[test]
fn hypothesis_ids_pad_to_three_digits() {
    assert_eq!(hypothesis_id(0), "#H-000");
    assert_eq!(hypothesis_id(7), "#H-007");
    assert_eq!(hypothesis_id(42), "#H-042");
    assert_eq!(hypothesis_id(999), "#H-999");
    assert_eq!(hypothesis_id(1234), "#H-1234");
    for n in [0u64, 5, 17, 123, 4567, 99999] {
        assert_eq!(hypothesis_id(n), format!("#H-{:03}", n));
    }
}

#[test]
fn rows_link_each_hypothesis_to_the_one_before() {
    let outcomes = vec![
        outcome("Increase momentum window", true),
        outcome("Add volatility filter", false),
        outcome("Kelly sizing", true),
    ];
    let rows = hypothesis_rows(&outcomes);
    assert_eq!(rows.len(), 3);
    assert_eq!(rows[0].id, "#H-000");
    assert_eq!(rows[0].parent, "\u{2014}");
    assert_eq!(rows[0].description, "\"Increase momentum window\"");
    assert_eq!(rows[0].status, "ACCEPTED");
    assert_eq!(rows[1].id, "#H-001");
    assert_eq!(rows[1].parent, "#H-000");
    assert_eq!(rows[1].status, "REJECTED");
    assert_eq!(rows[2].parent, "#H-001");
    assert!(hypothesis_rows(&Vec::new()).is_empty());
}

#[test]
fn tally_counts_accepted_and_rejected() {
    let outcomes = vec![outcome("a", true), outcome("b", false), outcome("c", true), outcome("d", true)];
    assert_eq!(ratchet_tally(&outcomes), (3, 1));
    assert_eq!(ratchet_tally(&Vec::new()), (0, 0));
}

#[test]
fn sample_hypotheses_are_numbered_from_the_version() {
    let verdicts = SampleVerdicts { momentum_window: true, risk_filter: false, kelly_sizing: true };
    assert!(sample_hypotheses(10, false, verdicts).is_empty());
    let one = sample_hypotheses(15, false, verdicts);
    assert_eq!(one.len(), 1);
    assert_eq!((one[0].id.as_str(), one[0].parent.as_str(), one[0].status), ("#H-001", "#H-000", "ACCEPTED"));
    assert_eq!(one[0].description, "\"Increase momentum window to 20 bars\"");
    let all = sample_hypotheses(35, true, verdicts);
    let ids: Vec<(&str, &str, &str)> = all.iter().map(|r| (r.id.as_str(), r.parent.as_str(), r.status)).collect();
    assert_eq!(ids, vec![("#H-003", "#H-002", "ACCEPTED"), ("#H-004", "#H-003", "REJECTED"), ("#H-005", "#H-004", "ACCEPTED")]);
    assert_eq!(sample_hypotheses(5, true, verdicts).len(), 1);
    let wrapped = sample_hypotheses(1009, false, verdicts);
    assert_eq!((wrapped[0].id.as_str(), wrapped[1].id.as_str()), ("#H-000", "#H-001"));
    assert_eq!(wrapped[0].parent, "#H-099");
}
