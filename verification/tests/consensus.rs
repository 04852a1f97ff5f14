use sextant::consensus::{
    Ballot, ConsensusEngine, ConsensusStrategy, HierarchicalConsensus, Pick, PipelineConsensus, Score,
    WeightedVoteConsensus,
};
use sextant::intent::IntentType;

/// Order key of a real number: a strictly increasing map into `i64`
/// (NaN has none).
fn rank(x: f64) -> Score {
    if x.is_nan() {
        return Score::Unordered;
    }
    let bits = (x + 0.0).to_bits() as i64;
    Score::Ranked(if bits < 0 { bits ^ i64::MAX } else { bits })
}

fn ballot_on(agent_id: &str, intent_type: IntentType, confidence: f64, reputation: f64, instrument: &str) -> Ballot {
    let pipeline_confidence = if confidence.is_nan() { -1.0 } else { confidence };
    Ballot {
        agent_id: agent_id.to_string(),
        intent_type,
        instrument: instrument.to_string(),
        confidence: rank(pipeline_confidence),
        vote: rank(confidence * reputation),
    }
}

fn make_intent(agent_id: &str, intent_type: IntentType, confidence: f64) -> Ballot {
    ballot_on(agent_id, intent_type, confidence, 0.5, "BTC-USDT-SWAP.OKX")
}

fn kept(ballots: &[Ballot], picks: &[Pick]) -> Vec<String> {
    picks
        .iter()
        .map(|p| match p {
            Pick::Keep(i) => ballots[*i].agent_id.clone(),
            Pick::HoldFrom(i) => format!("hold:{}", ballots[*i].agent_id),
        })
        .collect()
}

#[test]
fn test_pipeline_picks_highest_confidence() {
    let engine = PipelineConsensus;
    let intents = vec![
        make_intent("a", IntentType::TrendFollow, 0.3),
        make_intent("b", IntentType::MeanReversion, 0.9),
        make_intent("c", IntentType::TrendFollow, 0.6),
    ];
    let result = engine.resolve(&intents);
    assert_eq!(result.len(), 1);
    assert_eq!(kept(&intents, &result)[0], "b");
}

#[test]
fn test_pipeline_veto_overrides() {
    let engine = PipelineConsensus;
    let intents = vec![
        make_intent("a", IntentType::TrendFollow, 0.9),
        make_intent("risk", IntentType::Veto, 1.0),
    ];
    let result = engine.resolve(&intents);
    assert_eq!(result.len(), 1);
    // The survivor is a Hold on behalf of the vetoing agent.
    assert_eq!(result[0], Pick::HoldFrom(1));
}

#[test]
fn test_pipeline_all_hold() {
    let engine = PipelineConsensus;
    let intents = vec![
        make_intent("a", IntentType::Hold, 0.0),
        make_intent("b", IntentType::Hold, 0.0),
    ];
    let result = engine.resolve(&intents);
    assert_eq!(result.len(), 1);
    match result[0] {
        Pick::Keep(i) => assert_eq!(intents[i].intent_type, IntentType::Hold),
        Pick::HoldFrom(_) => panic!("no veto was cast"),
    }
}

#[test]
fn test_weighted_vote() {
    let engine = WeightedVoteConsensus;
    // a: 0.8*0.3=0.24, b: 0.6*0.9=0.54 → b wins
    let a = ballot_on("a", IntentType::TrendFollow, 0.8, 0.3, "BTC-USDT-SWAP.OKX");
    let b = ballot_on("b", IntentType::MeanReversion, 0.6, 0.9, "BTC-USDT-SWAP.OKX");
    let intents = vec![a, b];
    let result = engine.resolve(&intents);
    assert_eq!(result.len(), 1);
    assert_eq!(kept(&intents, &result)[0], "b");
}

#[test]
fn test_hierarchical_priority() {
    let engine = HierarchicalConsensus { priority: vec!["risk".to_string(), "strategy".to_string()] };
    let intents = vec![
        make_intent("strategy", IntentType::TrendFollow, 0.9),
        make_intent("risk", IntentType::MeanReversion, 0.5),
    ];
    let result = engine.resolve(&intents);
    assert_eq!(result.len(), 1);
    assert_eq!(kept(&intents, &result)[0], "risk"); // higher priority
}

#[test]
fn pipeline_first_veto_wins_and_ties_go_to_later() {
    let intents = vec![
        make_intent("a", IntentType::Veto, 1.0),
        make_intent("b", IntentType::Veto, 1.0),
    ];
    assert_eq!(PipelineConsensus.resolve(&intents), vec![Pick::HoldFrom(0)]);

    let tied = vec![
        make_intent("a", IntentType::TrendFollow, 0.7),
        make_intent("b", IntentType::Hold, 0.9),
        make_intent("c", IntentType::DeltaHedge, 0.7),
    ];
    assert_eq!(PipelineConsensus.resolve(&tied), vec![Pick::Keep(2)]);
    assert!(PipelineConsensus.resolve(&Vec::new()).is_empty());
}

#[test]
fn pipeline_nan_confidence_counts_as_minus_one() {
    let intents = vec![
        make_intent("nan", IntentType::TrendFollow, f64::NAN),
        make_intent("neg", IntentType::TrendFollow, -0.5),
    ];
    assert_eq!(kept(&intents, &PipelineConsensus.resolve(&intents)), vec!["neg"]);
}

#[test]
fn grouped_engines_pick_one_per_instrument_in_first_seen_order() {
    let intents = vec![
        ballot_on("a", IntentType::TrendFollow, 0.2, 1.0, "ETH-USDT.OKX"),
        ballot_on("b", IntentType::Hold, 0.9, 1.0, "SOL-USDT.OKX"),
        ballot_on("c", IntentType::MeanReversion, 0.8, 1.0, "BTC-USDT.OKX"),
        ballot_on("d", IntentType::TrendFollow, 0.6, 1.0, "ETH-USDT.OKX"),
    ];
    let vote = WeightedVoteConsensus.resolve(&intents);
    assert_eq!(kept(&intents, &vote), vec!["d", "c"]);
    let hier = HierarchicalConsensus { priority: vec!["a".to_string()] }.resolve(&intents);
    assert_eq!(kept(&intents, &hier), vec!["a", "c"]);
    // The weighted vote does not single out a Veto: it competes on its vote.
    let with_veto = vec![
        ballot_on("risk", IntentType::Veto, 1.0, 1.0, "ETH-USDT.OKX"),
        ballot_on("a", IntentType::TrendFollow, 0.5, 1.0, "ETH-USDT.OKX"),
    ];
    assert_eq!(kept(&with_veto, &WeightedVoteConsensus.resolve(&with_veto)), vec!["risk"]);
}

#[test]
fn hierarchical_unlisted_agents_rank_last_and_ties_go_to_later() {
    let intents = vec![
        make_intent("x", IntentType::TrendFollow, 0.9),
        make_intent("y", IntentType::TrendFollow, 0.1),
    ];
    let engine = HierarchicalConsensus { priority: vec!["z".to_string()] };
    assert_eq!(kept(&intents, &engine.resolve(&intents)), vec!["y"]);
}

#[test]
fn strategy_dispatch_and_names() {
    let intents = vec![
        make_intent("a", IntentType::TrendFollow, 0.3),
        make_intent("b", IntentType::MeanReversion, 0.9),
    ];
    assert_eq!(ConsensusStrategy::Pipeline.resolve(&intents), PipelineConsensus.resolve(&intents));
    assert_eq!(ConsensusStrategy::WeightedVote.resolve(&intents), vec![Pick::Keep(1)]);
    let h = ConsensusStrategy::Hierarchical { priority: vec!["a".to_string()] };
    assert_eq!(h.resolve(&intents), vec![Pick::Keep(0)]);
    assert_eq!(PipelineConsensus.name(), "Pipeline");
    assert_eq!(WeightedVoteConsensus.name(), "WeightedVote");
    assert_eq!(HierarchicalConsensus { priority: vec![] }.name(), "Hierarchical");
}
