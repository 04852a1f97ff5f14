use sextant::intent::IntentType;
use sextant::perception::LlmAction;
use sextant::router::{
    layer1_rules, model_intent, route_after, route_start, DecisionSource, Exposure, ModelReply, ModelTier, RouteStep,
    RouterModels, RuleReadings, RuleSignal, RuleTarget, TtlCache,
};

const SEC: u64 = 1_000_000_000;

const BOTH: RouterModels = RouterModels { has_small: true, has_large: true };
const NONE: RouterModels = RouterModels { has_small: false, has_large: false };

fn run(rule_confident: bool, cache_hit: bool, models: RouterModels, small: ModelReply, large: ModelReply) -> (DecisionSource, Vec<ModelTier>, Vec<ModelTier>) {
    let mut asked = Vec::new();
    let mut cached = Vec::new();
    let mut step = route_start(rule_confident, cache_hit, models);
    loop {
        match step {
            RouteStep::Decide(source) => return (source, asked, cached),
            RouteStep::Ask(tier) => {
                asked.push(tier);
                let reply = if tier == ModelTier::Small { small } else { large };
                let (next, cache) = route_after(tier, reply, models);
                if cache {
                    cached.push(tier);
                }
                step = next;
            }
        }
    }
}

#[test]
fn unsure_small_model_escalates_to_the_large_one() {
    let (source, asked, cached) = run(false, false, BOTH, ModelReply::Unsure, ModelReply::Confident);
    assert_eq!(source, DecisionSource::Model(ModelTier::Large));
    assert_eq!(asked, vec![ModelTier::Small, ModelTier::Large]);
    assert_eq!(cached, vec![ModelTier::Small, ModelTier::Large]);
    assert_eq!(model_intent(LlmAction::Sell), (IntentType::TrendFollow, Exposure::Short));
}

#[test]
fn confident_rules_and_cached_answers_skip_the_models() {
    assert_eq!(run(true, true, BOTH, ModelReply::Confident, ModelReply::Confident).0, DecisionSource::Rule);
    let (source, asked, _) = run(false, true, BOTH, ModelReply::Confident, ModelReply::Confident);
    assert_eq!(source, DecisionSource::Cache);
    assert!(asked.is_empty());
}

#[test]
fn failures_fall_back_to_the_rule_decision() {
    let (source, asked, cached) = run(false, false, BOTH, ModelReply::Failed, ModelReply::Failed);
    assert_eq!(source, DecisionSource::Rule);
    assert_eq!(asked.len(), 2);
    assert!(cached.is_empty());
    assert_eq!(run(false, false, NONE, ModelReply::Confident, ModelReply::Confident).0, DecisionSource::Rule);
    let small_only = RouterModels { has_small: true, has_large: false };
    assert_eq!(run(false, false, small_only, ModelReply::Unsure, ModelReply::Confident).0, DecisionSource::Rule);
    assert_eq!(run(false, false, small_only, ModelReply::Confident, ModelReply::Failed).0, DecisionSource::Model(ModelTier::Small));
}

#[test]
fn the_large_model_is_taken_at_its_word() {
    let large_only = RouterModels { has_small: false, has_large: true };
    let (source, asked, _) = run(false, false, large_only, ModelReply::Failed, ModelReply::Unsure);
    assert_eq!(source, DecisionSource::Model(ModelTier::Large));
    assert_eq!(asked, vec![ModelTier::Large]);
    assert_eq!(model_intent(LlmAction::Buy), (IntentType::TrendFollow, Exposure::Long));
    assert_eq!(model_intent(LlmAction::Hold), (IntentType::Hold, Exposure::Flat));
}

#[test]
fn cached_answers_expire_after_their_time_to_live() {
    let mut cache: TtlCache<&str> = TtlCache::new(60);
    assert_eq!(cache.get(7, 0), None);
    cache.insert(7, "hold", 10 * SEC);
    assert_eq!(cache.get(7, 10 * SEC), Some(&"hold"));
    assert_eq!(cache.get(7, 69 * SEC), Some(&"hold"));
    assert_eq!(cache.get(7, 70 * SEC - 1), Some(&"hold"));
    assert_eq!(cache.get(7, 70 * SEC), None);
    assert_eq!(cache.get(8, 10 * SEC), None);
    cache.insert(7, "buy", 80 * SEC);
    assert_eq!(cache.get(7, 81 * SEC), Some(&"buy"));
    assert_eq!(cache.get(7, 5 * SEC), Some(&"buy"));
    let zero: TtlCache<u8> = TtlCache::new(0);
    assert_eq!(zero.get(1, 0), None);
}

#[test]
fn crowded_caches_drop_stale_answers_first() {
    let mut cache: TtlCache<u64> = TtlCache::new(1);
    for k in 0..101u64 {
        cache.insert(k, k, 0);
    }
    cache.insert(500, 500, 5 * SEC);
    for k in 0..101u64 {
        assert_eq!(cache.get(k, 0), None);
    }
    assert_eq!(cache.get(500, 5 * SEC), Some(&500));
    let mut fresh: TtlCache<u64> = TtlCache::new(60);
    for k in 0..150u64 {
        fresh.insert(k, k * 2, k * SEC);
    }
    assert_eq!(fresh.get(0, 59 * SEC), None);
    assert_eq!(fresh.get(100, 149 * SEC), Some(&200));
    assert_eq!(fresh.get(149, 150 * SEC), Some(&298));
}

/// Readings with a quoted, narrow market, flat momentum and no position.
fn calm() -> RuleReadings {
    RuleReadings {
        high_risk: false,
        quoted: true,
        wide_spread: false,
        rising: false,
        falling: false,
        below_long: true,
        above_short: true,
    }
}

#[test]
fn rules_reduce_under_risk_pressure() {
    let s = layer1_rules(RuleReadings { high_risk: true, rising: true, ..calm() });
    assert_eq!(s, RuleSignal::ReduceRisk);
    assert_eq!(s.intent(), (IntentType::MeanReversion, RuleTarget::Reduced));
    // Risk pressure wins even without a quote.
    assert_eq!(layer1_rules(RuleReadings { high_risk: true, quoted: false, ..calm() }), RuleSignal::ReduceRisk);
}

#[test]
fn rules_hold_on_a_wide_spread() {
    let s = layer1_rules(RuleReadings { wide_spread: true, rising: true, ..calm() });
    assert_eq!(s, RuleSignal::Illiquid);
    assert_eq!(s.intent(), (IntentType::Hold, RuleTarget::Current));
}

#[test]
fn rules_follow_the_trend_until_the_base_size() {
    let up = layer1_rules(RuleReadings { rising: true, ..calm() });
    assert_eq!(up, RuleSignal::FollowUp);
    assert_eq!(up.intent(), (IntentType::TrendFollow, RuleTarget::Long));
    let down = layer1_rules(RuleReadings { falling: true, ..calm() });
    assert_eq!(down, RuleSignal::FollowDown);
    assert_eq!(down.intent(), (IntentType::TrendFollow, RuleTarget::Short));
    // Already long the base size: no more buying.
    assert_eq!(layer1_rules(RuleReadings { rising: true, below_long: false, ..calm() }), RuleSignal::NoSignal);
    // Already short the base size: no more selling.
    assert_eq!(layer1_rules(RuleReadings { falling: true, above_short: false, ..calm() }), RuleSignal::NoSignal);
}

#[test]
fn rules_escalate_without_a_signal() {
    // A trend without a quote is not followed.
    assert_eq!(layer1_rules(RuleReadings { quoted: false, rising: true, ..calm() }), RuleSignal::NoSignal);
    // Nor is a wide spread without a quote taken as illiquid.
    assert_eq!(layer1_rules(RuleReadings { quoted: false, wide_spread: true, ..calm() }), RuleSignal::NoSignal);
    let flat = layer1_rules(calm());
    assert_eq!(flat, RuleSignal::NoSignal);
    assert_eq!(flat.intent(), (IntentType::Hold, RuleTarget::Current));
}
