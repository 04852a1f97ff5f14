//! The escalation of the three-layer perception router. The rule layer
//! answers first; when it is not confident enough, a cached model answer is
//! used if there is one, else the small model is asked, then the large one,
//! and when every model is missing or fails, the rule answer stands. The
//! router performs each question and reports the reply; this module says
//! what to do next and whether the reply goes into the cache.

use std::collections::HashMap;
use vstd::prelude::*;
use crate::intent::IntentType;
use crate::perception::LlmAction;

verus! {

/// A language model the router can ask.
#[derive(Clone, Copy, Debug, PartialEq, Eq, Structural)]
pub enum ModelTier {
    Small,
    Large,
}

/// Which models the router was built with.
#[derive(Clone, Copy, Debug, PartialEq, Eq, Structural)]
pub struct RouterModels {
    pub has_small: bool,
    pub has_large: bool,
}

/// Where the router's decision comes from.
#[derive(Clone, Copy, Debug, PartialEq, Eq, Structural)]
pub enum DecisionSource {
    /// The rule layer's decision.
    Rule,
    /// A cached model decision.
    Cache,
    /// The reply of a model.
    Model(ModelTier),
}

/// What the router does next.
#[derive(Clone, Copy, Debug, PartialEq, Eq, Structural)]
pub enum RouteStep {
    /// Return the decision from this source.
    Decide(DecisionSource),
    /// Ask this model.
    Ask(ModelTier),
}

/// How a model answered.
#[derive(Clone, Copy, Debug, PartialEq, Eq, Structural)]
pub enum ModelReply {
    /// An answer at or above the layer's confidence threshold.
    Confident,
    /// An answer below the threshold.
    Unsure,
    /// An error or a timeout.
    Failed,
}

/// The router's next step once the small model is done with: ask the
/// large model if there is one, else fall back to the rule decision.
pub open spec fn after_small(models: RouterModels) -> RouteStep {
    if models.has_large {
        RouteStep::Ask(ModelTier::Large)
    } else {
        RouteStep::Decide(DecisionSource::Rule)
    }
}

/// The router's first step, once the rule layer has decided.
pub open spec fn first_step(rule_confident: bool, cache_hit: bool, models: RouterModels) -> RouteStep {
    if rule_confident {
        RouteStep::Decide(DecisionSource::Rule)
    } else if cache_hit {
        RouteStep::Decide(DecisionSource::Cache)
    } else if models.has_small {
        RouteStep::Ask(ModelTier::Small)
    } else {
        after_small(models)
    }
}

/// The router's step after `tier` replied, and whether the reply is cached:
/// every answer is cached, no failure is; a confident small answer is
/// returned, an unsure or failed one escalates; the large model's answer is
/// returned whatever its confidence, and its failure falls back to the rule
/// decision.
pub open spec fn step_after_reply(tier: ModelTier, reply: ModelReply, models: RouterModels) -> (RouteStep, bool) {
    match tier {
        ModelTier::Small => match reply {
            ModelReply::Confident => (RouteStep::Decide(DecisionSource::Model(ModelTier::Small)), true),
            ModelReply::Unsure => (after_small(models), true),
            ModelReply::Failed => (after_small(models), false),
        },
        ModelTier::Large => match reply {
            ModelReply::Failed => (RouteStep::Decide(DecisionSource::Rule), false),
            _ => (RouteStep::Decide(DecisionSource::Model(ModelTier::Large)), true),
        },
    }
}

/// The first step of a route.
pub fn route_start(rule_confident: bool, cache_hit: bool, models: RouterModels) -> (r: RouteStep)
    ensures
        r == first_step(rule_confident, cache_hit, models),
{
    if rule_confident {
        RouteStep::Decide(DecisionSource::Rule)
    } else if cache_hit {
        RouteStep::Decide(DecisionSource::Cache)
    } else if models.has_small {
        RouteStep::Ask(ModelTier::Small)
    } else if models.has_large {
        RouteStep::Ask(ModelTier::Large)
    } else {
        RouteStep::Decide(DecisionSource::Rule)
    }
}

/// The step after a model's reply, and whether to cache the reply.
pub fn route_after(tier: ModelTier, reply: ModelReply, models: RouterModels) -> (r: (RouteStep, bool))
    ensures
        r == step_after_reply(tier, reply, models),
{
    let next_after_small = if models.has_large {
        RouteStep::Ask(ModelTier::Large)
    } else {
        RouteStep::Decide(DecisionSource::Rule)
    };
    match tier {
        ModelTier::Small => match reply {
            ModelReply::Confident => (RouteStep::Decide(DecisionSource::Model(ModelTier::Small)), true),
            ModelReply::Unsure => (next_after_small, true),
            ModelReply::Failed => (next_after_small, false),
        },
        ModelTier::Large => match reply {
            ModelReply::Failed => (RouteStep::Decide(DecisionSource::Rule), false),
            _ => (RouteStep::Decide(DecisionSource::Model(ModelTier::Large)), true),
        },
    }
}

/// Where a whole route ends, for the replies the models would give.
pub open spec fn route_outcome(
    rule_confident: bool,
    cache_hit: bool,
    models: RouterModels,
    small: ModelReply,
    large: ModelReply,
) -> DecisionSource {
    match first_step(rule_confident, cache_hit, models) {
        RouteStep::Decide(s) => s,
        RouteStep::Ask(ModelTier::Large) => match step_after_reply(ModelTier::Large, large, models).0 {
            RouteStep::Decide(s) => s,
            RouteStep::Ask(_) => DecisionSource::Rule,
        },
        RouteStep::Ask(ModelTier::Small) => match step_after_reply(ModelTier::Small, small, models).0 {
            RouteStep::Decide(s) => s,
            RouteStep::Ask(_) => match step_after_reply(ModelTier::Large, large, models).0 {
                RouteStep::Decide(s) => s,
                RouteStep::Ask(_) => DecisionSource::Rule,
            },
        },
    }
}

/// Every route ends in a decision after at most two questions: the small
/// model is asked at most once and before the large one, and the large
/// model's step is always a decision.
pub proof fn lemma_route_terminates(tier: ModelTier, reply: ModelReply, models: RouterModels)
    ensures
        step_after_reply(ModelTier::Large, reply, models).0 is Decide,
        step_after_reply(tier, reply, models).0 != RouteStep::Ask(ModelTier::Small),
{
}

/// The route's first step, case by case: a confident rule layer decides;
/// else a cached answer is returned; else the small model is asked if there
/// is one, else the large model, else the rule layer decides anyway.
pub proof fn lemma_first_step_cases(rule_confident: bool, cache_hit: bool, models: RouterModels)
    ensures
        rule_confident ==> first_step(rule_confident, cache_hit, models) == RouteStep::Decide(DecisionSource::Rule),
        !rule_confident && cache_hit ==> first_step(rule_confident, cache_hit, models) == RouteStep::Decide(
            DecisionSource::Cache,
        ),
        !rule_confident && !cache_hit && models.has_small ==> first_step(rule_confident, cache_hit, models)
            == RouteStep::Ask(ModelTier::Small),
        !rule_confident && !cache_hit && !models.has_small && models.has_large ==> first_step(
            rule_confident,
            cache_hit,
            models,
        ) == RouteStep::Ask(ModelTier::Large),
        !rule_confident && !cache_hit && !models.has_small && !models.has_large ==> first_step(
            rule_confident,
            cache_hit,
            models,
        ) == RouteStep::Decide(DecisionSource::Rule),
{
}

/// The step after a reply, case by case. The small model's confident
/// answer is returned, whatever models are configured; its unsure answer
/// escalates to the large model if there is one, else falls back to the
/// rules; a failure does the same and is not cached. The large model's
/// answer is returned whatever its confidence; its failure falls back to
/// the rules. Every answer is cached, no failure is.
pub proof fn lemma_reply_cases(reply: ModelReply, models: RouterModels)
    ensures
        step_after_reply(ModelTier::Small, ModelReply::Confident, models) == (
            RouteStep::Decide(DecisionSource::Model(ModelTier::Small)),
            true,
        ),
        step_after_reply(ModelTier::Small, ModelReply::Unsure, models) == (
            if models.has_large { RouteStep::Ask(ModelTier::Large) } else { RouteStep::Decide(DecisionSource::Rule) },
            true,
        ),
        step_after_reply(ModelTier::Small, ModelReply::Failed, models) == (
            if models.has_large { RouteStep::Ask(ModelTier::Large) } else { RouteStep::Decide(DecisionSource::Rule) },
            false,
        ),
        reply != ModelReply::Failed ==> step_after_reply(ModelTier::Large, reply, models) == (
            RouteStep::Decide(DecisionSource::Model(ModelTier::Large)),
            true,
        ),
        step_after_reply(ModelTier::Large, ModelReply::Failed, models) == (
            RouteStep::Decide(DecisionSource::Rule),
            false,
        ),
{
}

/// Where a whole route ends when the rule layer is unsure and nothing is
/// cached: with a small model, its confident answer; otherwise the large
/// model's answer if it gives one; otherwise the rules.
pub proof fn lemma_route_outcome_cases(models: RouterModels, small: ModelReply, large: ModelReply)
    ensures
        models.has_small && small == ModelReply::Confident ==> route_outcome(false, false, models, small, large)
            == DecisionSource::Model(ModelTier::Small),
        models.has_small && small != ModelReply::Confident && models.has_large && large != ModelReply::Failed
            ==> route_outcome(false, false, models, small, large) == DecisionSource::Model(ModelTier::Large),
        !models.has_small && models.has_large && large != ModelReply::Failed ==> route_outcome(
            false,
            false,
            models,
            small,
            large,
        ) == DecisionSource::Model(ModelTier::Large),
        (models.has_small ==> small != ModelReply::Confident) && (!models.has_large || large == ModelReply::Failed)
            ==> route_outcome(false, false, models, small, large) == DecisionSource::Rule,
{
}

/// The models are consulted only when the rule layer is unsure and nothing
/// is cached; a failed reply is never cached; and when every model present
/// fails, the rule layer's decision is returned.
pub proof fn lemma_rule_decision_is_the_fallback(
    rule_confident: bool,
    cache_hit: bool,
    models: RouterModels,
    tier: ModelTier,
    small: ModelReply,
    large: ModelReply,
)
    ensures
        (rule_confident || cache_hit) ==> first_step(rule_confident, cache_hit, models) is Decide,
        !step_after_reply(tier, ModelReply::Failed, models).1,
        route_outcome(rule_confident, cache_hit, models, ModelReply::Failed, ModelReply::Failed)
            == (if rule_confident { DecisionSource::Rule } else if cache_hit { DecisionSource::Cache } else {
            DecisionSource::Rule
        }),
        (!rule_confident && !cache_hit && !models.has_small && !models.has_large) ==> route_outcome(
            rule_confident,
            cache_hit,
            models,
            small,
            large,
        ) == DecisionSource::Rule,
{
}

/// What the rule layer reads of the context window, as compared by the
/// caller with its thresholds.
#[derive(Clone, Copy, Debug, PartialEq, Eq, Structural)]
pub struct RuleReadings {
    /// The risk potential is above one half.
    pub high_risk: bool,
    /// The market text holds both a bid and an ask.
    pub quoted: bool,
    /// The spread is wider than 50 basis points.
    pub wide_spread: bool,
    /// The momentum is above +0.0005.
    pub rising: bool,
    /// The momentum is below -0.0005.
    pub falling: bool,
    /// The position is below the base size.
    pub below_long: bool,
    /// The position is above the negated base size.
    pub above_short: bool,
}

/// The rule layer's signal.
#[derive(Clone, Copy, Debug, PartialEq, Eq, Structural)]
pub enum RuleSignal {
    /// Risk pressure: reduce the position in proportion to the risk.
    ReduceRisk,
    /// Wide spread: hold, the market is illiquid.
    Illiquid,
    /// Positive momentum: go long the base size.
    FollowUp,
    /// Negative momentum: go short the base size.
    FollowDown,
    /// No clear signal: hold, with a confidence low enough to escalate.
    NoSignal,
}

/// The rule layer's signal: risk pressure first; then, when the market is
/// quoted, a wide spread, then a trend to follow while the position is not
/// already there.
pub open spec fn rule_signal(r: RuleReadings) -> RuleSignal {
    if r.high_risk {
        RuleSignal::ReduceRisk
    } else if r.quoted && r.wide_spread {
        RuleSignal::Illiquid
    } else if r.quoted && r.rising && r.below_long {
        RuleSignal::FollowUp
    } else if r.quoted && r.falling && r.above_short {
        RuleSignal::FollowDown
    } else {
        RuleSignal::NoSignal
    }
}

/// The position a rule decision targets.
#[derive(Clone, Copy, Debug, PartialEq, Eq, Structural)]
pub enum RuleTarget {
    /// The current position, reduced by the risk.
    Reduced,
    /// The current position.
    Current,
    /// The base size, long.
    Long,
    /// The base size, short.
    Short,
}

/// The intent and target of each rule signal.
pub open spec fn rule_intent(s: RuleSignal) -> (IntentType, RuleTarget) {
    match s {
        RuleSignal::ReduceRisk => (IntentType::MeanReversion, RuleTarget::Reduced),
        RuleSignal::Illiquid => (IntentType::Hold, RuleTarget::Current),
        RuleSignal::FollowUp => (IntentType::TrendFollow, RuleTarget::Long),
        RuleSignal::FollowDown => (IntentType::TrendFollow, RuleTarget::Short),
        RuleSignal::NoSignal => (IntentType::Hold, RuleTarget::Current),
    }
}

/// The rule layer's decision for its readings.
pub fn layer1_rules(r: RuleReadings) -> (s: RuleSignal)
    ensures
        s == rule_signal(r),
{
    if r.high_risk {
        RuleSignal::ReduceRisk
    } else if r.quoted && r.wide_spread {
        RuleSignal::Illiquid
    } else if r.quoted && r.rising && r.below_long {
        RuleSignal::FollowUp
    } else if r.quoted && r.falling && r.above_short {
        RuleSignal::FollowDown
    } else {
        RuleSignal::NoSignal
    }
}

impl RuleSignal {
    /// The intent and target the signal stands for.
    pub fn intent(self) -> (r: (IntentType, RuleTarget))
        ensures
            r == rule_intent(self),
    {
        match self {
            RuleSignal::ReduceRisk => (IntentType::MeanReversion, RuleTarget::Reduced),
            RuleSignal::Illiquid => (IntentType::Hold, RuleTarget::Current),
            RuleSignal::FollowUp => (IntentType::TrendFollow, RuleTarget::Long),
            RuleSignal::FollowDown => (IntentType::TrendFollow, RuleTarget::Short),
            RuleSignal::NoSignal => (IntentType::Hold, RuleTarget::Current),
        }
    }
}

/// The rule layer never adds to a position already at the base size in the
/// trend's direction, trades only on a quoted market unless risk presses,
/// and under risk pressure only reduces.
pub proof fn lemma_rules_respect_position(r: RuleReadings)
    ensures
        rule_signal(r) == RuleSignal::FollowUp ==> r.below_long && r.quoted && !r.high_risk,
        rule_signal(r) == RuleSignal::FollowDown ==> r.above_short && r.quoted && !r.high_risk,
        r.high_risk ==> rule_intent(rule_signal(r)) == (IntentType::MeanReversion, RuleTarget::Reduced),
        !r.quoted && !r.high_risk ==> rule_signal(r) == RuleSignal::NoSignal,
{
}

/// The rule layer, case by case: risk pressure reduces, whatever else;
/// then, on a quoted market, a wide spread holds as illiquid, rising
/// momentum goes long unless already long the base size, falling momentum
/// goes short unless already short it; anything else holds with low
/// confidence.
pub proof fn lemma_rule_cases(r: RuleReadings)
    ensures
        r.high_risk ==> rule_signal(r) == RuleSignal::ReduceRisk,
        !r.high_risk && r.quoted && r.wide_spread ==> rule_signal(r) == RuleSignal::Illiquid,
        !r.high_risk && r.quoted && !r.wide_spread && r.rising && r.below_long ==> rule_signal(r)
            == RuleSignal::FollowUp,
        !r.high_risk && r.quoted && !r.wide_spread && !(r.rising && r.below_long) && r.falling && r.above_short
            ==> rule_signal(r) == RuleSignal::FollowDown,
        !r.high_risk && !r.quoted ==> rule_signal(r) == RuleSignal::NoSignal,
        !r.high_risk && !r.wide_spread && !(r.rising && r.below_long) && !(r.falling && r.above_short)
            ==> rule_signal(r) == RuleSignal::NoSignal,
        rule_intent(RuleSignal::ReduceRisk) == (IntentType::MeanReversion, RuleTarget::Reduced),
        rule_intent(RuleSignal::Illiquid) == (IntentType::Hold, RuleTarget::Current),
        rule_intent(RuleSignal::FollowUp) == (IntentType::TrendFollow, RuleTarget::Long),
        rule_intent(RuleSignal::FollowDown) == (IntentType::TrendFollow, RuleTarget::Short),
        rule_intent(RuleSignal::NoSignal) == (IntentType::Hold, RuleTarget::Current),
{
}

/// The direction of the position a model's answer asks for.
#[derive(Clone, Copy, Debug, PartialEq, Eq, Structural)]
pub enum Exposure {
    /// The base size, long.
    Long,
    /// The base size, short.
    Short,
    /// No position.
    Flat,
}

/// The intent and position a model's action stands for: buying and
/// selling follow the trend, long or short; holding asks for no position.
pub open spec fn action_intent(action: LlmAction) -> (IntentType, Exposure) {
    match action {
        LlmAction::Buy => (IntentType::TrendFollow, Exposure::Long),
        LlmAction::Sell => (IntentType::TrendFollow, Exposure::Short),
        LlmAction::Hold => (IntentType::Hold, Exposure::Flat),
    }
}

/// A model's buy goes long and its sell short, both following the trend;
/// its hold asks for no position.
pub proof fn lemma_action_cases(action: LlmAction)
    ensures
        action == LlmAction::Buy ==> action_intent(action) == (IntentType::TrendFollow, Exposure::Long),
        action == LlmAction::Sell ==> action_intent(action) == (IntentType::TrendFollow, Exposure::Short),
        action == LlmAction::Hold ==> action_intent(action) == (IntentType::Hold, Exposure::Flat),
{
}

/// The intent and position a model's action stands for.
pub fn model_intent(action: LlmAction) -> (r: (IntentType, Exposure))
    ensures
        r == action_intent(action),
{
    match action {
        LlmAction::Buy => (IntentType::TrendFollow, Exposure::Long),
        LlmAction::Sell => (IntentType::TrendFollow, Exposure::Short),
        LlmAction::Hold => (IntentType::Hold, Exposure::Flat),
    }
}

broadcast use vstd::std_specs::hash::group_hash_axioms;

/// How long before `now` an entry was stored at `stamp`, in nanoseconds; a
/// clock reading before the stamp counts as no time at all.
pub open spec fn age(stamp: u64, now: u64) -> nat {
    if now >= stamp {
        (now - stamp) as nat
    } else {
        0
    }
}

/// Whether an entry stored at `stamp` is still served at `now` by a cache
/// whose entries live `ttl_secs` seconds.
pub open spec fn is_fresh(stamp: u64, now: u64, ttl_secs: u64) -> bool {
    age(stamp, now) < ttl_secs * 1_000_000_000
}

fn fresh(stamp: u64, now: u64, ttl_secs: u64) -> (r: bool)
    ensures
        r == is_fresh(stamp, now, ttl_secs),
{
    let elapsed: u64 = if now >= stamp { now - stamp } else { 0 };
    (elapsed as u128) < (ttl_secs as u128) * 1_000_000_000u128
}

/// Number of entries above which an insertion first drops the stale ones.
pub const EVICTION_THRESHOLD: usize = 100;

/// The answer a cache holding `m` serves for `key` at `now`: the stored
/// answer while it is fresh, none after.
pub open spec fn cached_answer<D>(m: Map<u64, (u64, D)>, key: u64, now: u64, ttl_secs: u64) -> Option<D> {
    if m.contains_key(key) && is_fresh(m[key].0, now, ttl_secs) {
        Some(m[key].1)
    } else {
        None
    }
}

/// The entries of `m` that are still fresh at `now`.
pub open spec fn fresh_entries<D>(m: Map<u64, (u64, D)>, now: u64, ttl_secs: u64) -> Map<u64, (u64, D)> {
    m.filter_keys(|k: u64| is_fresh(m[k].0, now, ttl_secs))
}

/// The entries after storing `d` under `key` at `now`: once more than
/// `EVICTION_THRESHOLD` entries are held, the stale ones are dropped first.
pub open spec fn stored<D>(m: Map<u64, (u64, D)>, key: u64, d: D, now: u64, ttl_secs: u64) -> Map<u64, (u64, D)> {
    let kept = if m.len() > EVICTION_THRESHOLD { fresh_entries(m, now, ttl_secs) } else { m };
    kept.insert(key, (now, d))
}

proof fn lemma_push_new_key(s: Seq<u64>, x: u64)
    requires
        s.no_duplicates(),
        !s.contains(x),
    ensures
        s.push(x).no_duplicates(),
        forall|y: u64| s.push(x).contains(y) <==> (s.contains(y) || y == x),
{
    assert forall|y: u64| s.push(x).contains(y) <==> (s.contains(y) || y == x) by {
        if s.push(x).contains(y) && y != x {
            let j = choose|j: int| 0 <= j < s.push(x).len() && s.push(x)[j] == y;
            assert(s[j] == y);
        }
        if y == x {
            assert(s.push(x)[s.len() as int] == x);
        }
        if s.contains(y) {
            let j = choose|j: int| 0 <= j < s.len() && s[j] == y;
            assert(s.push(x)[j] == y);
        }
    }
    assert forall|i: int, j: int| 0 <= i < s.push(x).len() && 0 <= j < s.push(x).len() && i != j implies s.push(x)[i] != s.push(x)[j] by {
        if i < s.len() && j < s.len() {
        } else if i < s.len() {
            assert(s.contains(s[i]));
        } else {
            assert(s.contains(s[j]));
        }
    }
}

/// A cache of model answers, keyed by a hash of the market state, whose
/// entries expire `ttl_secs` seconds after they were stored. Times are
/// nanoseconds on a monotonic clock, read by the caller.
pub struct TtlCache<D> {
    entries: HashMap<u64, (u64, D)>,
    keys: Vec<u64>,
    ttl_secs: u64,
}

impl<D> View for TtlCache<D> {
    type V = Map<u64, (u64, D)>;

    /// Each key with the time its answer was stored and the answer.
    closed spec fn view(&self) -> Map<u64, (u64, D)> {
        self.entries@
    }
}

impl<D> TtlCache<D> {
    /// How long entries live, in seconds.
    pub closed spec fn ttl(&self) -> u64 {
        self.ttl_secs
    }

    /// The key list names each entry exactly once.
    pub closed spec fn wf(&self) -> bool {
        &&& self.keys@.no_duplicates()
        &&& forall|k: u64| self.entries@.contains_key(k) <==> self.keys@.contains(k)
    }

    /// An empty cache whose entries live `ttl_secs` seconds.
    pub fn new(ttl_secs: u64) -> (r: Self)
        ensures
            r.wf(),
            r@ == Map::<u64, (u64, D)>::empty(),
            r.ttl() == ttl_secs,
    {
        TtlCache { entries: HashMap::new(), keys: Vec::new(), ttl_secs }
    }

    /// The answer stored under `key`, if it is still fresh at `now`.
    pub fn get(&self, key: u64, now: u64) -> (r: Option<&D>)
        ensures
            match r {
                Some(d) => cached_answer(self@, key, now, self.ttl()) == Some(*d),
                None => cached_answer(self@, key, now, self.ttl()) is None,
            },
    {
        match self.entries.get(&key) {
            Some(e) => {
                if fresh(e.0, now, self.ttl_secs) {
                    Some(&e.1)
                } else {
                    None
                }
            },
            None => None,
        }
    }

    /// Drops every entry that is stale at `now`.
    fn evict_stale(&mut self, now: u64)
        requires
            old(self).wf(),
        ensures
            final(self).wf(),
            final(self)@ == fresh_entries(old(self)@, now, old(self).ttl()),
            final(self).ttl() == old(self).ttl(),
    {
        let ghost old_m = self.entries@;
        let ghost old_keys = self.keys@;
        let ghost ttl = self.ttl_secs;
        let n = self.keys.len();
        let mut kept: Vec<u64> = Vec::new();
        let mut i: usize = 0;
        while i < n
            invariant
                n == old_keys.len(),
                self.keys@ == old_keys,
                self.ttl_secs == ttl,
                i <= n,
                old_keys.no_duplicates(),
                forall|k: u64| old_m.contains_key(k) <==> old_keys.contains(k),
                kept@.no_duplicates(),
                forall|k: u64|
                    kept@.contains(k) <==> (old_keys.subrange(0, i as int).contains(k) && old_m.contains_key(k)
                        && is_fresh(old_m[k].0, now, ttl)),
                forall|k: u64|
                    self.entries@.contains_key(k) <==> (old_m.contains_key(k) && !(old_keys.subrange(
                        0,
                        i as int,
                    ).contains(k) && !is_fresh(old_m[k].0, now, ttl))),
                forall|k: u64| self.entries@.contains_key(k) ==> self.entries@[k] == old_m[k],
            decreases n - i,
        {
            let k = self.keys[i];
            let ghost done = old_keys.subrange(0, i as int);
            proof {
                assert(old_keys.subrange(0, i + 1) =~= done.push(k));
                assert(old_keys.contains(k));
                if done.contains(k) {
                    let j = choose|j: int| 0 <= j < done.len() && done[j] == k;
                    assert(old_keys[j] == old_keys[i as int]);
                }
                assert(self.entries@.contains_key(k));
                assert forall|x: u64| done.push(k).contains(x) <==> (done.contains(x) || x == k) by {
                    if done.push(k).contains(x) && x != k {
                        let j = choose|j: int| 0 <= j < done.push(k).len() && done.push(k)[j] == x;
                        assert(done[j] == x);
                    }
                    if x == k {
                        assert(done.push(k)[done.len() as int] == k);
                    }
                    if done.contains(x) {
                        let j = choose|j: int| 0 <= j < done.len() && done[j] == x;
                        assert(done.push(k)[j] == x);
                    }
                }
            }
            let stamp = match self.entries.get(&k) {
                Some(e) => e.0,
                None => 0,
            };
            assert(stamp == old_m[k].0);
            let ghost kept0 = kept@;
            let ghost entries0 = self.entries@;
            let ghost next = old_keys.subrange(0, i + 1);
            if fresh(stamp, now, self.ttl_secs) {
                proof {
                    lemma_push_new_key(kept@, k);
                }
                kept.push(k);
                proof {
                    assert forall|x: u64|
                        kept@.contains(x) <==> (next.contains(x) && old_m.contains_key(x) && is_fresh(old_m[x].0, now, ttl)) by {
                        assert(kept@.contains(x) <==> (kept0.contains(x) || x == k));
                        assert(next.contains(x) <==> (done.contains(x) || x == k));
                    }
                    assert forall|x: u64|
                        self.entries@.contains_key(x) <==> (old_m.contains_key(x) && !(next.contains(x) && !is_fresh(old_m[x].0, now, ttl))) by {
                        assert(next.contains(x) <==> (done.contains(x) || x == k));
                    }
                }
            } else {
                self.entries.remove(&k);
                proof {
                    assert(self.entries@ == entries0.remove(k));
                    assert forall|x: u64|
                        kept@.contains(x) <==> (next.contains(x) && old_m.contains_key(x) && is_fresh(old_m[x].0, now, ttl)) by {
                        assert(next.contains(x) <==> (done.contains(x) || x == k));
                    }
                    assert forall|x: u64|
                        self.entries@.contains_key(x) <==> (old_m.contains_key(x) && !(next.contains(x) && !is_fresh(old_m[x].0, now, ttl))) by {
                        assert(next.contains(x) <==> (done.contains(x) || x == k));
                    }
                }
            }
            i = i + 1;
        }
        proof {
            assert(old_keys.subrange(0, n as int) =~= old_keys);
            let f = fresh_entries(old_m, now, ttl);
            assert forall|k: u64| self.entries@.contains_key(k) <==> f.contains_key(k) by {
                if old_m.contains_key(k) {
                    assert(old_keys.contains(k));
                }
            }
            assert forall|k: u64| #[trigger] self.entries@.contains_key(k) implies self.entries@[k] == f[k] by {
                assert(f.contains_key(k));
                assert(f[k] == old_m[k]);
            }
            assert(self.entries@ =~= f);
        }
        self.keys = kept;
    }

    /// Stores `d` under `key` at `now`, first dropping the stale entries
    /// once more than `EVICTION_THRESHOLD` are held.
    pub fn insert(&mut self, key: u64, d: D, now: u64)
        requires
            old(self).wf(),
        ensures
            final(self).wf(),
            final(self)@ == stored(old(self)@, key, d, now, old(self).ttl()),
            final(self).ttl() == old(self).ttl(),
    {
        if self.entries.len() > EVICTION_THRESHOLD {
            self.evict_stale(now);
        }
        let ghost before = self.entries@;
        let ghost keys_before = self.keys@;
        assert(forall|x: u64| before.contains_key(x) <==> keys_before.contains(x));
        let previous = self.entries.insert(key, (now, d));
        if previous.is_none() {
            proof {
                assert(!self.keys@.contains(key));
                lemma_push_new_key(self.keys@, key);
            }
            self.keys.push(key);
            assert forall|x: u64| self.entries@.contains_key(x) <==> self.keys@.contains(x) by {
                assert(self.entries@.contains_key(x) <==> (before.contains_key(x) || x == key));
                assert(before.contains_key(x) <==> keys_before.contains(x));
                assert(self.keys@ == keys_before.push(key));
                assert(keys_before.push(key).contains(x) <==> (keys_before.contains(x) || x == key));
            }
        } else {
            assert(before.contains_key(key));
            assert(self.keys@.contains(key));
            assert forall|x: u64| self.entries@.contains_key(x) <==> self.keys@.contains(x) by {
                assert(self.entries@.contains_key(x) <==> (before.contains_key(x) || x == key));
                assert(before.contains_key(x) <==> keys_before.contains(x));
                assert(self.keys@ == keys_before);
                if x == key {
                    assert(keys_before.contains(key));
                }
            }
        }
    }
}

/// What a cache serves is what was last stored, for as long as it is fresh:
/// right after `d` is stored under `key` at `stamp`, a lookup of `key` at
/// `now` gives `d` exactly when less than the time to live has passed, and
/// the answers under other keys are those served before or none.
pub proof fn lemma_served_while_fresh<D>(m: Map<u64, (u64, D)>, key: u64, other: u64, d: D, stamp: u64, now: u64, ttl_secs: u64)
    requires
        other != key,
    ensures
        cached_answer(stored(m, key, d, stamp, ttl_secs), key, now, ttl_secs) == (if is_fresh(stamp, now, ttl_secs) {
            Some(d)
        } else {
            None
        }),
        cached_answer(stored(m, key, d, stamp, ttl_secs), other, now, ttl_secs) is Some ==> cached_answer(
            m,
            other,
            now,
            ttl_secs,
        ) == cached_answer(stored(m, key, d, stamp, ttl_secs), other, now, ttl_secs),
{
}

} // verus!
