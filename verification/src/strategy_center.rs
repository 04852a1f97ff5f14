//! What the strategy center shows, apart from drawing and numbers: one card
//! per strategy agent (two sample cards while there is none), each with
//! its strategy family and status, and the latest order submissions as
//! the agent's recent decisions.

use vstd::prelude::*;
use crate::dashboard::{AgentState, AgentStatus, AgentType, EventKind};
use crate::text::{find_from, find_text};

verus! {

/// Status shown on a strategy card.
#[derive(Clone, Copy, Debug, PartialEq, Eq, Structural)]
pub enum StrategyStatus {
    Running,
    Paused,
    Alert,
}

/// The strategy family an agent identifier names: identifiers containing
/// `momentum` follow the trend, those containing `mean-rev` revert to the
/// mean.
pub open spec fn family_label(id: Seq<char>) -> Seq<char> {
    if find_from(id, "momentum"@, 0) is Some {
        "Trend Follow"@
    } else if find_from(id, "mean-rev"@, 0) is Some {
        "Mean Reversion"@
    } else {
        "Strategy"@
    }
}

/// The strategy family of an agent.
pub fn family_of(id: &str) -> (r: &'static str)
    ensures
        r@ == family_label(id@),
{
    if find_text(id, "momentum").is_some() {
        "Trend Follow"
    } else if find_text(id, "mean-rev").is_some() {
        "Mean Reversion"
    } else {
        "Strategy"
    }
}

/// A card's status: an alert while the risk potential is high, paused
/// while the agent idles, running otherwise.
pub open spec fn card_status(risk_alert: bool, status: AgentStatus) -> StrategyStatus {
    if risk_alert {
        StrategyStatus::Alert
    } else if status == AgentStatus::Idle {
        StrategyStatus::Paused
    } else {
        StrategyStatus::Running
    }
}

/// A strategy card, before its parameters and statistics are filled in.
pub struct CardPlan {
    pub id: String,
    pub family: &'static str,
    pub status: StrategyStatus,
    /// A sample card shown while no strategy agent is known.
    pub sample: bool,
}

/// What a card plan shows.
pub open spec fn plan_view(p: CardPlan) -> (Seq<char>, Seq<char>, StrategyStatus, bool) {
    (p.id@, p.family@, p.status, p.sample)
}

/// The cards of the strategy agents among `agents`, in order.
pub open spec fn agent_cards(agents: Seq<AgentState>, risk_alert: bool) -> Seq<(Seq<char>, Seq<char>, StrategyStatus, bool)>
    decreases agents.len(),
{
    if agents.len() == 0 {
        Seq::empty()
    } else {
        let before = agent_cards(agents.drop_last(), risk_alert);
        let a = agents.last();
        if a.agent_type == AgentType::Strategy {
            before.push((a.id@, family_label(a.id@), card_status(risk_alert, a.status), false))
        } else {
            before
        }
    }
}

/// The cards shown: one per strategy agent, or the two sample cards.
pub open spec fn shown_cards(agents: Seq<AgentState>, risk_alert: bool) -> Seq<(Seq<char>, Seq<char>, StrategyStatus, bool)> {
    let cards = agent_cards(agents, risk_alert);
    if cards.len() > 0 {
        cards
    } else {
        seq![
            ("momentum-01"@, "Trend Follow"@, StrategyStatus::Running, true),
            ("mean-rev-01"@, "Mean Reversion"@, StrategyStatus::Running, true),
        ]
    }
}

/// The cards of the strategy center.
pub fn strategy_cards(agents: &Vec<AgentState>, risk_alert: bool) -> (r: Vec<CardPlan>)
    ensures
        r@.map_values(|p: CardPlan| plan_view(p)) == shown_cards(agents@, risk_alert),
{
    let mut cards: Vec<CardPlan> = Vec::new();
    let mut i: usize = 0;
    while i < agents.len()
        invariant
            i <= agents@.len(),
            cards@.map_values(|p: CardPlan| plan_view(p)) == agent_cards(agents@.subrange(0, i as int), risk_alert),
        decreases agents@.len() - i,
    {
        let a = &agents[i];
        proof {
            assert(agents@.subrange(0, i + 1).drop_last() =~= agents@.subrange(0, i as int));
        }
        if a.agent_type == AgentType::Strategy {
            let status = if risk_alert {
                StrategyStatus::Alert
            } else if a.status == AgentStatus::Idle {
                StrategyStatus::Paused
            } else {
                StrategyStatus::Running
            };
            let ghost before = cards@;
            cards.push(CardPlan { id: a.id.clone(), family: family_of(a.id.as_str()), status, sample: false });
            proof {
                assert(cards@.map_values(|p: CardPlan| plan_view(p)) =~= before.map_values(|p: CardPlan| plan_view(p)).push(
                    (a.id@, family_label(a.id@), card_status(risk_alert, a.status), false),
                ));
            }
        }
        i = i + 1;
    }
    assert(agents@.subrange(0, i as int) =~= agents@);
    if cards.len() == 0 {
        let momentum = CardPlan { id: "momentum-01".to_owned(), family: "Trend Follow", status: StrategyStatus::Running, sample: true };
        let reversion = CardPlan { id: "mean-rev-01".to_owned(), family: "Mean Reversion", status: StrategyStatus::Running, sample: true };
        let samples = vec![momentum, reversion];
        assert(samples@.map_values(|p: CardPlan| plan_view(p)) =~= shown_cards(agents@, risk_alert));
        samples
    } else {
        cards
    }
}

/// Positions of the submissions among the latest `k` events of `kinds`,
/// newest first.
pub open spec fn newest_submissions(kinds: Seq<EventKind>, k: int) -> Seq<usize>
    decreases k,
{
    if k <= 0 || k > kinds.len() {
        Seq::empty()
    } else {
        let before = newest_submissions(kinds, k - 1);
        let j = kinds.len() - k;
        if kinds[j] == EventKind::OrderSubmitted {
            before.push(j as usize)
        } else {
            before
        }
    }
}

/// Positions of the order events shown as a strategy's recent decisions:
/// the submissions among the five latest order events, newest first.
pub fn recent_decisions(kinds: &Vec<EventKind>) -> (r: Vec<usize>)
    ensures
        r@ == newest_submissions(kinds@, if kinds@.len() < 5 { kinds@.len() as int } else { 5 }),
{
    let n = kinds.len();
    let shown: usize = if n < 5 { n } else { 5 };
    let mut out: Vec<usize> = Vec::new();
    let mut k: usize = 0;
    while k < shown
        invariant
            n == kinds@.len(),
            shown <= n,
            shown == if n < 5 { n } else { 5 },
            k <= shown,
            out@ == newest_submissions(kinds@, k as int),
        decreases shown - k,
    {
        let j = n - 1 - k;
        if kinds[j] == EventKind::OrderSubmitted {
            out.push(j);
        }
        k = k + 1;
    }
    out
}

/// A card is on alert whenever risk is high, whatever its agent does;
/// otherwise it is paused exactly while its agent idles, and running.
pub proof fn lemma_card_status_cases(risk_alert: bool, status: AgentStatus)
    ensures
        risk_alert ==> card_status(risk_alert, status) == StrategyStatus::Alert,
        !risk_alert && status == AgentStatus::Idle ==> card_status(risk_alert, status) == StrategyStatus::Paused,
        !risk_alert && status != AgentStatus::Idle ==> card_status(risk_alert, status) == StrategyStatus::Running,
{
}

} // verus!
