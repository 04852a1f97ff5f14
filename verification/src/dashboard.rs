//! Dashboard state that does not depend on drawing: drawers and their
//! keyboard shortcuts, autonomy levels, crew and log records, and the bounded
//! histories the dashboard keeps.

use vstd::prelude::*;
use crate::data_source::{LogAgentType, log_agent_label};
use crate::data_source;
use crate::data_source::{decimal, decimal_string, lemma_decimal_injective};
use crate::llm_config::same_text;
use crate::text::{find_from, find_text, lemma_find_from_first, lemma_find_from_found};
use vstd::string::StringExecFns;

verus! {

/// Which drawer is open (if any).
#[derive(Clone, Copy, Debug, PartialEq, Eq, Structural)]
pub enum Drawer {
    Orders,
    Research,
    Memory,
    HullIntegrity,
    StrategyCenter,
    ExecutionLog,
    ResearchLab,
}

/// The title of each drawer.
pub open spec fn drawer_label(d: Drawer) -> Seq<char> {
    match d {
        Drawer::Orders => "Orders"@,
        Drawer::Research => "Research"@,
        Drawer::Memory => "Memory"@,
        Drawer::HullIntegrity => "Hull Integrity"@,
        Drawer::StrategyCenter => "策略工坊"@,
        Drawer::ExecutionLog => "航海日志"@,
        Drawer::ResearchLab => "研究室"@,
    }
}

/// The drawer each number key opens: 1 Orders, 2 Research, 3 Memory,
/// 4 Hull Integrity, 5 Strategy Center, 6 Execution Log, 7 Research Lab.
pub open spec fn shortcut_drawer(digit: u8) -> Option<Drawer> {
    if digit == 1 {
        Some(Drawer::Orders)
    } else if digit == 2 {
        Some(Drawer::Research)
    } else if digit == 3 {
        Some(Drawer::Memory)
    } else if digit == 4 {
        Some(Drawer::HullIntegrity)
    } else if digit == 5 {
        Some(Drawer::StrategyCenter)
    } else if digit == 6 {
        Some(Drawer::ExecutionLog)
    } else if digit == 7 {
        Some(Drawer::ResearchLab)
    } else {
        None
    }
}

/// Pressing the shortcut of `target`: it closes `target` if it is the open
/// drawer, and otherwise opens it in place of whatever was open.
pub open spec fn toggled_drawer(open: Option<Drawer>, target: Drawer) -> Option<Drawer> {
    if open == Some(target) {
        None
    } else {
        Some(target)
    }
}

impl Drawer {
    pub fn label(self) -> (r: &'static str)
        ensures
            r@ == drawer_label(self),
    {
        match self {
            Drawer::Orders => "Orders",
            Drawer::Research => "Research",
            Drawer::Memory => "Memory",
            Drawer::HullIntegrity => "Hull Integrity",
            Drawer::StrategyCenter => "策略工坊",
            Drawer::ExecutionLog => "航海日志",
            Drawer::ResearchLab => "研究室",
        }
    }

    /// The drawer bound to the number key `digit`, if any.
    pub fn for_shortcut(digit: u8) -> (r: Option<Drawer>)
        ensures
            r == shortcut_drawer(digit),
    {
        match digit {
            1 => Some(Drawer::Orders),
            2 => Some(Drawer::Research),
            3 => Some(Drawer::Memory),
            4 => Some(Drawer::HullIntegrity),
            5 => Some(Drawer::StrategyCenter),
            6 => Some(Drawer::ExecutionLog),
            7 => Some(Drawer::ResearchLab),
            _ => None,
        }
    }

    /// The open drawer after pressing the shortcut of `target`.
    pub fn toggle(open: Option<Drawer>, target: Drawer) -> (r: Option<Drawer>)
        ensures
            r == toggled_drawer(open, target),
    {
        match open {
            Some(d) => {
                if d == target {
                    None
                } else {
                    Some(target)
                }
            },
            None => Some(target),
        }
    }
}

/// Pressing the same shortcut twice from a closed dashboard closes it again;
/// from any state, the second press of a drawer's shortcut leaves nothing
/// open, and at most one drawer is ever open.
pub proof fn lemma_toggle_twice(open: Option<Drawer>, target: Drawer)
    ensures
        toggled_drawer(toggled_drawer(open, target), target) == (if open == Some(target) {
            Some(target)
        } else {
            None
        }),
        toggled_drawer(open, target) is Some ==> toggled_drawer(open, target) == Some(target),
{
}

/// Autonomy level.
#[derive(Clone, Copy, Debug, PartialEq, Eq, Structural)]
pub enum Autonomy {
    Manual,
    Assisted,
    Auto,
}

/// The label shown for each autonomy level.
pub open spec fn autonomy_label(a: Autonomy) -> Seq<char> {
    match a {
        Autonomy::Manual => "MANUAL"@,
        Autonomy::Assisted => "ASSISTED"@,
        Autonomy::Auto => "AUTO"@,
    }
}

impl Autonomy {
    pub fn label(self) -> (r: &'static str)
        ensures
            r@ == autonomy_label(self),
    {
        match self {
            Autonomy::Manual => "MANUAL",
            Autonomy::Assisted => "ASSISTED",
            Autonomy::Auto => "AUTO",
        }
    }
}

/// Kind of crew member shown on the dashboard.
#[derive(Clone, Copy, Debug, PartialEq, Eq, Structural)]
pub enum AgentType {
    Perception,
    Strategy,
    Risk,
    Execution,
}

/// The label shown for each crew member kind.
pub open spec fn agent_label(t: AgentType) -> Seq<char> {
    match t {
        AgentType::Perception => "PERCEPTION"@,
        AgentType::Strategy => "STRATEGY"@,
        AgentType::Risk => "RISK"@,
        AgentType::Execution => "EXECUTION"@,
    }
}

/// The crew member kind of each log source kind.
pub open spec fn agent_type_of(t: LogAgentType) -> AgentType {
    match t {
        LogAgentType::Perception => AgentType::Perception,
        LogAgentType::Strategy => AgentType::Strategy,
        LogAgentType::Risk => AgentType::Risk,
        LogAgentType::Execution => AgentType::Execution,
    }
}

impl AgentType {
    pub fn label(self) -> (r: &'static str)
        ensures
            r@ == agent_label(self),
    {
        match self {
            AgentType::Perception => "PERCEPTION",
            AgentType::Strategy => "STRATEGY",
            AgentType::Risk => "RISK",
            AgentType::Execution => "EXECUTION",
        }
    }
}

impl From<LogAgentType> for AgentType {
    fn from(t: LogAgentType) -> (r: Self) {
        match t {
            LogAgentType::Perception => AgentType::Perception,
            LogAgentType::Strategy => AgentType::Strategy,
            LogAgentType::Risk => AgentType::Risk,
            LogAgentType::Execution => AgentType::Execution,
        }
    }
}

impl vstd::std_specs::convert::FromSpecImpl<LogAgentType> for AgentType {
    open spec fn obeys_from_spec() -> bool {
        true
    }

    open spec fn from_spec(t: LogAgentType) -> Self {
        agent_type_of(t)
    }
}

/// A log source kind and the crew member kind it becomes carry the same label.
pub proof fn lemma_labels_agree(t: LogAgentType)
    ensures
        agent_label(agent_type_of(t)) == log_agent_label(t),
{
}

/// Dashboard-side agent log entry.
pub struct LogEntry {
    pub timestamp: String,
    pub agent_type: AgentType,
    pub latency_ms: u64,
    pub summary: String,
}

impl LogEntry {
    /// The dashboard record of a data-source log entry.
    pub fn from_source(e: data_source::LogEntry) -> (r: Self)
        ensures
            r.timestamp == e.timestamp,
            r.agent_type == agent_type_of(e.agent_type),
            r.latency_ms == e.latency_ms,
            r.summary == e.summary,
    {
        LogEntry {
            timestamp: e.timestamp,
            agent_type: AgentType::from(e.agent_type),
            latency_ms: e.latency_ms,
            summary: e.summary,
        }
    }
}

/// Agent state for the crew status bar.
#[derive(Clone, Debug)]
pub struct AgentState {
    pub id: String,
    pub agent_type: AgentType,
    pub status: AgentStatus,
    pub task: String,
}

/// Status light of a crew member.
#[derive(Clone, Copy, Debug, PartialEq, Eq, Structural)]
pub enum AgentStatus {
    Active,
    Busy,
    Alert,
    Idle,
}

/// How high the risk potential stands, as the crew bar grades it.
#[derive(Clone, Copy, Debug, PartialEq, Eq, Structural)]
pub enum RiskBand {
    Normal,
    /// Above one half.
    Elevated,
    /// Above four fifths.
    High,
}

/// What a crew member's task line shows after an update.
#[derive(Clone, Copy, Debug, PartialEq, Eq, Structural)]
pub enum CrewTask {
    /// The line is left as it was.
    Unchanged,
    /// The price being watched.
    WatchingPrice,
    /// The risk potential, in percent.
    RiskLevel,
    /// `Nominal`.
    Nominal,
    /// `Processing quotes`.
    ProcessingQuotes,
}

/// The status and task of a crew member of kind `t` once market data has
/// arrived: everyone is active, except the risk officer, who is busy while
/// risk is elevated and on alert while it is high.
pub open spec fn crew_update(t: AgentType, band: RiskBand) -> (AgentStatus, CrewTask) {
    match t {
        AgentType::Strategy => (AgentStatus::Active, CrewTask::WatchingPrice),
        AgentType::Risk => match band {
            RiskBand::High => (AgentStatus::Alert, CrewTask::RiskLevel),
            RiskBand::Elevated => (AgentStatus::Busy, CrewTask::RiskLevel),
            RiskBand::Normal => (AgentStatus::Active, CrewTask::Nominal),
        },
        AgentType::Perception => (AgentStatus::Active, CrewTask::ProcessingQuotes),
        AgentType::Execution => (AgentStatus::Active, CrewTask::Unchanged),
    }
}

/// The text of a task line.
pub open spec fn task_text(task: CrewTask, before: Seq<char>, watching: Seq<char>, risk: Seq<char>) -> Seq<char> {
    match task {
        CrewTask::Unchanged => before,
        CrewTask::WatchingPrice => watching,
        CrewTask::RiskLevel => risk,
        CrewTask::Nominal => "Nominal"@,
        CrewTask::ProcessingQuotes => "Processing quotes"@,
    }
}

/// Whether `after` is crew member `before` updated for risk `band`, with
/// `watching` and `risk` as the texts of the price watch and risk level.
pub open spec fn crew_member_updated(before: AgentState, after: AgentState, band: RiskBand, watching: Seq<char>, risk: Seq<char>) -> bool {
    &&& after.id@ == before.id@
    &&& after.agent_type == before.agent_type
    &&& after.status == crew_update(before.agent_type, band).0
    &&& after.task@ == task_text(crew_update(before.agent_type, band).1, before.task@, watching, risk)
}

/// Updates the crew bar: nothing changes before the first data version;
/// afterwards each member's status and task follow `crew_update`.
pub fn update_crew_status(agents: &mut Vec<AgentState>, last_version: u64, band: RiskBand, watching: &str, risk: &str)
    ensures
        last_version == 0 ==> final(agents)@ == old(agents)@,
        last_version > 0 ==> final(agents)@.len() == old(agents)@.len() && forall|i: int|
            0 <= i < old(agents)@.len() ==> crew_member_updated(
                old(agents)@[i],
                #[trigger] final(agents)@[i],
                band,
                watching@,
                risk@,
            ),
{
    if last_version == 0 {
        return;
    }
    let ghost before = agents@;
    let n = agents.len();
    let mut i: usize = 0;
    while i < n
        invariant
            n == before.len(),
            agents@.len() == n,
            i <= n,
            forall|k: int| 0 <= k < i ==> crew_member_updated(before[k], #[trigger] agents@[k], band, watching@, risk@),
            forall|k: int| i <= k < n ==> #[trigger] agents@[k] == before[k],
        decreases n - i,
    {
        let (status, task) = match agents[i].agent_type {
            AgentType::Strategy => (AgentStatus::Active, CrewTask::WatchingPrice),
            AgentType::Risk => match band {
                RiskBand::High => (AgentStatus::Alert, CrewTask::RiskLevel),
                RiskBand::Elevated => (AgentStatus::Busy, CrewTask::RiskLevel),
                RiskBand::Normal => (AgentStatus::Active, CrewTask::Nominal),
            },
            AgentType::Perception => (AgentStatus::Active, CrewTask::ProcessingQuotes),
            AgentType::Execution => (AgentStatus::Active, CrewTask::Unchanged),
        };
        let text = match task {
            CrewTask::Unchanged => agents[i].task.clone(),
            CrewTask::WatchingPrice => watching.to_owned(),
            CrewTask::RiskLevel => risk.to_owned(),
            CrewTask::Nominal => "Nominal".to_owned(),
            CrewTask::ProcessingQuotes => "Processing quotes".to_owned(),
        };
        let updated = AgentState { id: agents[i].id.clone(), agent_type: agents[i].agent_type, status, task: text };
        agents.set(i, updated);
        i = i + 1;
    }
}

/// Commands sent from the dashboard back to the engine.
#[derive(Clone, Debug)]
pub enum GuiCommand {
    ApproveIntent { intent_id: String },
    RejectIntent { intent_id: String, reason: String },
    SetEStop(bool),
    SetAutonomy(Autonomy),
}

/// Execution log sub-tab.
#[derive(Clone, Copy, Debug, PartialEq, Eq, Structural)]
pub enum ExecutionLogTab {
    Execution,
    Evolution,
    Backtest,
}

/// The latest `cap` items of `s` (all of them if there are fewer).
pub open spec fn latest<T>(s: Seq<T>, cap: nat) -> Seq<T> {
    if s.len() > cap {
        s.skip(s.len() - cap)
    } else {
        s
    }
}

/// Drops the oldest items so that at most `cap` remain, keeping their order.
pub fn keep_latest<T>(list: &mut Vec<T>, cap: usize)
    ensures
        final(list)@ == latest(old(list)@, cap as nat),
{
    let len = list.len();
    if len > cap {
        let tail = list.split_off(len - cap);
        *list = tail;
    }
}

/// The identifier given to the `n`-th intent card: `INT-<n>`.
pub open spec fn card_id(n: nat) -> Seq<char> {
    "INT-"@ + decimal(n)
}

/// The text `str::to_lowercase` gives for `s`: its Unicode lowercase
/// mapping, character by character except where the mapping depends on
/// context (a final capital sigma).
pub uninterp spec fn lowercase(s: Seq<char>) -> Seq<char>;

/// Whether every character of `s` is ASCII.
pub open spec fn all_ascii(s: Seq<char>) -> bool {
    forall|i: int| 0 <= i < s.len() ==> (s[i] as u32) < 128
}

/// The lowercase of an ASCII character: `A` to `Z` become `a` to `z`, every
/// other character stays.
pub open spec fn ascii_lower(c: char) -> char {
    if 'A' <= c && c <= 'Z' {
        ((c as u32) + 32) as char
    } else {
        c
    }
}

/// Calls `str::to_lowercase`. Claimed: the result depends on `s` alone (the
/// Unicode mapping, with no locale), and is named `lowercase`; on ASCII
/// text it is the ASCII lowercase, letter for letter. What the mapping does
/// to other characters is left unsaid.
#[verifier::external_body]
fn to_lowercase(s: &str) -> (r: String)
    ensures
        r@ == lowercase(s@),
        all_ascii(s@) ==> r@ == s@.map_values(|c: char| ascii_lower(c)),
{
    s.to_lowercase()
}

/// The side an intent card shows, given the lowercased intent type: selling
/// when it mentions selling or shorting, buying otherwise.
pub open spec fn side_label(lower: Seq<char>) -> Seq<char> {
    if find_from(lower, "sell"@, 0) is Some || find_from(lower, "short"@, 0) is Some {
        "SELL"@
    } else {
        "BUY"@
    }
}

/// The side shown for a lowercased intent type.
pub fn side_for_lowercase(lower: &str) -> (r: &'static str)
    ensures
        r@ == side_label(lower@),
{
    if find_text(lower, "sell").is_some() || find_text(lower, "short").is_some() {
        "SELL"
    } else {
        "BUY"
    }
}

/// The side an intent card shows for an intent type, in any letter case.
pub fn card_side(intent_type: &str) -> (r: &'static str)
    ensures
        r@ == side_label(lowercase(intent_type@)),
        all_ascii(intent_type@) ==> r@ == side_label(intent_type@.map_values(|c: char| ascii_lower(c))),
{
    let lower = to_lowercase(intent_type);
    side_for_lowercase(lower.as_str())
}

/// An intent card awaiting a human decision.
pub struct IntentCard<C> {
    pub intent_id: String,
    pub body: C,
}

/// The cards of `cards` whose identifier is not `id`, in order.
pub open spec fn without_id<C>(cards: Seq<IntentCard<C>>, id: Seq<char>) -> Seq<IntentCard<C>>
    decreases cards.len(),
{
    if cards.len() == 0 {
        cards
    } else {
        let rest = without_id(cards.drop_last(), id);
        if cards.last().intent_id@ == id {
            rest
        } else {
            rest.push(cards.last())
        }
    }
}

/// Identifiers of distinct numbers differ.
proof fn lemma_card_id_injective(a: nat, b: nat)
    requires
        card_id(a) == card_id(b),
    ensures
        a == b,
{
    reveal_strlit("INT-");
    assert(card_id(a).skip(4) =~= decimal(a));
    assert(card_id(b).skip(4) =~= decimal(b));
    lemma_decimal_injective(a, b);
}

/// Resolving an intent removes every card carrying its identifier and keeps
/// only cards that were there before.
pub proof fn lemma_without_id_members<C>(cards: Seq<IntentCard<C>>, id: Seq<char>)
    ensures
        forall|k: int| 0 <= k < without_id(cards, id).len() ==> exists|i: int|
            0 <= i < cards.len() && cards[i] == #[trigger] without_id(cards, id)[k],
        forall|k: int| 0 <= k < without_id(cards, id).len() ==> (#[trigger] without_id(cards, id)[k]).intent_id@ != id,
    decreases cards.len(),
{
    if cards.len() > 0 {
        let d = cards.drop_last();
        lemma_without_id_members(d, id);
        let w = without_id(cards, id);
        let rest = without_id(d, id);
        assert forall|k: int| 0 <= k < w.len() implies exists|i: int| 0 <= i < cards.len() && cards[i] == #[trigger] w[k] by {
            if k < rest.len() {
                assert(w[k] == rest[k]);
                let i = choose|i: int| 0 <= i < d.len() && d[i] == rest[k];
                assert(cards[i] == d[i]);
            } else {
                assert(cards[cards.len() - 1] == w[k]);
            }
        }
        assert forall|k: int| 0 <= k < w.len() implies (#[trigger] w[k]).intent_id@ != id by {
            if k < rest.len() {
                assert(w[k] == rest[k]);
            }
        }
    }
}

/// Removing cards keeps identifiers distinct.
proof fn lemma_without_id_distinct<C>(cards: Seq<IntentCard<C>>, id: Seq<char>)
    requires
        forall|i: int, j: int| 0 <= i < j < cards.len() ==> cards[i].intent_id@ != cards[j].intent_id@,
    ensures
        forall|i: int, j: int|
            0 <= i < j < without_id(cards, id).len() ==> without_id(cards, id)[i].intent_id@ != without_id(
                cards,
                id,
            )[j].intent_id@,
    decreases cards.len(),
{
    if cards.len() > 0 {
        let d = cards.drop_last();
        lemma_without_id_distinct(d, id);
        lemma_without_id_members(d, id);
        let w = without_id(cards, id);
        let rest = without_id(d, id);
        if cards.last().intent_id@ != id {
            assert forall|i: int, j: int| 0 <= i < j < w.len() implies w[i].intent_id@ != w[j].intent_id@ by {
                assert(w[i] == rest[i]);
                if j < rest.len() {
                    assert(w[j] == rest[j]);
                } else {
                    let q = choose|q: int| 0 <= q < d.len() && d[q] == #[trigger] rest[i];
                    assert(cards[q] == d[q]);
                    assert(w[j] == cards[cards.len() - 1]);
                }
            }
        }
    }
}

/// The intent cards shown on the dashboard, each with an identifier that was
/// never given to another card.
pub struct IntentDeck<C> {
    cards: Vec<IntentCard<C>>,
    next_intent_id: u64,
}

impl<C> IntentDeck<C> {
    /// The cards, oldest first.
    pub closed spec fn spec_cards(&self) -> Seq<IntentCard<C>> {
        self.cards@
    }

    /// The number the next card will carry.
    pub closed spec fn spec_next(&self) -> nat {
        self.next_intent_id as nat
    }

    /// Every card carries `INT-<k>` for some number `k` already handed out,
    /// and no two cards carry the same identifier.
    pub open spec fn wf(&self) -> bool {
        &&& forall|i: int|
            0 <= i < self.spec_cards().len() ==> exists|k: nat|
                k < self.spec_next() && (#[trigger] self.spec_cards()[i]).intent_id@ == card_id(k)
        &&& forall|i: int, j: int|
            0 <= i < j < self.spec_cards().len() ==> self.spec_cards()[i].intent_id@
                != self.spec_cards()[j].intent_id@
    }

    /// An empty deck; the first card will be `INT-0`.
    pub fn new() -> (r: Self)
        ensures
            r.wf(),
            r.spec_cards().len() == 0,
            r.spec_next() == 0,
    {
        IntentDeck { cards: Vec::new(), next_intent_id: 0 }
    }

    /// The number the next card will carry.
    pub fn next_number(&self) -> (r: u64)
        ensures
            r == self.spec_next(),
    {
        self.next_intent_id
    }

    /// The cards, oldest first.
    pub fn cards(&self) -> (r: &Vec<IntentCard<C>>)
        ensures
            r@ == self.spec_cards(),
    {
        &self.cards
    }

    /// Adds a card for a newly generated intent and returns its identifier,
    /// which no card of the deck carries.
    pub fn add(&mut self, body: C) -> (r: String)
        requires
            old(self).wf(),
            old(self).spec_next() < u64::MAX,
        ensures
            final(self).wf(),
            r@ == card_id(old(self).spec_next()),
            forall|i: int| 0 <= i < old(self).spec_cards().len() ==> (#[trigger] old(self).spec_cards()[i]).intent_id@ != r@,
            final(self).spec_next() == old(self).spec_next() + 1,
            final(self).spec_cards() == old(self).spec_cards().push(IntentCard { intent_id: final(self).spec_cards().last().intent_id, body }),
            final(self).spec_cards().last().intent_id@ == r@,
    {
        let n = self.next_intent_id;
        proof {
            reveal_strlit("INT-");
        }
        let id = "INT-".to_owned().concat(decimal_string(n).as_str());
        let shown = "INT-".to_owned().concat(decimal_string(n).as_str());
        let ghost old_cards = self.cards@;
        proof {
            assert forall|i: int| 0 <= i < old_cards.len() implies (#[trigger] old_cards[i]).intent_id@ != shown@ by {
                let k = choose|k: nat| k < n && old_cards[i].intent_id@ == card_id(k);
                if old_cards[i].intent_id@ == shown@ {
                    lemma_card_id_injective(k, n as nat);
                }
            }
        }
        self.cards.push(IntentCard { intent_id: id, body });
        self.next_intent_id = n + 1;
        proof {
            assert forall|i: int| 0 <= i < self.cards@.len() implies exists|k: nat|
                k < self.next_intent_id && (#[trigger] self.cards@[i]).intent_id@ == card_id(k) by {
                if i < old_cards.len() {
                    assert(self.cards@[i] == old_cards[i]);
                    let k = choose|k: nat| k < n && old_cards[i].intent_id@ == card_id(k);
                } else {
                    assert(self.cards@[i].intent_id@ == card_id(n as nat));
                }
            }
            assert forall|i: int, j: int| 0 <= i < j < self.cards@.len() implies self.cards@[i].intent_id@
                != self.cards@[j].intent_id@ by {
                assert(self.cards@[i] == old_cards[i]);
                if j < old_cards.len() {
                    assert(self.cards@[j] == old_cards[j]);
                }
            }
        }
        shown
    }

    /// Removes the cards of an intent that was approved or rejected.
    pub fn resolve(&mut self, intent_id: &str)
        requires
            old(self).wf(),
        ensures
            final(self).wf(),
            final(self).spec_cards() == without_id(old(self).spec_cards(), intent_id@),
            final(self).spec_next() == old(self).spec_next(),
    {
        let ghost old_cards = self.cards@;
        let ghost mut j: int = 0;
        let mut i: usize = 0;
        while i < self.cards.len()
            invariant
                i <= self.cards@.len(),
                0 <= j <= old_cards.len(),
                self.cards@.take(i as int) == without_id(old_cards.take(j), intent_id@),
                self.cards@.skip(i as int) == old_cards.skip(j),
                self.next_intent_id == old(self).spec_next(),
                old_cards == old(self).spec_cards(),
                old(self).wf(),
            decreases self.cards@.len() - i,
        {
            let ghost before = self.cards@;
            proof {
                assert(before.skip(i as int).len() > 0);
                assert(old_cards.skip(j).len() > 0);
                assert(old_cards.take(j + 1).drop_last() =~= old_cards.take(j));
                assert(old_cards[j] == before.skip(i as int)[0]);
            }
            if same_text(self.cards[i].intent_id.as_str(), intent_id) {
                self.cards.remove(i);
                proof {
                    assert(self.cards@.take(i as int) =~= before.take(i as int));
                    assert(self.cards@.skip(i as int) =~= before.skip(i as int).skip(1));
                    assert(old_cards.skip(j + 1) =~= old_cards.skip(j).skip(1));
                    j = j + 1;
                }
            } else {
                proof {
                    assert(self.cards@.take(i + 1) =~= before.take(i as int).push(before[i as int]));
                    assert(self.cards@.skip(i + 1) =~= before.skip(i as int).skip(1));
                    assert(old_cards.skip(j + 1) =~= old_cards.skip(j).skip(1));
                    j = j + 1;
                }
                i = i + 1;
            }
        }
        proof {
            assert(old_cards.skip(j).len() == 0);
            assert(old_cards.take(j) =~= old_cards);
            assert(self.cards@.take(i as int) =~= self.cards@);
            lemma_without_id_members(old_cards, intent_id@);
            lemma_without_id_distinct(old_cards, intent_id@);
            assert forall|q: int| 0 <= q < self.cards@.len() implies exists|k: nat|
                k < self.next_intent_id && (#[trigger] self.cards@[q]).intent_id@ == card_id(k) by {
                let p = choose|p: int| 0 <= p < old_cards.len() && old_cards[p] == #[trigger] without_id(
                    old_cards,
                    intent_id@,
                )[q];
                assert(old_cards[p] == self.cards@[q]);
            }
        }
    }

    /// Removes the card at `idx`, if there is one.
    pub fn dismiss(&mut self, idx: usize)
        requires
            old(self).wf(),
        ensures
            final(self).wf(),
            final(self).spec_cards() == if idx < old(self).spec_cards().len() {
                old(self).spec_cards().remove(idx as int)
            } else {
                old(self).spec_cards()
            },
            final(self).spec_next() == old(self).spec_next(),
    {
        let ghost old_cards = self.cards@;
        if idx < self.cards.len() {
            self.cards.remove(idx);
            proof {
                assert forall|q: int| 0 <= q < self.cards@.len() implies exists|k: nat|
                    k < self.next_intent_id && (#[trigger] self.cards@[q]).intent_id@ == card_id(k) by {
                    if q < idx {
                        assert(self.cards@[q] == old_cards[q]);
                    } else {
                        assert(self.cards@[q] == old_cards[q + 1]);
                    }
                }
                assert forall|a: int, b: int| 0 <= a < b < self.cards@.len() implies self.cards@[a].intent_id@
                    != self.cards@[b].intent_id@ by {
                    let a2 = if a < idx { a } else { a + 1 };
                    let b2 = if b < idx { b } else { b + 1 };
                    assert(self.cards@[a] == old_cards[a2]);
                    assert(self.cards@[b] == old_cards[b2]);
                }
            }
        }
    }
}

/// A bounded history: holds at most `max_len` items, dropping the oldest
/// when a new one arrives while full.
pub struct History<T> {
    pub items: Vec<T>,
    pub max_len: usize,
}

impl<T> History<T> {
    /// An empty history of capacity `max_len`.
    pub fn new(max_len: usize) -> (r: Self)
        ensures
            r.items@.len() == 0,
            r.max_len == max_len,
    {
        History { items: Vec::with_capacity(max_len), max_len }
    }

    /// Appends `item`, first dropping the oldest item if the history is full.
    pub fn push(&mut self, item: T)
        requires
            old(self).max_len > 0 || old(self).items@.len() > 0,
        ensures
            final(self).max_len == old(self).max_len,
            final(self).items@ == if old(self).items@.len() >= old(self).max_len {
                old(self).items@.drop_first().push(item)
            } else {
                old(self).items@.push(item)
            },
    {
        if self.items.len() >= self.max_len {
            self.items.remove(0);
        }
        self.items.push(item);
    }
}

/// A history filled only through `push` keeps the latest `max_len` items.
pub proof fn lemma_history_keeps_latest<T>(items: Seq<T>, max_len: nat, item: T)
    requires
        items.len() <= max_len,
        max_len > 0,
    ensures
        (if items.len() >= max_len { items.drop_first().push(item) } else { items.push(item) }) == latest(
            items.push(item),
            max_len,
        ),
{
    if items.len() >= max_len {
        assert(items.drop_first().push(item) =~= items.push(item).skip(1));
    }
}

/// Kinds of extended events.
#[derive(Clone, Copy, Debug, PartialEq, Eq, Structural)]
pub enum EventKind {
    IntentGenerated,
    IntentApproved,
    IntentRejected,
    OrderSubmitted,
    OrderFilled,
    OrderRejected,
    RiskAlert,
    AutoresearchResult,
}

/// The dashboard lists extended events are sorted into.
#[derive(Clone, Copy, Debug, PartialEq, Eq, Structural)]
pub enum EventFeed {
    Orders,
    Research,
    Risk,
    Intents,
}

/// The list each kind of event goes to.
pub open spec fn feed_of(kind: EventKind) -> EventFeed {
    match kind {
        EventKind::OrderSubmitted | EventKind::OrderFilled | EventKind::OrderRejected => EventFeed::Orders,
        EventKind::AutoresearchResult => EventFeed::Research,
        EventKind::RiskAlert => EventFeed::Risk,
        EventKind::IntentGenerated | EventKind::IntentApproved | EventKind::IntentRejected => EventFeed::Intents,
    }
}

impl EventKind {
    /// The list an event of this kind is shown in.
    pub fn feed(self) -> (r: EventFeed)
        ensures
            r == feed_of(self),
    {
        match self {
            EventKind::OrderSubmitted | EventKind::OrderFilled | EventKind::OrderRejected => EventFeed::Orders,
            EventKind::AutoresearchResult => EventFeed::Research,
            EventKind::RiskAlert => EventFeed::Risk,
            EventKind::IntentGenerated | EventKind::IntentApproved | EventKind::IntentRejected => EventFeed::Intents,
        }
    }
}

/// Most log entries the dashboard keeps.
pub const LOG_CAPACITY: usize = 200;

/// Most events the dashboard keeps in each list.
pub const FEED_CAPACITY: usize = 256;

/// Events are filed by kind: order submissions, fills and rejections go to
/// the orders list, research results to the research list, risk alerts to
/// the risk list, and intent events to the intents list.
pub proof fn lemma_feed_cases(kind: EventKind)
    ensures
        (feed_of(kind) == EventFeed::Orders) == (kind == EventKind::OrderSubmitted || kind == EventKind::OrderFilled
            || kind == EventKind::OrderRejected),
        (feed_of(kind) == EventFeed::Research) == (kind == EventKind::AutoresearchResult),
        (feed_of(kind) == EventFeed::Risk) == (kind == EventKind::RiskAlert),
        (feed_of(kind) == EventFeed::Intents) == (kind == EventKind::IntentGenerated || kind
            == EventKind::IntentApproved || kind == EventKind::IntentRejected),
{
}

/// Once data has arrived, every crew member is active, save the risk
/// officer, who is busy while risk is elevated and on alert while it is
/// high; strategists watch the price, the risk officer shows the risk level
/// (or that all is nominal), perception processes quotes, and execution
/// keeps its task.
pub proof fn lemma_crew_cases(t: AgentType, band: RiskBand)
    ensures
        t != AgentType::Risk ==> crew_update(t, band).0 == AgentStatus::Active,
        t == AgentType::Risk && band == RiskBand::High ==> crew_update(t, band) == (AgentStatus::Alert, CrewTask::RiskLevel),
        t == AgentType::Risk && band == RiskBand::Elevated ==> crew_update(t, band) == (AgentStatus::Busy, CrewTask::RiskLevel),
        t == AgentType::Risk && band == RiskBand::Normal ==> crew_update(t, band) == (AgentStatus::Active, CrewTask::Nominal),
        t == AgentType::Strategy ==> crew_update(t, band).1 == CrewTask::WatchingPrice,
        t == AgentType::Perception ==> crew_update(t, band).1 == CrewTask::ProcessingQuotes,
        t == AgentType::Execution ==> crew_update(t, band).1 == CrewTask::Unchanged,
{
}

/// The number keys 1 to 7 each open a different drawer; no other key opens
/// one.
pub proof fn lemma_shortcuts_distinct(a: u8, b: u8)
    ensures
        shortcut_drawer(a) is Some <==> 1 <= a <= 7,
        shortcut_drawer(a) is Some && shortcut_drawer(a) == shortcut_drawer(b) ==> a == b,
        shortcut_drawer(1) == Some(Drawer::Orders),
        shortcut_drawer(7) == Some(Drawer::ResearchLab),
{
}

/// An intent card shows SELL when its lowercased type contains "sell" or
/// "short" anywhere, and BUY when it contains neither.
pub proof fn lemma_side_cases(lower: Seq<char>, k: int)
    ensures
        0 <= k && k + 4 <= lower.len() && lower.subrange(k, k + 4) == "sell"@ ==> side_label(lower) == "SELL"@,
        0 <= k && k + 5 <= lower.len() && lower.subrange(k, k + 5) == "short"@ ==> side_label(lower) == "SELL"@,
        (forall|j: int| 0 <= j && j + 4 <= lower.len() ==> #[trigger] lower.subrange(j, j + 4) != "sell"@)
            && (forall|j: int| 0 <= j && j + 5 <= lower.len() ==> #[trigger] lower.subrange(j, j + 5) != "short"@)
            ==> side_label(lower) == "BUY"@,
{
    reveal_strlit("sell");
    reveal_strlit("short");
    if 0 <= k && k + 4 <= lower.len() && lower.subrange(k, k + 4) == "sell"@ {
        lemma_find_from_first(lower, "sell"@, 0, k);
    }
    if 0 <= k && k + 5 <= lower.len() && lower.subrange(k, k + 5) == "short"@ {
        lemma_find_from_first(lower, "short"@, 0, k);
    }
    lemma_find_from_found(lower, "sell"@, 0);
    lemma_find_from_found(lower, "short"@, 0);
}

} // verus!
