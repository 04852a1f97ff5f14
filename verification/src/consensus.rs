//! Pluggable conflict resolution for multi-agent swarms.
//!
//! Each agent casts a `Ballot` describing its intent. A consensus engine picks
//! which intents go on to compilation. Scores are order keys: the caller maps
//! each real-valued score to an integer by a strictly increasing map, and a
//! score that is not a number to `Score::Unordered`, which compares as equal
//! to everything (the behaviour of `partial_cmp(..).unwrap_or(Equal)`).
//!
//! When several candidates tie, the one that comes last wins, as with
//! `Iterator::max_by`.

use vstd::prelude::*;
use crate::intent::IntentType;

verus! {

/// An order key for a real-valued score.
#[derive(Clone, Copy, Debug, PartialEq, Eq, Structural)]
pub enum Score {
    /// The image of a number under a strictly increasing map into `i64`.
    Ranked(i64),
    /// Not a number: compares as equal to every score.
    Unordered,
}

/// `a` compares strictly greater than `b`.
pub open spec fn score_gt(a: Score, b: Score) -> bool {
    match (a, b) {
        (Score::Ranked(x), Score::Ranked(y)) => x > y,
        _ => false,
    }
}

/// Whether `a` compares strictly greater than `b`.
pub fn score_greater(a: Score, b: Score) -> (r: bool)
    ensures
        r == score_gt(a, b),
{
    match (a, b) {
        (Score::Ranked(x), Score::Ranked(y)) => x > y,
        _ => false,
    }
}

/// What the consensus reads of one agent's intent.
pub struct Ballot {
    pub agent_id: String,
    pub intent_type: IntentType,
    /// Target instrument, with venue suffix (e.g. "BTC-USDT-SWAP.OKX").
    pub instrument: String,
    /// Order key of the (normalized) confidence; a confidence that is not a
    /// number counts as -1.
    pub confidence: Score,
    /// Order key of `confidence * reputation_score`.
    pub vote: Score,
}

/// A consensus decision about one outgoing intent.
#[derive(Clone, Copy, Debug, PartialEq, Eq, Structural)]
pub enum Pick {
    /// Keep the ballot at this index.
    Keep(usize),
    /// Replace everything by a Hold intent on behalf of the ballot at this
    /// index (its agent, its instrument).
    HoldFrom(usize),
}

/// Winner of `max_by` over candidate indices: the running best is kept only
/// if it is strictly greater than the next candidate.
pub open spec fn best_by(c: Seq<usize>, gt: spec_fn(usize, usize) -> bool) -> usize
    decreases c.len(),
{
    if c.len() <= 1 {
        c[0]
    } else {
        let acc = best_by(c.drop_last(), gt);
        if gt(acc, c.last()) {
            acc
        } else {
            c.last()
        }
    }
}

/// How candidates are ranked.
pub enum Ranking<'a> {
    /// By confidence.
    Confidence,
    /// By confidence times reputation.
    Vote,
    /// By position in a priority list of agent ids (earlier is better; an
    /// agent not in the list ranks last).
    Priority(&'a Vec<String>),
}

/// Position of `id` in `priority`, searching from `i`; `usize::MAX` when absent.
pub open spec fn rank_from(priority: Seq<Seq<char>>, id: Seq<char>, i: int) -> int
    decreases priority.len() - i,
{
    if i < 0 || i >= priority.len() {
        usize::MAX as int
    } else if priority[i] == id {
        i
    } else {
        rank_from(priority, id, i + 1)
    }
}

/// Position of `id` in `priority`; `usize::MAX` when absent.
pub open spec fn priority_rank(priority: Seq<String>, id: Seq<char>) -> int {
    rank_from(priority.map_values(|p: String| p@), id, 0)
}

/// "Ballot `a` beats ballot `b`" under `ranking`.
pub open spec fn beats(ranking: Ranking<'_>, s: Seq<Ballot>) -> spec_fn(usize, usize) -> bool {
    |a: usize, b: usize|
        match ranking {
            Ranking::Confidence => score_gt(s[a as int].confidence, s[b as int].confidence),
            Ranking::Vote => score_gt(s[a as int].vote, s[b as int].vote),
            Ranking::Priority(p) => priority_rank(p@, s[a as int].agent_id@) < priority_rank(
                p@,
                s[b as int].agent_id@,
            ),
        }
}

/// Position of `id` in `priority`, or `usize::MAX` if it is absent.
pub fn priority_position(priority: &Vec<String>, id: &String) -> (r: usize)
    ensures
        r == priority_rank(priority@, id@),
{
    let ghost p = priority@.map_values(|q: String| q@);
    let mut i: usize = 0;
    while i < priority.len()
        invariant
            i <= priority@.len(),
            p == priority@.map_values(|q: String| q@),
            rank_from(p, id@, 0) == rank_from(p, id@, i as int),
        decreases priority@.len() - i,
    {
        if priority[i] == *id {
            return i;
        }
        i = i + 1;
    }
    usize::MAX
}

/// Whether ballot `a` beats ballot `b` under `ranking`.
pub fn outranks(ranking: &Ranking<'_>, ballots: &Vec<Ballot>, a: usize, b: usize) -> (r: bool)
    requires
        a < ballots@.len(),
        b < ballots@.len(),
    ensures
        r == beats(*ranking, ballots@)(a, b),
{
    match ranking {
        Ranking::Confidence => score_greater(ballots[a].confidence, ballots[b].confidence),
        Ranking::Vote => score_greater(ballots[a].vote, ballots[b].vote),
        Ranking::Priority(p) => {
            let pa = priority_position(p, &ballots[a].agent_id);
            let pb = priority_position(p, &ballots[b].agent_id);
            pa < pb
        },
    }
}

/// The best of the candidate indices, ties going to the later one.
pub fn best_candidate(ranking: &Ranking<'_>, ballots: &Vec<Ballot>, cands: &Vec<usize>) -> (r: usize)
    requires
        cands@.len() > 0,
        forall|i: int| 0 <= i < cands@.len() ==> #[trigger] cands@[i] < ballots@.len(),
    ensures
        r == best_by(cands@, beats(*ranking, ballots@)),
{
    let mut best = cands[0];
    let mut i: usize = 1;
    assert(cands@.take(1).drop_last() =~= Seq::<usize>::empty());
    assert(cands@.take(1) =~= seq![cands@[0]]);
    while i < cands.len()
        invariant
            1 <= i <= cands@.len(),
            forall|k: int| 0 <= k < cands@.len() ==> #[trigger] cands@[k] < ballots@.len(),
            best < ballots@.len(),
            best == best_by(cands@.take(i as int), beats(*ranking, ballots@)),
        decreases cands@.len() - i,
    {
        let next = cands[i];
        assert(cands@.take(i + 1).drop_last() =~= cands@.take(i as int));
        if !outranks(ranking, ballots, best, next) {
            best = next;
        }
        i = i + 1;
    }
    assert(cands@.take(cands@.len() as int) =~= cands@);
    best
}

/// Index of the first Veto among the first `n` ballots, or -1.
pub open spec fn first_veto(s: Seq<Ballot>, n: int) -> int
    decreases n,
{
    if n <= 0 {
        -1
    } else {
        let p = first_veto(s, n - 1);
        if p >= 0 {
            p
        } else if s[n - 1].intent_type == IntentType::Veto {
            n - 1
        } else {
            -1
        }
    }
}

/// Indices of the non-Hold ballots among the first `n`, in order.
pub open spec fn active(s: Seq<Ballot>, n: int) -> Seq<usize>
    decreases n,
{
    if n <= 0 {
        Seq::empty()
    } else {
        let p = active(s, n - 1);
        if s[n - 1].intent_type != IntentType::Hold {
            p.push((n - 1) as usize)
        } else {
            p
        }
    }
}

/// Pipeline consensus: a Veto overrides everything with a Hold on behalf of
/// the first vetoing agent; otherwise the most confident non-Hold intent
/// wins; if all intents are Hold, the first one is kept.
pub open spec fn pipeline_outcome(s: Seq<Ballot>) -> Seq<Pick> {
    let v = first_veto(s, s.len() as int);
    if v >= 0 {
        seq![Pick::HoldFrom(v as usize)]
    } else {
        let c = active(s, s.len() as int);
        if c.len() == 0 {
            if s.len() == 0 {
                Seq::empty()
            } else {
                seq![Pick::Keep(0)]
            }
        } else {
            seq![Pick::Keep(best_by(c, beats(Ranking::Confidence, s)))]
        }
    }
}

/// Distinct instruments of the first `n` ballots, in order of first appearance.
pub open spec fn instruments(s: Seq<Ballot>, n: int) -> Seq<Seq<char>>
    decreases n,
{
    if n <= 0 {
        Seq::empty()
    } else {
        let p = instruments(s, n - 1);
        if p.contains(s[n - 1].instrument@) {
            p
        } else {
            p.push(s[n - 1].instrument@)
        }
    }
}

/// Indices of the non-Hold ballots on instrument `inst` among the first `n`.
pub open spec fn eligible(s: Seq<Ballot>, n: int, inst: Seq<char>) -> Seq<usize>
    decreases n,
{
    if n <= 0 {
        Seq::empty()
    } else {
        let p = eligible(s, n - 1, inst);
        if s[n - 1].intent_type != IntentType::Hold && s[n - 1].instrument@ == inst {
            p.push((n - 1) as usize)
        } else {
            p
        }
    }
}

/// Per-instrument winners for the instruments `insts`, in that order.
pub open spec fn winners(s: Seq<Ballot>, insts: Seq<Seq<char>>, ranking: Ranking<'_>) -> Seq<Pick>
    decreases insts.len(),
{
    if insts.len() == 0 {
        Seq::empty()
    } else {
        let w = winners(s, insts.drop_last(), ranking);
        let e = eligible(s, s.len() as int, insts.last());
        if e.len() > 0 {
            w.push(Pick::Keep(best_by(e, beats(ranking, s))))
        } else {
            w
        }
    }
}

/// Grouped consensus: for each instrument (in order of first appearance),
/// the best non-Hold intent under `ranking`; instruments with only Hold
/// intents yield nothing.
pub open spec fn grouped_outcome(s: Seq<Ballot>, ranking: Ranking<'_>) -> Seq<Pick> {
    winners(s, instruments(s, s.len() as int), ranking)
}

proof fn lemma_active_bounded(s: Seq<Ballot>, n: int)
    requires
        0 <= n <= s.len(),
    ensures
        forall|i: int| 0 <= i < active(s, n).len() ==> #[trigger] active(s, n)[i] < n,
    decreases n,
{
    if n > 0 {
        lemma_active_bounded(s, n - 1);
        let p = active(s, n - 1);
        assert forall|i: int| 0 <= i < active(s, n).len() implies #[trigger] active(s, n)[i] < n by {
            if i < p.len() {
                assert(active(s, n)[i] == p[i]);
            }
        }
    }
}

proof fn lemma_eligible_bounded(s: Seq<Ballot>, n: int, inst: Seq<char>)
    requires
        0 <= n <= s.len(),
    ensures
        forall|i: int| 0 <= i < eligible(s, n, inst).len() ==> #[trigger] eligible(s, n, inst)[i] < n,
    decreases n,
{
    if n > 0 {
        lemma_eligible_bounded(s, n - 1, inst);
        let p = eligible(s, n - 1, inst);
        assert forall|i: int| 0 <= i < eligible(s, n, inst).len() implies #[trigger] eligible(s, n, inst)[i] < n by {
            if i < p.len() {
                assert(eligible(s, n, inst)[i] == p[i]);
            }
        }
    }
}

/// Position of the first Veto, if any.
fn veto_position(ballots: &Vec<Ballot>) -> (r: Option<usize>)
    ensures
        match r {
            Some(v) => v as int == first_veto(ballots@, ballots@.len() as int),
            None => first_veto(ballots@, ballots@.len() as int) == -1,
        },
{
    let mut i: usize = 0;
    while i < ballots.len()
        invariant
            i <= ballots@.len(),
            first_veto(ballots@, i as int) == -1,
        decreases ballots@.len() - i,
    {
        if ballots[i].intent_type == IntentType::Veto {
            proof {
                lemma_first_veto_stable(ballots@, i as int + 1, ballots@.len() as int);
            }
            return Some(i);
        }
        i = i + 1;
    }
    None
}

proof fn lemma_first_veto_stable(s: Seq<Ballot>, m: int, n: int)
    requires
        0 <= m <= n <= s.len(),
        first_veto(s, m) >= 0,
    ensures
        first_veto(s, n) == first_veto(s, m),
    decreases n - m,
{
    if n > m {
        lemma_first_veto_stable(s, m, n - 1);
    }
}

/// Indices of the non-Hold ballots, in order.
fn active_indices(ballots: &Vec<Ballot>) -> (r: Vec<usize>)
    ensures
        r@ == active(ballots@, ballots@.len() as int),
{
    let mut out: Vec<usize> = Vec::new();
    let mut i: usize = 0;
    while i < ballots.len()
        invariant
            i <= ballots@.len(),
            out@ == active(ballots@, i as int),
        decreases ballots@.len() - i,
    {
        if ballots[i].intent_type != IntentType::Hold {
            out.push(i);
        }
        i = i + 1;
    }
    out
}

/// Whether `list` holds a string equal to `x`.
fn holds_string(list: &Vec<String>, x: &String) -> (r: bool)
    ensures
        r == list@.map_values(|q: String| q@).contains(x@),
{
    let ghost l = list@.map_values(|q: String| q@);
    let mut k: usize = 0;
    while k < list.len()
        invariant
            k <= list@.len(),
            l == list@.map_values(|q: String| q@),
            forall|j: int| 0 <= j < k ==> l[j] != x@,
        decreases list@.len() - k,
    {
        if list[k] == *x {
            assert(l[k as int] == x@);
            return true;
        }
        k = k + 1;
    }
    false
}

/// Distinct instruments, in order of first appearance.
fn instrument_list(ballots: &Vec<Ballot>) -> (r: Vec<String>)
    ensures
        r@.map_values(|q: String| q@) == instruments(ballots@, ballots@.len() as int),
{
    let mut out: Vec<String> = Vec::new();
    let mut i: usize = 0;
    while i < ballots.len()
        invariant
            i <= ballots@.len(),
            out@.map_values(|q: String| q@) == instruments(ballots@, i as int),
        decreases ballots@.len() - i,
    {
        if !holds_string(&out, &ballots[i].instrument) {
            let ghost before = out@;
            out.push(ballots[i].instrument.clone());
            assert(out@.map_values(|q: String| q@) =~= before.map_values(|q: String| q@).push(
                ballots@[i as int].instrument@,
            ));
        }
        i = i + 1;
    }
    out
}

/// Indices of the non-Hold ballots on instrument `inst`, in order.
fn eligible_indices(ballots: &Vec<Ballot>, inst: &String) -> (r: Vec<usize>)
    ensures
        r@ == eligible(ballots@, ballots@.len() as int, inst@),
{
    let mut out: Vec<usize> = Vec::new();
    let mut i: usize = 0;
    while i < ballots.len()
        invariant
            i <= ballots@.len(),
            out@ == eligible(ballots@, i as int, inst@),
        decreases ballots@.len() - i,
    {
        if ballots[i].intent_type != IntentType::Hold && ballots[i].instrument == *inst {
            out.push(i);
        }
        i = i + 1;
    }
    out
}

/// Pipeline consensus over `ballots` (see `pipeline_outcome`).
pub fn resolve_pipeline(ballots: &Vec<Ballot>) -> (r: Vec<Pick>)
    ensures
        r@ == pipeline_outcome(ballots@),
{
    if let Some(v) = veto_position(ballots) {
        return vec![Pick::HoldFrom(v)];
    }
    let cands = active_indices(ballots);
    if cands.len() == 0 {
        if ballots.len() == 0 {
            return Vec::new();
        }
        return vec![Pick::Keep(0)];
    }
    proof {
        lemma_active_bounded(ballots@, ballots@.len() as int);
    }
    let best = best_candidate(&Ranking::Confidence, ballots, &cands);
    vec![Pick::Keep(best)]
}

/// Grouped consensus over `ballots` (see `grouped_outcome`).
pub fn resolve_grouped(ballots: &Vec<Ballot>, ranking: &Ranking<'_>) -> (r: Vec<Pick>)
    ensures
        r@ == grouped_outcome(ballots@, *ranking),
{
    let insts = instrument_list(ballots);
    let ghost views = insts@.map_values(|q: String| q@);
    let mut out: Vec<Pick> = Vec::new();
    let mut g: usize = 0;
    proof {
        lemma_eligible_all_bounded(ballots@);
    }
    while g < insts.len()
        invariant
            g <= insts@.len(),
            views == insts@.map_values(|q: String| q@),
            views == instruments(ballots@, ballots@.len() as int),
            forall|inst: Seq<char>, i: int|
                0 <= i < eligible(ballots@, ballots@.len() as int, inst).len() ==>
                #[trigger] eligible(ballots@, ballots@.len() as int, inst)[i] < ballots@.len(),
            out@ == winners(ballots@, views.take(g as int), *ranking),
        decreases insts@.len() - g,
    {
        let cands = eligible_indices(ballots, &insts[g]);
        assert(views.take(g + 1).drop_last() =~= views.take(g as int));
        assert(views.take(g + 1).last() == insts@[g as int]@);
        if cands.len() > 0 {
            let best = best_candidate(ranking, ballots, &cands);
            out.push(Pick::Keep(best));
        }
        g = g + 1;
    }
    assert(views.take(insts@.len() as int) =~= views);
    out
}

proof fn lemma_eligible_all_bounded(s: Seq<Ballot>)
    ensures
        forall|inst: Seq<char>, i: int|
            0 <= i < eligible(s, s.len() as int, inst).len() ==>
            #[trigger] eligible(s, s.len() as int, inst)[i] < s.len(),
{
    assert forall|inst: Seq<char>, i: int|
        0 <= i < eligible(s, s.len() as int, inst).len() implies
        #[trigger] eligible(s, s.len() as int, inst)[i] < s.len() by {
        lemma_eligible_bounded(s, s.len() as int, inst);
    }
}

/// Pluggable consensus strategy.
pub trait ConsensusEngine {
    /// The picks this engine makes for `ballots`.
    spec fn outcome(&self, ballots: Seq<Ballot>) -> Seq<Pick>;

    /// The engine's name for logging.
    spec fn label(&self) -> Seq<char>;

    /// Resolve a group of ballots into the intents that go on.
    fn resolve(&self, ballots: &Vec<Ballot>) -> (r: Vec<Pick>)
        ensures
            r@ == self.outcome(ballots@),
    ;

    /// Human-readable name for logging.
    fn name(&self) -> (r: &'static str)
        ensures
            r@ == self.label(),
    ;
}

/// Pipeline consensus: Veto, then the highest confidence.
pub struct PipelineConsensus;

/// Weighted vote: per instrument, the highest confidence times reputation.
pub struct WeightedVoteConsensus;

/// Hierarchical: per instrument, the non-Hold intent of the agent earliest in
/// the priority list.
pub struct HierarchicalConsensus {
    pub priority: Vec<String>,
}

impl ConsensusEngine for PipelineConsensus {
    open spec fn outcome(&self, ballots: Seq<Ballot>) -> Seq<Pick> {
        pipeline_outcome(ballots)
    }

    open spec fn label(&self) -> Seq<char> {
        "Pipeline"@
    }

    fn resolve(&self, ballots: &Vec<Ballot>) -> (r: Vec<Pick>) {
        resolve_pipeline(ballots)
    }

    fn name(&self) -> (r: &'static str) {
        "Pipeline"
    }
}

impl ConsensusEngine for WeightedVoteConsensus {
    open spec fn outcome(&self, ballots: Seq<Ballot>) -> Seq<Pick> {
        grouped_outcome(ballots, Ranking::Vote)
    }

    open spec fn label(&self) -> Seq<char> {
        "WeightedVote"@
    }

    fn resolve(&self, ballots: &Vec<Ballot>) -> (r: Vec<Pick>) {
        resolve_grouped(ballots, &Ranking::Vote)
    }

    fn name(&self) -> (r: &'static str) {
        "WeightedVote"
    }
}

impl ConsensusEngine for HierarchicalConsensus {
    open spec fn outcome(&self, ballots: Seq<Ballot>) -> Seq<Pick> {
        grouped_outcome(ballots, Ranking::Priority(&self.priority))
    }

    open spec fn label(&self) -> Seq<char> {
        "Hierarchical"@
    }

    fn resolve(&self, ballots: &Vec<Ballot>) -> (r: Vec<Pick>) {
        resolve_grouped(ballots, &Ranking::Priority(&self.priority))
    }

    fn name(&self) -> (r: &'static str) {
        "Hierarchical"
    }
}

/// Strategy for resolving conflicts between multiple agents.
#[derive(Clone, Debug)]
pub enum ConsensusStrategy {
    /// Priority-ordered: the earliest agent in `priority` wins.
    Hierarchical { priority: Vec<String> },
    /// Weighted vote by reputation score.
    WeightedVote,
    /// Serial pipeline: Veto first, then the most confident.
    Pipeline,
}

/// The picks a strategy makes for `ballots`.
pub open spec fn strategy_outcome(strategy: ConsensusStrategy, ballots: Seq<Ballot>) -> Seq<Pick> {
    match strategy {
        ConsensusStrategy::Pipeline => pipeline_outcome(ballots),
        ConsensusStrategy::WeightedVote => grouped_outcome(ballots, Ranking::Vote),
        ConsensusStrategy::Hierarchical { priority } => grouped_outcome(
            ballots,
            Ranking::Priority(&priority),
        ),
    }
}

impl ConsensusStrategy {
    /// Resolve `ballots` with the engine this strategy names.
    pub fn resolve(&self, ballots: &Vec<Ballot>) -> (r: Vec<Pick>)
        ensures
            r@ == strategy_outcome(*self, ballots@),
    {
        match self {
            ConsensusStrategy::Pipeline => PipelineConsensus.resolve(ballots),
            ConsensusStrategy::WeightedVote => WeightedVoteConsensus.resolve(ballots),
            ConsensusStrategy::Hierarchical { priority } => resolve_grouped(
                ballots,
                &Ranking::Priority(priority),
            ),
        }
    }
}

proof fn lemma_first_veto_spec(s: Seq<Ballot>, n: int)
    requires
        0 <= n <= s.len(),
    ensures
        first_veto(s, n) == -1 <==> forall|j: int| 0 <= j < n ==> s[j].intent_type != IntentType::Veto,
        first_veto(s, n) >= 0 ==> {
            &&& first_veto(s, n) < n
            &&& s[first_veto(s, n)].intent_type == IntentType::Veto
            &&& forall|j: int| 0 <= j < first_veto(s, n) ==> s[j].intent_type != IntentType::Veto
        },
        first_veto(s, n) >= -1,
    decreases n,
{
    if n > 0 {
        lemma_first_veto_spec(s, n - 1);
    }
}

proof fn lemma_active_spec(s: Seq<Ballot>, n: int)
    requires
        0 <= n <= s.len(),
        s.len() <= usize::MAX,
    ensures
        forall|i: int| 0 <= i < active(s, n).len() ==> {
            &&& #[trigger] active(s, n)[i] < n
            &&& s[active(s, n)[i] as int].intent_type != IntentType::Hold
        },
        forall|j: int| 0 <= j < n && s[j].intent_type != IntentType::Hold ==> active(s, n).contains(j as usize),
    decreases n,
{
    if n > 0 {
        lemma_active_spec(s, n - 1);
        let p = active(s, n - 1);
        assert forall|i: int| 0 <= i < active(s, n).len() implies {
            &&& #[trigger] active(s, n)[i] < n
            &&& s[active(s, n)[i] as int].intent_type != IntentType::Hold
        } by {
            if i < p.len() {
                assert(active(s, n)[i] == p[i]);
            }
        }
        assert forall|j: int| 0 <= j < n && s[j].intent_type != IntentType::Hold implies active(s, n).contains(j as usize) by {
            if j < n - 1 {
                let k = choose|k: int| 0 <= k < p.len() && p[k] == j as usize;
                assert(active(s, n)[k] == j as usize);
            } else {
                assert(active(s, n)[active(s, n).len() - 1] == j as usize);
            }
        }
    }
}

/// The winner of `best_by` is one of the candidates.
pub proof fn lemma_best_by_member(c: Seq<usize>, gt: spec_fn(usize, usize) -> bool)
    requires
        c.len() > 0,
    ensures
        c.contains(best_by(c, gt)),
    decreases c.len(),
{
    if c.len() > 1 {
        lemma_best_by_member(c.drop_last(), gt);
        let acc = best_by(c.drop_last(), gt);
        if gt(acc, c.last()) {
            let k = choose|k: int| 0 <= k < c.drop_last().len() && c.drop_last()[k] == acc;
            assert(c[k] == acc);
        } else {
            assert(c[c.len() - 1] == c.last());
        }
    } else {
        assert(c[0] == best_by(c, gt));
    }
}

/// When "beats" compares an integer key, the winner of `best_by` has the
/// largest key among the candidates.
pub proof fn lemma_best_by_max(c: Seq<usize>, gt: spec_fn(usize, usize) -> bool, key: spec_fn(usize) -> int)
    requires
        c.len() > 0,
        forall|i: int, j: int|
            0 <= i < c.len() && 0 <= j < c.len() ==> #[trigger] gt(c[i], c[j]) == (key(c[i]) > key(c[j])),
    ensures
        forall|i: int| 0 <= i < c.len() ==> key(#[trigger] c[i]) <= key(best_by(c, gt)),
    decreases c.len(),
{
    if c.len() > 1 {
        let d = c.drop_last();
        assert forall|i: int, j: int| 0 <= i < d.len() && 0 <= j < d.len() implies #[trigger] gt(d[i], d[j]) == (key(d[i]) > key(d[j])) by {
            assert(d[i] == c[i] && d[j] == c[j]);
        }
        lemma_best_by_max(d, gt, key);
        lemma_best_by_member(d, gt);
        let acc = best_by(d, gt);
        let q = choose|q: int| 0 <= q < d.len() && d[q] == acc;
        assert(c[q] == acc);
        assert(gt(c[q], c[c.len() - 1]) == (key(c[q]) > key(c[c.len() - 1])));
        assert forall|i: int| 0 <= i < c.len() implies key(#[trigger] c[i]) <= key(best_by(c, gt)) by {
            if i < c.len() - 1 {
                assert(c[i] == c.drop_last()[i]);
            }
        }
    }
}

/// Veto overrides everything: under the pipeline, any Veto yields exactly one
/// Hold on behalf of the first vetoing agent.
pub proof fn lemma_veto_overrides(s: Seq<Ballot>, i: int)
    requires
        0 <= i < s.len(),
        s[i].intent_type == IntentType::Veto,
    ensures
        exists|v: int|
            #![trigger s[v]]
            0 <= v <= i && s[v].intent_type == IntentType::Veto
            && (forall|j: int| 0 <= j < v ==> s[j].intent_type != IntentType::Veto)
            && pipeline_outcome(s) == seq![Pick::HoldFrom(v as usize)],
{
    lemma_first_veto_spec(s, s.len() as int);
    let v = first_veto(s, s.len() as int);
    assert(s[v].intent_type == IntentType::Veto);
}

/// Without a Veto, when every agent holds, the pipeline keeps the first
/// intent, and nothing at all when there is none.
pub proof fn lemma_all_hold_keeps_first(s: Seq<Ballot>)
    requires
        s.len() <= usize::MAX,
        forall|j: int| 0 <= j < s.len() ==> #[trigger] s[j].intent_type == IntentType::Hold,
    ensures
        s.len() > 0 ==> pipeline_outcome(s) == seq![Pick::Keep(0)],
        s.len() == 0 ==> pipeline_outcome(s) == Seq::<Pick>::empty(),
{
    let n = s.len() as int;
    lemma_first_veto_spec(s, n);
    lemma_active_spec(s, n);
    let c = active(s, n);
    if c.len() > 0 {
        assert(s[c[0] as int].intent_type != IntentType::Hold);
    }
}

/// Without a Veto, the pipeline keeps exactly one intent when there is any,
/// and when some intent is not Hold and every confidence is ranked, it keeps
/// a non-Hold intent whose confidence is the highest among the non-Hold ones.
pub proof fn lemma_pipeline_keeps_most_confident(s: Seq<Ballot>)
    requires
        s.len() <= usize::MAX,
        forall|j: int| 0 <= j < s.len() ==> s[j].intent_type != IntentType::Veto,
    ensures
        pipeline_outcome(s).len() == if s.len() == 0 { 0int } else { 1int },
        s.len() > 0 ==> pipeline_outcome(s)[0] is Keep && (pipeline_outcome(s)[0]->Keep_0 as int) < s.len(),
        (exists|j: int| 0 <= j < s.len() && s[j].intent_type != IntentType::Hold)
            && (forall|j: int| 0 <= j < s.len() ==> #[trigger] s[j].confidence is Ranked) ==> {
            let k = pipeline_outcome(s)[0]->Keep_0 as int;
            &&& s[k].intent_type != IntentType::Hold
            &&& forall|j: int| 0 <= j < s.len() && s[j].intent_type != IntentType::Hold
                ==> s[j].confidence->Ranked_0 <= s[k].confidence->Ranked_0
        },
{
    let n = s.len() as int;
    lemma_first_veto_spec(s, n);
    lemma_active_spec(s, n);
    let c = active(s, n);
    if c.len() > 0 {
        let gt = beats(Ranking::Confidence, s);
        lemma_best_by_member(c, gt);
        let k = best_by(c, gt);
        let kk = choose|q: int| 0 <= q < c.len() && c[q] == k;
        assert(c[kk] == k);
        if forall|j: int| 0 <= j < s.len() ==> #[trigger] s[j].confidence is Ranked {
            let key = |a: usize| if 0 <= a < s.len() { s[a as int].confidence->Ranked_0 as int } else { 0int };
            assert forall|i: int, j: int| 0 <= i < c.len() && 0 <= j < c.len() implies #[trigger] gt(c[i], c[j]) == (key(c[i]) > key(c[j])) by {
                assert(s[c[i] as int].confidence is Ranked);
                assert(s[c[j] as int].confidence is Ranked);
            }
            lemma_best_by_max(c, gt, key);
            assert forall|j: int| 0 <= j < s.len() && s[j].intent_type != IntentType::Hold
                implies s[j].confidence->Ranked_0 <= s[k as int].confidence->Ranked_0 by {
                let q = choose|q: int| 0 <= q < c.len() && c[q] == j as usize;
                assert(key(c[q]) <= key(k));
            }
        }
    } else {
        assert(forall|j: int| 0 <= j < s.len() ==> s[j].intent_type == IntentType::Hold) by {
            assert forall|j: int| 0 <= j < s.len() implies s[j].intent_type == IntentType::Hold by {
                if s[j].intent_type != IntentType::Hold {
                    assert(c.contains(j as usize));
                }
            }
        }
    }
}

proof fn lemma_eligible_spec(s: Seq<Ballot>, n: int, inst: Seq<char>)
    requires
        0 <= n <= s.len(),
        s.len() <= usize::MAX,
    ensures
        forall|i: int| 0 <= i < eligible(s, n, inst).len() ==> {
            &&& #[trigger] eligible(s, n, inst)[i] < n
            &&& s[eligible(s, n, inst)[i] as int].intent_type != IntentType::Hold
            &&& s[eligible(s, n, inst)[i] as int].instrument@ == inst
        },
        forall|j: int|
            0 <= j < n && s[j].intent_type != IntentType::Hold && s[j].instrument@ == inst
                ==> eligible(s, n, inst).contains(j as usize),
    decreases n,
{
    if n > 0 {
        lemma_eligible_spec(s, n - 1, inst);
        let p = eligible(s, n - 1, inst);
        let e = eligible(s, n, inst);
        assert forall|i: int| 0 <= i < e.len() implies {
            &&& #[trigger] e[i] < n
            &&& s[e[i] as int].intent_type != IntentType::Hold
            &&& s[e[i] as int].instrument@ == inst
        } by {
            if i < p.len() {
                assert(e[i] == p[i]);
            }
        }
        assert forall|j: int|
            0 <= j < n && s[j].intent_type != IntentType::Hold && s[j].instrument@ == inst
            implies e.contains(j as usize) by {
            if j < n - 1 {
                let k = choose|k: int| 0 <= k < p.len() && p[k] == j as usize;
                assert(e[k] == j as usize);
            } else {
                assert(e[e.len() - 1] == j as usize);
            }
        }
    }
}

proof fn lemma_instruments_spec(s: Seq<Ballot>, n: int)
    requires
        0 <= n <= s.len(),
    ensures
        instruments(s, n).no_duplicates(),
        forall|j: int| 0 <= j < n ==> instruments(s, n).contains(#[trigger] s[j].instrument@),
    decreases n,
{
    if n > 0 {
        lemma_instruments_spec(s, n - 1);
        let p = instruments(s, n - 1);
        let q = instruments(s, n);
        assert forall|j: int| 0 <= j < n implies q.contains(#[trigger] s[j].instrument@) by {
            if j < n - 1 {
                if !p.contains(s[n - 1].instrument@) {
                    let k = choose|k: int| 0 <= k < p.len() && p[k] == s[j].instrument@;
                    assert(q[k] == s[j].instrument@);
                }
            } else if !p.contains(s[n - 1].instrument@) {
                assert(q[q.len() - 1] == s[j].instrument@);
            }
        }
    }
}

/// The instrument of the ballot a pick keeps.
pub open spec fn pick_instrument(s: Seq<Ballot>, p: Pick) -> Seq<char> {
    match p {
        Pick::Keep(i) => s[i as int].instrument@,
        Pick::HoldFrom(i) => s[i as int].instrument@,
    }
}

proof fn lemma_winners_spec(s: Seq<Ballot>, insts: Seq<Seq<char>>, ranking: Ranking<'_>)
    requires
        s.len() <= usize::MAX,
        insts.no_duplicates(),
    ensures
        forall|q: int| 0 <= q < winners(s, insts, ranking).len() ==> {
            &&& #[trigger] winners(s, insts, ranking)[q] is Keep
            &&& (winners(s, insts, ranking)[q]->Keep_0 as int) < s.len()
            &&& s[winners(s, insts, ranking)[q]->Keep_0 as int].intent_type != IntentType::Hold
            &&& insts.contains(pick_instrument(s, winners(s, insts, ranking)[q]))
            &&& eligible(s, s.len() as int, pick_instrument(s, winners(s, insts, ranking)[q])).contains(
                winners(s, insts, ranking)[q]->Keep_0,
            )
            &&& winners(s, insts, ranking)[q]->Keep_0 == best_by(
                eligible(s, s.len() as int, pick_instrument(s, winners(s, insts, ranking)[q])),
                beats(ranking, s),
            )
        },
        forall|q1: int, q2: int|
            0 <= q1 < q2 < winners(s, insts, ranking).len() ==> pick_instrument(
                s,
                #[trigger] winners(s, insts, ranking)[q1],
            ) != pick_instrument(s, #[trigger] winners(s, insts, ranking)[q2]),
        forall|t: int|
            0 <= t < insts.len() && eligible(s, s.len() as int, #[trigger] insts[t]).len() > 0 ==> exists|q: int|
                0 <= q < winners(s, insts, ranking).len() && pick_instrument(
                    s,
                    #[trigger] winners(s, insts, ranking)[q],
                ) == insts[t],
    decreases insts.len(),
{
    if insts.len() > 0 {
        let d = insts.drop_last();
        assert(d.no_duplicates()) by {
            assert forall|a: int, b: int| 0 <= a < d.len() && 0 <= b < d.len() && a != b implies d[a] != d[b] by {
                assert(d[a] == insts[a] && d[b] == insts[b]);
            }
        }
        lemma_winners_spec(s, d, ranking);
        let w = winners(s, d, ranking);
        let last = insts.last();
        let e = eligible(s, s.len() as int, last);
        lemma_eligible_spec(s, s.len() as int, last);
        assert(!d.contains(last)) by {
            if d.contains(last) {
                let k = choose|k: int| 0 <= k < d.len() && d[k] == last;
                assert(insts[k] == insts[insts.len() - 1]);
            }
        }
        let r = winners(s, insts, ranking);
        assert forall|q: int| 0 <= q < w.len() implies insts.contains(pick_instrument(s, #[trigger] w[q])) by {
            let k = choose|k: int| 0 <= k < d.len() && d[k] == pick_instrument(s, w[q]);
            assert(insts[k] == d[k]);
        }
        if e.len() > 0 {
            lemma_best_by_member(e, beats(ranking, s));
            let b = best_by(e, beats(ranking, s));
            let kb = choose|k: int| 0 <= k < e.len() && e[k] == b;
            assert(s[e[kb] as int].instrument@ == last);
            assert(insts[insts.len() - 1] == last);
            assert forall|q: int| 0 <= q < r.len() implies {
                &&& #[trigger] r[q] is Keep
                &&& (r[q]->Keep_0 as int) < s.len()
                &&& s[r[q]->Keep_0 as int].intent_type != IntentType::Hold
                &&& insts.contains(pick_instrument(s, r[q]))
                &&& eligible(s, s.len() as int, pick_instrument(s, r[q])).contains(r[q]->Keep_0)
                &&& r[q]->Keep_0 == best_by(eligible(s, s.len() as int, pick_instrument(s, r[q])), beats(ranking, s))
            } by {
                if q < w.len() {
                    assert(r[q] == w[q]);
                } else {
                    assert(r[q] == Pick::Keep(b));
                }
            }
            assert forall|q1: int, q2: int| 0 <= q1 < q2 < r.len() implies pick_instrument(s, #[trigger] r[q1])
                != pick_instrument(s, #[trigger] r[q2]) by {
                assert(r[q1] == w[q1]);
                if q2 < w.len() {
                    assert(r[q2] == w[q2]);
                } else {
                    assert(pick_instrument(s, r[q2]) == last);
                    assert(d.contains(pick_instrument(s, w[q1])));
                }
            }
            assert forall|t: int| 0 <= t < insts.len() && eligible(s, s.len() as int, #[trigger] insts[t]).len() > 0
                implies exists|q: int| 0 <= q < r.len() && pick_instrument(s, #[trigger] r[q]) == insts[t] by {
                if t < d.len() {
                    assert(d[t] == insts[t]);
                    let q = choose|q: int| 0 <= q < w.len() && pick_instrument(s, #[trigger] w[q]) == d[t];
                    assert(r[q] == w[q]);
                } else {
                    assert(r[r.len() - 1] == Pick::Keep(b));
                }
            }
        } else {
            assert forall|t: int| 0 <= t < insts.len() && eligible(s, s.len() as int, #[trigger] insts[t]).len() > 0
                implies exists|q: int| 0 <= q < r.len() && pick_instrument(s, #[trigger] r[q]) == insts[t] by {
                if t < d.len() {
                    assert(d[t] == insts[t]);
                    let q = choose|q: int| 0 <= q < w.len() && pick_instrument(s, #[trigger] w[q]) == d[t];
                } else {
                    assert(insts[t] == last);
                }
            }
        }
    }
}

/// Grouped consensus keeps exactly one non-Hold intent for each instrument
/// that has one, and nothing else: every pick keeps a non-Hold ballot, no two
/// picks share an instrument, and every instrument with a non-Hold ballot has
/// a pick.
pub proof fn lemma_grouped_one_per_instrument(s: Seq<Ballot>, ranking: Ranking<'_>)
    requires
        s.len() <= usize::MAX,
    ensures
        forall|q: int| 0 <= q < grouped_outcome(s, ranking).len() ==> {
            &&& #[trigger] grouped_outcome(s, ranking)[q] is Keep
            &&& (grouped_outcome(s, ranking)[q]->Keep_0 as int) < s.len()
            &&& s[grouped_outcome(s, ranking)[q]->Keep_0 as int].intent_type != IntentType::Hold
        },
        forall|q1: int, q2: int|
            0 <= q1 < q2 < grouped_outcome(s, ranking).len() ==> pick_instrument(
                s,
                #[trigger] grouped_outcome(s, ranking)[q1],
            ) != pick_instrument(s, #[trigger] grouped_outcome(s, ranking)[q2]),
        forall|j: int|
            0 <= j < s.len() && #[trigger] s[j].intent_type != IntentType::Hold ==> exists|q: int|
                0 <= q < grouped_outcome(s, ranking).len() && pick_instrument(
                    s,
                    #[trigger] grouped_outcome(s, ranking)[q],
                ) == s[j].instrument@,
{
    let n = s.len() as int;
    lemma_instruments_spec(s, n);
    let insts = instruments(s, n);
    lemma_winners_spec(s, insts, ranking);
    assert forall|j: int| 0 <= j < s.len() && #[trigger] s[j].intent_type != IntentType::Hold implies exists|q: int|
        0 <= q < grouped_outcome(s, ranking).len() && pick_instrument(s, #[trigger] grouped_outcome(s, ranking)[q])
            == s[j].instrument@ by {
        assert(insts.contains(s[j].instrument@));
        let t = choose|t: int| 0 <= t < insts.len() && insts[t] == s[j].instrument@;
        lemma_eligible_spec(s, n, insts[t]);
        assert(eligible(s, n, insts[t]).contains(j as usize));
        assert(eligible(s, n, insts[t]).len() > 0);
    }
}

/// Hierarchical consensus keeps, for each instrument, a non-Hold intent of
/// the agent earliest in the priority list among that instrument's non-Hold
/// intents.
pub proof fn lemma_hierarchical_keeps_highest_priority(s: Seq<Ballot>, priority: &Vec<String>)
    requires
        s.len() <= usize::MAX,
    ensures
        forall|q: int, j: int|
            0 <= q < grouped_outcome(s, Ranking::Priority(priority)).len() && 0 <= j < s.len()
                && s[j].intent_type != IntentType::Hold
                && s[j].instrument@ == pick_instrument(s, #[trigger] grouped_outcome(s, Ranking::Priority(priority))[q])
                ==> priority_rank(priority@, s[grouped_outcome(s, Ranking::Priority(priority))[q]->Keep_0 as int].agent_id@)
                <= priority_rank(priority@, #[trigger] s[j].agent_id@),
{
    let n = s.len() as int;
    let ranking = Ranking::Priority(priority);
    let gt = beats(ranking, s);
    let out = grouped_outcome(s, ranking);
    lemma_instruments_spec(s, n);
    lemma_winners_spec(s, instruments(s, n), ranking);
    let key = |a: usize| -priority_rank(priority@, s[a as int].agent_id@);
    assert forall|q: int, j: int|
        0 <= q < out.len() && 0 <= j < s.len() && s[j].intent_type != IntentType::Hold
            && s[j].instrument@ == pick_instrument(s, #[trigger] out[q])
        implies priority_rank(priority@, s[out[q]->Keep_0 as int].agent_id@)
            <= priority_rank(priority@, #[trigger] s[j].agent_id@) by {
        let inst = pick_instrument(s, out[q]);
        let e = eligible(s, n, inst);
        lemma_eligible_spec(s, n, inst);
        assert(e.contains(j as usize));
        let t = choose|t: int| 0 <= t < e.len() && e[t] == j as usize;
        lemma_best_by_max(e, gt, key);
        assert(key(e[t]) <= key(best_by(e, gt)));
    }
}

/// Weighted vote keeps, for each instrument, a non-Hold intent with the
/// highest vote among that instrument's non-Hold intents, when every vote is
/// a number.
pub proof fn lemma_vote_keeps_highest_vote(s: Seq<Ballot>)
    requires
        s.len() <= usize::MAX,
        forall|j: int| 0 <= j < s.len() ==> #[trigger] s[j].vote is Ranked,
    ensures
        forall|q: int, j: int|
            0 <= q < grouped_outcome(s, Ranking::Vote).len() && 0 <= j < s.len()
                && s[j].intent_type != IntentType::Hold
                && s[j].instrument@ == pick_instrument(s, #[trigger] grouped_outcome(s, Ranking::Vote)[q])
                ==> (#[trigger] s[j].vote)->Ranked_0 <= s[grouped_outcome(s, Ranking::Vote)[q]->Keep_0 as int].vote->Ranked_0,
{
    let n = s.len() as int;
    let gt = beats(Ranking::Vote, s);
    let out = grouped_outcome(s, Ranking::Vote);
    lemma_instruments_spec(s, n);
    lemma_winners_spec(s, instruments(s, n), Ranking::Vote);
    let key = |a: usize| if 0 <= a < s.len() { s[a as int].vote->Ranked_0 as int } else { 0int };
    assert forall|q: int, j: int|
        0 <= q < out.len() && 0 <= j < s.len() && s[j].intent_type != IntentType::Hold
            && s[j].instrument@ == pick_instrument(s, #[trigger] out[q])
        implies (#[trigger] s[j].vote)->Ranked_0 <= s[out[q]->Keep_0 as int].vote->Ranked_0 by {
        let inst = pick_instrument(s, out[q]);
        let e = eligible(s, n, inst);
        lemma_eligible_spec(s, n, inst);
        assert(e.contains(j as usize));
        let t = choose|t: int| 0 <= t < e.len() && e[t] == j as usize;
        assert forall|a: int, b: int| 0 <= a < e.len() && 0 <= b < e.len() implies #[trigger] gt(e[a], e[b]) == (key(
            e[a],
        ) > key(e[b])) by {
            assert(s[e[a] as int].vote is Ranked);
            assert(s[e[b] as int].vote is Ranked);
        }
        lemma_best_by_max(e, gt, key);
        assert(key(e[t]) <= key(best_by(e, gt)));
    }
}

} // verus!
