//! What the research panel lists of the ratchet's results: one row per
//! hypothesis, labelled `#H-nnn` and linked to the hypothesis before it, and
//! the tally of accepted and rejected hypotheses.

use vstd::prelude::*;
use vstd::string::{StrSliceExecFns, StringExecFns};
use crate::data_source::{decimal, decimal_string};

verus! {

/// `n` in decimal, padded with leading zeros to at least three digits.
pub open spec fn padded_number(n: nat) -> Seq<char> {
    let d = decimal(n);
    if d.len() >= 3 {
        d
    } else {
        Seq::new((3 - d.len()) as nat, |i: int| '0') + d
    }
}

/// The label of the `n`-th hypothesis: `#H-` and its number in at least
/// three digits.
pub open spec fn hypothesis_label(n: nat) -> Seq<char> {
    "#H-"@ + padded_number(n)
}

/// The label of hypothesis number `n`.
pub fn hypothesis_id(n: u64) -> (r: String)
    ensures
        r@ == hypothesis_label(n as nat),
{
    proof {
        reveal_strlit("#H-");
        reveal_strlit("0");
    }
    let digits = decimal_string(n);
    let len = digits.as_str().unicode_len();
    let mut out = "#H-".to_owned();
    let mut k: usize = len;
    while k < 3
        invariant
            len == decimal(n as nat).len(),
            len <= k <= 3 || (len > 3 && k == len),
            out@ == "#H-"@ + Seq::new((k - len) as nat, |i: int| '0'),
        decreases 3 - k,
    {
        proof {
            reveal_strlit("0");
            assert("0"@ =~= seq!['0']);
        }
        out = out.concat("0");
        assert(out@ =~= "#H-"@ + Seq::new((k + 1 - len) as nat, |i: int| '0'));
        k = k + 1;
    }
    let r = out.concat(digits.as_str());
    proof {
        if len >= 3 {
            assert(Seq::new((k - len) as nat, |i: int| '0') =~= Seq::<char>::empty());
            assert(r@ =~= hypothesis_label(n as nat));
        } else {
            assert(r@ =~= hypothesis_label(n as nat));
        }
    }
    r
}

/// The outcome of one ratchet evaluation, as the panel lists it.
pub struct ResearchOutcome {
    /// The hypothesis that was tried.
    pub hypothesis: String,
    /// Whether the ratchet kept it.
    pub accepted: bool,
}

/// A row of the research panel.
pub struct HypothesisRow {
    /// `#H-nnn`, from the position of the outcome in the list.
    pub id: String,
    /// The hypothesis in double quotes.
    pub description: String,
    /// `ACCEPTED` or `REJECTED`.
    pub status: &'static str,
    /// The label of the hypothesis before, or a dash for the first.
    pub parent: String,
}

/// The status shown for an outcome.
pub open spec fn status_label(accepted: bool) -> Seq<char> {
    if accepted {
        "ACCEPTED"@
    } else {
        "REJECTED"@
    }
}

/// The parent shown for the `i`-th hypothesis.
pub open spec fn parent_label(i: nat) -> Seq<char> {
    if i > 0 {
        hypothesis_label((i - 1) as nat)
    } else {
        "\u{2014}"@
    }
}

/// Whether `row` is the row of the `i`-th outcome `o`.
pub open spec fn row_shows(row: HypothesisRow, i: nat, o: ResearchOutcome) -> bool {
    &&& row.id@ == hypothesis_label(i)
    &&& row.description@ == seq!['"'] + o.hypothesis@ + seq!['"']
    &&& row.status@ == status_label(o.accepted)
    &&& row.parent@ == parent_label(i)
}

/// The rows of the research panel, one per outcome, in order.
pub fn hypothesis_rows(outcomes: &Vec<ResearchOutcome>) -> (r: Vec<HypothesisRow>)
    ensures
        r@.len() == outcomes@.len(),
        forall|i: int| 0 <= i < r@.len() ==> row_shows(#[trigger] r@[i], i as nat, outcomes@[i]),
{
    let mut rows: Vec<HypothesisRow> = Vec::new();
    let mut i: usize = 0;
    while i < outcomes.len()
        invariant
            i <= outcomes@.len(),
            rows@.len() == i,
            forall|k: int| 0 <= k < i ==> row_shows(#[trigger] rows@[k], k as nat, outcomes@[k]),
        decreases outcomes@.len() - i,
    {
        let o = &outcomes[i];
        proof {
            reveal_strlit("\"");
            assert("\""@ =~= seq!['"']);
        }
        let description = "\"".to_owned().concat(o.hypothesis.as_str()).concat("\"");
        assert(description@ =~= seq!['"'] + o.hypothesis@ + seq!['"']);
        let parent = if i > 0 {
            hypothesis_id((i - 1) as u64)
        } else {
            "\u{2014}".to_owned()
        };
        let row = HypothesisRow {
            id: hypothesis_id(i as u64),
            description,
            status: if o.accepted { "ACCEPTED" } else { "REJECTED" },
            parent,
        };
        rows.push(row);
        i = i + 1;
    }
    rows
}

/// Which sample hypotheses the panel would accept, as judged by the caller
/// from the market: a strong momentum, a low risk potential, a profitable
/// open position.
#[derive(Clone, Copy, Debug, PartialEq, Eq, Structural)]
pub struct SampleVerdicts {
    pub momentum_window: bool,
    pub risk_filter: bool,
    pub kelly_sizing: bool,
}

/// The row of a sample hypothesis numbered `n` with parent `p`.
pub open spec fn sample_row(n: nat, p: nat, description: Seq<char>, accepted: bool) -> (Seq<char>, Seq<char>, Seq<char>, Seq<char>) {
    (hypothesis_label(n), seq!['"'] + description + seq!['"'], status_label(accepted), hypothesis_label(p))
}

/// The sample hypotheses shown before the ratchet has reported anything,
/// numbered from the context version: a momentum-window hypothesis after
/// version 10, a risk filter after version 20, and Kelly sizing once the
/// price history is long.
pub open spec fn sample_rows(version: u64, long_history: bool, verdicts: SampleVerdicts) -> Seq<(Seq<char>, Seq<char>, Seq<char>, Seq<char>)> {
    let v = (version / 10) as nat;
    let a = if version > 10 {
        seq![sample_row(v % 100, (if v > 0 { v - 1 } else { 0 }) as nat % 100, "Increase momentum window to 20 bars"@, verdicts.momentum_window)]
    } else {
        Seq::empty()
    };
    let b = if version > 20 {
        a.push(sample_row((v + 1) % 100, v % 100, "Add volatility-adjusted risk filter"@, verdicts.risk_filter))
    } else {
        a
    };
    if long_history {
        b.push(sample_row((v + 2) % 100, (v + 1) % 100, "Kelly criterion position sizing"@, verdicts.kelly_sizing))
    } else {
        b
    }
}

/// What a row shows.
pub open spec fn row_view(r: HypothesisRow) -> (Seq<char>, Seq<char>, Seq<char>, Seq<char>) {
    (r.id@, r.description@, r.status@, r.parent@)
}

fn sample(n: u64, p: u64, description: &str, accepted: bool) -> (r: HypothesisRow)
    ensures
        row_view(r) == sample_row(n as nat, p as nat, description@, accepted),
{
    proof {
        reveal_strlit("\"");
        assert("\""@ =~= seq!['"']);
    }
    let quoted = "\"".to_owned().concat(description).concat("\"");
    assert(quoted@ =~= seq!['"'] + description@ + seq!['"']);
    HypothesisRow {
        id: hypothesis_id(n),
        description: quoted,
        status: if accepted { "ACCEPTED" } else { "REJECTED" },
        parent: hypothesis_id(p),
    }
}

/// The sample rows of the research panel.
pub fn sample_hypotheses(version: u64, long_history: bool, verdicts: SampleVerdicts) -> (r: Vec<HypothesisRow>)
    ensures
        r@.map_values(|x: HypothesisRow| row_view(x)) == sample_rows(version, long_history, verdicts),
{
    let v = version / 10;
    let mut rows: Vec<HypothesisRow> = Vec::new();
    if version > 10 {
        let parent = if v > 0 { v - 1 } else { 0 };
        rows.push(sample(v % 100, parent % 100, "Increase momentum window to 20 bars", verdicts.momentum_window));
    }
    let ghost a = rows@.map_values(|x: HypothesisRow| row_view(x));
    if version > 20 {
        let ghost before = rows@;
        rows.push(sample((v + 1) % 100, v % 100, "Add volatility-adjusted risk filter", verdicts.risk_filter));
        assert(rows@.map_values(|x: HypothesisRow| row_view(x)) =~= before.map_values(|x: HypothesisRow| row_view(x)).push(
            sample_row(((v + 1) % 100) as nat, (v % 100) as nat, "Add volatility-adjusted risk filter"@, verdicts.risk_filter),
        ));
    }
    if long_history {
        let ghost before = rows@;
        rows.push(sample((v + 2) % 100, (v + 1) % 100, "Kelly criterion position sizing", verdicts.kelly_sizing));
        assert(rows@.map_values(|x: HypothesisRow| row_view(x)) =~= before.map_values(|x: HypothesisRow| row_view(x)).push(
            sample_row(((v + 2) % 100) as nat, ((v + 1) % 100) as nat, "Kelly criterion position sizing"@, verdicts.kelly_sizing),
        ));
    }
    proof {
        if version > 10 {
            assert(a =~= seq![sample_row((v % 100) as nat, ((if v > 0 { v - 1 } else { 0 }) % 100) as nat, "Increase momentum window to 20 bars"@, verdicts.momentum_window)]);
        } else {
            assert(a =~= Seq::empty());
        }
        assert(rows@.map_values(|x: HypothesisRow| row_view(x)) =~= sample_rows(version, long_history, verdicts));
    }
    rows
}

/// How many outcomes of `s` were accepted.
pub open spec fn accepted_count(s: Seq<ResearchOutcome>) -> nat
    decreases s.len(),
{
    if s.len() == 0 {
        0
    } else {
        accepted_count(s.drop_last()) + if s.last().accepted { 1nat } else { 0nat }
    }
}

/// The tally of the panel: how many hypotheses were accepted and how many
/// rejected.
pub fn ratchet_tally(outcomes: &Vec<ResearchOutcome>) -> (r: (usize, usize))
    ensures
        r.0 == accepted_count(outcomes@),
        r.0 + r.1 == outcomes@.len(),
{
    let mut accepted: usize = 0;
    let mut rejected: usize = 0;
    let mut i: usize = 0;
    while i < outcomes.len()
        invariant
            i <= outcomes@.len(),
            accepted == accepted_count(outcomes@.subrange(0, i as int)),
            accepted + rejected == i,
        decreases outcomes@.len() - i,
    {
        proof {
            assert(outcomes@.subrange(0, i + 1).drop_last() =~= outcomes@.subrange(0, i as int));
        }
        if outcomes[i].accepted {
            accepted = accepted + 1;
        } else {
            rejected = rejected + 1;
        }
        i = i + 1;
    }
    assert(outcomes@.subrange(0, i as int) =~= outcomes@);
    (accepted, rejected)
}

} // verus!
