//! The engine's internals: coverage, lifted cuts, and what the behavioral feeds delivered.

use crate::state::ReversionRecord;
use crate::text;
use crate::view_model::posture::{relative_text, relative_time, seconds_between, seconds_since};
use crate::view_model::readiness_data::{
    is_unmet, BakeStats, InputState, Readiness, ReadinessRow,
};
use vstd::prelude::*;
use vstd::string::*;

verus! {

/// One decision input.
#[derive(Debug, Clone, PartialEq, Eq)]
pub struct CoverageRow {
    pub label: &'static str,
    pub state: &'static str,
    pub why: &'static str,
    pub enable: &'static str,
    pub detail: String,
    pub weakens: bool,
}

/// A cut that was lifted again.
#[derive(Debug, Clone, PartialEq, Eq)]
pub struct ReversionRow {
    pub cut: String,
    pub reason: String,
    pub ago: String,
}

/// One count.
#[derive(Debug, Clone, PartialEq, Eq)]
pub struct BakeRow {
    pub label: &'static str,
    pub value: String,
}

/// The engine's internals.
#[derive(Debug, Clone, PartialEq, Eq)]
pub struct InternalsProps {
    pub coverage: Vec<CoverageRow>,
    /// Some input is missing.
    pub coverage_unmet: bool,
    pub reversions: Vec<ReversionRow>,
    pub bake: Vec<BakeRow>,
}

/// The input is missing, and decisions are weaker for it.
pub open spec fn is_weak(r: ReadinessRow) -> bool {
    r.weakens_decisions && is_unmet(r)
}

/// `c` shows the input.
pub open spec fn shows_input(r: ReadinessRow, c: CoverageRow) -> bool {
    &&& c.label@ == r.label@
    &&& c.state@ == r.state.word_text()
    &&& c.why@ == r.why@
    &&& c.enable@ == r.enable@
    &&& c.detail@ == r.detail@
    &&& c.weakens == r.weakens_decisions
}

/// `row` shows the record as of `now_ms`.
pub open spec fn shows_lifted(r: ReversionRecord, now_ms: u64, row: ReversionRow) -> bool {
    &&& row.cut@ == r.cut@
    &&& row.reason@ == r.reason@
    &&& row.ago@ == relative_text(Some(seconds_between(r.at_ms, now_ms) as u64))
}

/// A count as it shows.
pub open spec fn count_shown(r: BakeRow) -> (Seq<char>, Seq<char>) {
    (r.label@, r.value@)
}

/// The counts of what the feeds delivered.
pub open spec fn counts_of(bake: BakeStats) -> Seq<(Seq<char>, Seq<char>)> {
    seq![
        ("signals this pass"@, text::decimal(bake.total() as nat)),
        ("attributed (resolved)"@, text::decimal(bake.resolved as nat)),
        ("unattributed (unresolved)"@, text::decimal(bake.unresolved as nat)),
        ("runtime working set"@, text::decimal(bake.runtime_store as nat)),
        ("corroborations this pass"@, text::decimal(bake.corroborations as nat)),
    ]
}

/// `p` shows the internals.
pub open spec fn shows_internals(
    readiness: Readiness,
    reversions: Seq<ReversionRecord>,
    bake: BakeStats,
    now_ms: u64,
    p: InternalsProps,
) -> bool {
    &&& p.coverage@.len() == readiness.inputs@.len()
    &&& forall|i: int|
        0 <= i < p.coverage@.len() ==> shows_input(readiness.inputs@[i], #[trigger] p.coverage@[i])
    &&& p.coverage_unmet == exists|i: int|
        0 <= i < readiness.inputs@.len() && is_weak(#[trigger] readiness.inputs@[i])
    &&& p.reversions@.len() == reversions.len()
    &&& forall|i: int|
        0 <= i < p.reversions@.len() ==> shows_lifted(reversions[i], now_ms, #[trigger] p.reversions@[i])
    &&& p.bake@.map_values(|b: BakeRow| count_shown(b)) == counts_of(bake)
}

fn reversion_row(r: &ReversionRecord, now_ms: u64) -> (row: ReversionRow)
    ensures
        shows_lifted(*r, now_ms, row),
{
    ReversionRow {
        cut: r.cut.clone(),
        reason: r.reason.clone(),
        ago: relative_time(Some(seconds_since(r.at_ms, now_ms))),
    }
}

fn bake_rows(bake: &BakeStats) -> (r: Vec<BakeRow>)
    requires
        bake.wf(),
    ensures
        r@.map_values(|b: BakeRow| count_shown(b)) == counts_of(*bake),
{
    let r: Vec<BakeRow> = vec![
        BakeRow { label: "signals this pass", value: text::number(bake.total_signals()) },
        BakeRow { label: "attributed (resolved)", value: text::number(bake.resolved) },
        BakeRow { label: "unattributed (unresolved)", value: text::number(bake.unresolved) },
        BakeRow { label: "runtime working set", value: text::number(bake.runtime_store) },
        BakeRow { label: "corroborations this pass", value: text::number(bake.corroborations) },
    ];
    assert(r@.map_values(|b: BakeRow| count_shown(b)) =~= counts_of(*bake));
    r
}

/// The engine's internals as of `now_ms`.
pub fn internals_props(
    readiness: &Readiness,
    reversions: &[ReversionRecord],
    bake: &BakeStats,
    now_ms: u64,
) -> (r: InternalsProps)
    requires
        bake.wf(),
    ensures
        shows_internals(*readiness, reversions@, *bake, now_ms, r),
{
    let mut coverage: Vec<CoverageRow> = Vec::new();
    let mut weak = false;
    let mut i: usize = 0;
    while i < readiness.inputs.len()
        invariant
            i <= readiness.inputs.len(),
            weak == exists|k: int| 0 <= k < i && is_weak(#[trigger] readiness.inputs@[k]),
            coverage@.len() == i,
            forall|k: int|
                0 <= k < i ==> shows_input(readiness.inputs@[k], #[trigger] coverage@[k]),
        decreases readiness.inputs.len() - i,
    {
        let r = &readiness.inputs[i];
        if r.weakens_decisions && !text::same(r.id, "arm-state") && r.state != InputState::Present {
            assert(is_weak(readiness.inputs@[i as int]));
            weak = true;
        }
        coverage.push(
            CoverageRow {
                label: r.label,
                state: r.state.word(),
                why: r.why,
                enable: r.enable,
                detail: r.detail.clone(),
                weakens: r.weakens_decisions,
            },
        );
        i += 1;
    }
    let mut rows: Vec<ReversionRow> = Vec::new();
    let mut k: usize = 0;
    while k < reversions.len()
        invariant
            k <= reversions@.len(),
            rows@.len() == k,
            forall|j: int| 0 <= j < k ==> shows_lifted(reversions@[j], now_ms, #[trigger] rows@[j]),
        decreases reversions@.len() - k,
    {
        rows.push(reversion_row(&reversions[k], now_ms));
        k += 1;
    }
    InternalsProps {
        coverage,
        coverage_unmet: weak,
        reversions: rows,
        bake: bake_rows(bake),
    }
}

/// Where coverage reads as unmet, some input is unmet.
pub proof fn unmet_coverage_is_a_gap(readiness: Readiness, i: int)
    requires
        0 <= i < readiness.inputs@.len(),
        is_weak(readiness.inputs@[i]),
    ensures
        readiness.unmet() > 0,
{
    readiness.inputs@.lemma_filter_contains(|r: ReadinessRow| is_unmet(r), i);
}

} // verus!
