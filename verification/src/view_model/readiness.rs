//! The Readiness view: one row per decision input, the gaps that weaken decisions first.

use crate::order;
use crate::props::readiness::{
    InputStateProps, NodeCoverageStateProps, NodeRowProps, ParityReportProps, ParityStateProps,
    ReadinessRowProps, ReadinessViewProps,
};
use crate::props::status::StatusStripProps;
use crate::state::{
    InputState, NodeCoverageRow, NodeCoverageState, ParityReport, ParityState, Readiness,
    ReadinessRow,
};
use vstd::prelude::*;

verus! {

/// The state as it shows. An input that is expected and wholly dark is configured and not
/// answering.
pub open spec fn state_shown(s: InputState) -> InputStateProps {
    match s {
        InputState::Present => InputStateProps::Present,
        InputState::Absent => InputStateProps::Absent,
        InputState::Degraded => InputStateProps::Degraded,
        InputState::Blind => InputStateProps::Degraded,
        InputState::Stalled => InputStateProps::Stalled,
    }
}

/// A node's state as it shows.
pub open spec fn node_shown(s: NodeCoverageState) -> NodeCoverageStateProps {
    match s {
        NodeCoverageState::Healthy => NodeCoverageStateProps::Healthy,
        NodeCoverageState::Degraded => NodeCoverageStateProps::Degraded,
        NodeCoverageState::Blind => NodeCoverageStateProps::Blind,
        NodeCoverageState::OutOfScope => NodeCoverageStateProps::OutOfScope,
    }
}

/// The comparison as it shows.
pub open spec fn parity_shown(s: ParityState) -> ParityStateProps {
    match s {
        ParityState::NothingToCompare => ParityStateProps::NothingToCompare,
        ParityState::Uncovered => ParityStateProps::Uncovered,
        ParityState::Parity => ParityStateProps::Parity,
    }
}

/// A node's line.
pub open spec fn node_row(n: NodeCoverageRow) -> NodeRowProps {
    NodeRowProps { node: n.node, state: node_shown(n.state), detail: n.detail }
}

/// `p` shows the input.
pub open spec fn shows_input(r: ReadinessRow, p: ReadinessRowProps) -> bool {
    &&& p.id@ == r.id@
    &&& p.label@ == r.label@
    &&& p.state == state_shown(r.state)
    &&& p.why@ == r.why@
    &&& p.enable@ == r.enable@
    &&& p.detail@ == r.detail@
    &&& p.weakens_decisions == r.weakens_decisions
    &&& p.nodes@ == r.nodes@.map_values(|n: NodeCoverageRow| node_row(n))
}

/// An input that weakens decisions and is not present: the gap to see first.
pub open spec fn is_gap(r: ReadinessRow) -> bool {
    r.weakens_decisions && r.state != InputState::Present
}

/// The order of inputs: the gaps first.
pub open spec fn gap_order() -> spec_fn(ReadinessRow, ReadinessRow) -> bool {
    |a: ReadinessRow, b: ReadinessRow| is_gap(a) || !is_gap(b)
}

/// The inputs as they show: the gaps first, otherwise as they bear on decisions.
pub open spec fn gaps_first(readiness: Readiness) -> Seq<ReadinessRow> {
    order::sorted(readiness.inputs@, gap_order())
}

/// `p` shows the comparison.
pub open spec fn shows_parity(r: ParityReport, p: ParityReportProps) -> bool {
    &&& p.state == parity_shown(r.state)
    &&& p.summary@ == r.summary@
    &&& p.falco_corroborated == r.falco_corroborated
    &&& p.agent_corroborated == r.agent_corroborated
    &&& p.both == r.both
    &&& p.agent_uncovered == r.agent_uncovered
    &&& p.uncovered_entries@ == r.uncovered_entries@
}

fn input_state(s: InputState) -> (r: InputStateProps)
    ensures
        r == state_shown(s),
{
    match s {
        InputState::Present => InputStateProps::Present,
        InputState::Absent => InputStateProps::Absent,
        InputState::Degraded => InputStateProps::Degraded,
        InputState::Blind => InputStateProps::Degraded,
        InputState::Stalled => InputStateProps::Stalled,
    }
}

fn node_state(s: NodeCoverageState) -> (r: NodeCoverageStateProps)
    ensures
        r == node_shown(s),
{
    match s {
        NodeCoverageState::Healthy => NodeCoverageStateProps::Healthy,
        NodeCoverageState::Degraded => NodeCoverageStateProps::Degraded,
        NodeCoverageState::Blind => NodeCoverageStateProps::Blind,
        NodeCoverageState::OutOfScope => NodeCoverageStateProps::OutOfScope,
    }
}

fn parity_state(s: ParityState) -> (r: ParityStateProps)
    ensures
        r == parity_shown(s),
{
    match s {
        ParityState::NothingToCompare => ParityStateProps::NothingToCompare,
        ParityState::Uncovered => ParityStateProps::Uncovered,
        ParityState::Parity => ParityStateProps::Parity,
    }
}

fn row_props(row: &ReadinessRow) -> (r: ReadinessRowProps)
    ensures
        shows_input(*row, r),
{
    let mut nodes: Vec<NodeRowProps> = Vec::new();
    let mut i: usize = 0;
    while i < row.nodes.len()
        invariant
            i <= row.nodes.len(),
            nodes@.len() == i,
            forall|k: int| 0 <= k < i ==> #[trigger] nodes@[k] == node_row(row.nodes@[k]),
        decreases row.nodes.len() - i,
    {
        let n = &row.nodes[i];
        nodes.push(
            NodeRowProps {
                node: n.node.clone(),
                state: node_state(n.state),
                detail: n.detail.clone(),
            },
        );
        i += 1;
    }
    assert(nodes@ =~= row.nodes@.map_values(|n: NodeCoverageRow| node_row(n)));
    ReadinessRowProps {
        id: row.id.clone(),
        label: row.label.clone(),
        state: input_state(row.state),
        why: row.why.clone(),
        enable: row.enable.clone(),
        detail: row.detail.clone(),
        weakens_decisions: row.weakens_decisions,
        nodes,
    }
}

spec fn shown_gap(r: ReadinessRowProps) -> bool {
    r.weakens_decisions && r.state != InputStateProps::Present
}

fn is_attention_gap(r: &ReadinessRowProps) -> (b: bool)
    ensures
        b == shown_gap(*r),
{
    r.weakens_decisions && !r.state.is_present()
}

/// The rows of the Readiness view.
pub fn map_readiness(readiness: &Readiness) -> (r: Vec<ReadinessRowProps>)
    ensures
        r@.len() == gaps_first(*readiness).len(),
        forall|i: int|
            0 <= i < r@.len() ==> shows_input(gaps_first(*readiness)[i], #[trigger] r@[i]),
{
    let v = &readiness.inputs;
    let mut rows: Vec<ReadinessRowProps> = Vec::new();
    let mut i: usize = 0;
    while i < v.len()
        invariant
            i <= v.len(),
            rows@.len() == i,
            forall|k: int| 0 <= k < i ==> shows_input(v@[k], #[trigger] rows@[k]),
        decreases v.len() - i,
    {
        rows.push(row_props(&v[i]));
        i += 1;
    }
    let ghost le = |a: ReadinessRowProps, b: ReadinessRowProps| shown_gap(a) || !shown_gap(b);
    proof {
        order::lemma_sorted_related(
            v@,
            rows@,
            |r: ReadinessRow, p: ReadinessRowProps| shows_input(r, p),
            gap_order(),
            le,
        );
    }
    let at_most = |a: &ReadinessRowProps, b: &ReadinessRowProps| -> (o: bool)
        ensures
            o == (shown_gap(*a) || !shown_gap(*b)),
        { is_attention_gap(a) || !is_attention_gap(b) };
    order::sort_stable(rows, at_most, Ghost(le))
}

fn parity_props(parity: &ParityReport) -> (r: ParityReportProps)
    ensures
        shows_parity(*parity, r),
{
    let uncovered = parity.uncovered_entries.clone();
    assert(uncovered@ =~= parity.uncovered_entries@);
    ParityReportProps {
        state: parity_state(parity.state),
        summary: parity.summary.clone(),
        falco_corroborated: parity.falco_corroborated,
        agent_corroborated: parity.agent_corroborated,
        both: parity.both,
        agent_uncovered: parity.agent_uncovered,
        uncovered_entries: uncovered,
    }
}

/// The Readiness view.
pub fn build(strip: StatusStripProps, readiness: &Readiness) -> (r: ReadinessViewProps)
    ensures
        r.strip == strip,
        r.rows@.len() == gaps_first(*readiness).len(),
        forall|i: int|
            0 <= i < r.rows@.len() ==> shows_input(gaps_first(*readiness)[i], #[trigger] r.rows@[i]),
        shows_parity(readiness.parity, r.parity),
{
    ReadinessViewProps {
        strip,
        rows: map_readiness(readiness),
        parity: parity_props(&readiness.parity),
    }
}

// ---------------------------------------------------------------------------
// Laws
// ---------------------------------------------------------------------------

/// A gap never shows below an input that is none, and every input shows.
pub proof fn gaps_show_first(readiness: Readiness, i: int, j: int)
    requires
        0 <= i <= j < gaps_first(readiness).len(),
    ensures
        is_gap(gaps_first(readiness)[j]) ==> is_gap(gaps_first(readiness)[i]),
        gaps_first(readiness)[j].weakens_decisions && gaps_first(readiness)[j].state
            != InputState::Present ==> gaps_first(readiness)[i].weakens_decisions && gaps_first(
            readiness,
        )[i].state != InputState::Present,
        gaps_first(readiness).len() == readiness.inputs@.len(),
{
    order::sorting_permutes(readiness.inputs@, gap_order());
    order::sorting_orders(readiness.inputs@, gap_order());
    if i < j {
        assert(gap_order()(gaps_first(readiness)[i], gaps_first(readiness)[j]));
    }
}

/// Inputs that are both gaps, or both none, keep their order.
pub proof fn order_is_kept_within(readiness: Readiness, gap: bool)
    ensures
        gaps_first(readiness).filter(|r: ReadinessRow| is_gap(r) == gap) == readiness.inputs@.filter(
            |r: ReadinessRow| is_gap(r) == gap,
        ),
{
    order::sorting_is_stable(
        readiness.inputs@,
        gap_order(),
        |r: ReadinessRow| is_gap(r) == gap,
    );
}

/// What is not present never shows as present.
pub proof fn only_present_shows_present(s: InputState)
    ensures
        state_shown(s) == InputStateProps::Present <==> s == InputState::Present,
        state_shown(s) == InputStateProps::Absent <==> s == InputState::Absent,
{
}

/// Nothing to compare never shows as parity, and a blind node never as healthy.
pub proof fn absence_never_shows_as_health(p: ParityState, n: NodeCoverageState)
    ensures
        parity_shown(p) == ParityStateProps::Parity <==> p == ParityState::Parity,
        node_shown(n) == NodeCoverageStateProps::Healthy <==> n == NodeCoverageState::Healthy,
{
}

} // verus!
