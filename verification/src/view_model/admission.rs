//! The Admission view: the webhook's decisions and how many there were of each kind, and the
//! signing inventory. What was only observed never counts as a decision.

use crate::props::admission::{
    AdmissionDecision, AdmissionViewProps, DecisionRowProps, GateStatus,
};
use crate::props::status::StatusStripProps;
use crate::state::PolicyDecisionRecord;
use crate::view_model::signing_inventory::{self, shows_inventory};
use crate::view_model::signing_records::{is_inventory, is_inventory_row};
use vstd::prelude::*;

verus! {

/// The decision as it shows.
pub open spec fn decision_shown(r: PolicyDecisionRecord) -> DecisionRowProps {
    DecisionRowProps {
        decision: AdmissionDecision::parse_of(r.decision@),
        subject: r.subject,
        image: r.image,
        namespace: r.namespace,
        mesh: GateStatus::parse_of(r.mesh@),
        would_admit: r.would_admit,
        reason: r.reason,
        count: r.count,
    }
}

/// The webhook's decisions: the rows that are not of the inventory.
pub open spec fn decisions(rows: Seq<PolicyDecisionRecord>) -> Seq<PolicyDecisionRecord> {
    rows.filter(|r: PolicyDecisionRecord| !is_inventory(r))
}

/// How often a decision of this kind was made.
pub open spec fn tally(rows: Seq<PolicyDecisionRecord>, d: AdmissionDecision) -> int
    decreases rows.len(),
{
    if rows.len() == 0 {
        0
    } else {
        tally(rows.drop_last(), d) + (if AdmissionDecision::parse_of(rows.last().decision@) == d {
            rows.last().count as int
        } else {
            0
        })
    }
}

/// How often any decision was made.
pub open spec fn total(rows: Seq<PolicyDecisionRecord>) -> int {
    tally(rows, AdmissionDecision::Allow) + tally(rows, AdmissionDecision::Audit) + tally(
        rows,
        AdmissionDecision::Deny,
    )
}

proof fn lemma_tally(rows: Seq<PolicyDecisionRecord>, d: AdmissionDecision, n: int)
    requires
        0 <= n <= rows.len(),
    ensures
        0 <= tally(rows.take(n), d) <= tally(rows, d),
    decreases rows.len() - n, n,
{
    if n < rows.len() {
        lemma_tally(rows, d, n + 1);
        assert(rows.take(n + 1).drop_last() =~= rows.take(n));
        lemma_tally_nonneg(rows.take(n), d);
    } else {
        assert(rows.take(n) =~= rows);
        lemma_tally_nonneg(rows, d);
    }
}

proof fn lemma_tally_nonneg(rows: Seq<PolicyDecisionRecord>, d: AdmissionDecision)
    ensures
        0 <= tally(rows, d),
    decreases rows.len(),
{
    if rows.len() > 0 {
        lemma_tally_nonneg(rows.drop_last(), d);
    }
}

fn decision_row(r: &PolicyDecisionRecord) -> (p: DecisionRowProps)
    ensures
        p == decision_shown(*r),
{
    DecisionRowProps {
        decision: AdmissionDecision::parse(r.decision.as_str()),
        subject: r.subject.clone(),
        image: r.image.clone(),
        namespace: r.namespace.clone(),
        mesh: GateStatus::parse(r.mesh.as_str()),
        would_admit: r.would_admit,
        reason: r.reason.clone(),
        count: r.count,
    }
}

/// `v` is the Admission view of these rows.
pub open spec fn is_view(
    strip: StatusStripProps,
    rows: Seq<PolicyDecisionRecord>,
    v: AdmissionViewProps,
) -> bool {
    &&& v.strip == strip
    &&& v.admitted == tally(decisions(rows), AdmissionDecision::Allow)
    &&& v.audited == tally(decisions(rows), AdmissionDecision::Audit)
    &&& v.denied == tally(decisions(rows), AdmissionDecision::Deny)
    &&& v.total == total(decisions(rows))
    &&& shows_inventory(rows, v.signing@)
    &&& v.rows@ == decisions(rows).map_values(|d: PolicyDecisionRecord| decision_shown(d))
}

/// The Admission view. The decisions must be countable.
pub fn build(strip: StatusStripProps, rows: &[PolicyDecisionRecord]) -> (r: AdmissionViewProps)
    requires
        total(decisions(rows@)) <= u64::MAX,
    ensures
        is_view(strip, rows@, r),
{
    let ghost p = |r: PolicyDecisionRecord| !is_inventory(r);
    let ghost f = |d: PolicyDecisionRecord| decision_shown(d);
    let ghost all = decisions(rows@);
    let signing = signing_inventory::build(rows);
    let mut admitted: u64 = 0;
    let mut audited: u64 = 0;
    let mut denied: u64 = 0;
    let mut shown: Vec<DecisionRowProps> = Vec::new();
    let mut i: usize = 0;
    assert(rows@.take(0).filter(p) =~= Seq::empty());
    assert(shown@ =~= rows@.take(0).filter(p).map_values(f));
    proof {
        lemma_tally_nonneg(all, AdmissionDecision::Allow);
        lemma_tally_nonneg(all, AdmissionDecision::Audit);
        lemma_tally_nonneg(all, AdmissionDecision::Deny);
    }
    while i < rows.len()
        invariant
            i <= rows@.len(),
            p == |r: PolicyDecisionRecord| !is_inventory(r),
            f == |d: PolicyDecisionRecord| decision_shown(d),
            all == decisions(rows@),
            total(all) <= u64::MAX,
            0 <= tally(all, AdmissionDecision::Allow),
            0 <= tally(all, AdmissionDecision::Audit),
            0 <= tally(all, AdmissionDecision::Deny),
            admitted == tally(rows@.take(i as int).filter(p), AdmissionDecision::Allow),
            audited == tally(rows@.take(i as int).filter(p), AdmissionDecision::Audit),
            denied == tally(rows@.take(i as int).filter(p), AdmissionDecision::Deny),
            shown@ == rows@.take(i as int).filter(p).map_values(f),
        decreases rows@.len() - i,
    {
        broadcast use vstd::seq::Seq::lemma_filter_push;

        let r = &rows[i];
        let ghost so_far = rows@.take(i as int).filter(p);
        assert(rows@.take(i + 1) =~= rows@.take(i as int).push(*r));
        if !is_inventory_row(r) {
            let ghost next = so_far.push(*r);
            proof {
                assert(rows@.take(i + 1).filter(p) == next);
                assert(next.drop_last() =~= so_far);
                lemma_filter_prefix(rows@, p, i + 1);
                let m = next.len() as int;
                assert(all.take(m) =~= next);
                lemma_tally(all, AdmissionDecision::Allow, m);
                lemma_tally(all, AdmissionDecision::Audit, m);
                lemma_tally(all, AdmissionDecision::Deny, m);
                assert(next.map_values(f) =~= so_far.map_values(f).push(f(*r)));
            }
            let row = decision_row(r);
            match row.decision {
                AdmissionDecision::Allow => {
                    admitted += r.count;
                },
                AdmissionDecision::Audit => {
                    audited += r.count;
                },
                AdmissionDecision::Deny => {
                    denied += r.count;
                },
                AdmissionDecision::Other => {},
            }
            shown.push(row);
        }
        i += 1;
    }
    assert(rows@.take(rows@.len() as int) =~= rows@);
    AdmissionViewProps {
        strip,
        admitted,
        audited,
        denied,
        total: admitted + audited + denied,
        signing,
        rows: shown,
    }
}

/// What a filter keeps of a prefix is a prefix of what it keeps.
proof fn lemma_filter_prefix(
    rows: Seq<PolicyDecisionRecord>,
    p: spec_fn(PolicyDecisionRecord) -> bool,
    n: int,
)
    requires
        0 <= n <= rows.len(),
    ensures
        rows.take(n).filter(p).is_prefix_of(rows.filter(p)),
{
    Seq::filter_distributes_over_add(rows.take(n), rows.skip(n), p);
    assert(rows =~= rows.take(n) + rows.skip(n));
    let a = rows.take(n).filter(p);
    let b = rows.filter(p);
    assert(b == a + rows.skip(n).filter(p));
    assert(b.subrange(0, a.len() as int) =~= a);
}

// ---------------------------------------------------------------------------
// Laws
// ---------------------------------------------------------------------------

/// Every row is a decision or of the inventory, and never both: observing an image decides nothing.
pub proof fn observation_is_no_decision(rows: Seq<PolicyDecisionRecord>, i: int)
    requires
        0 <= i < decisions(rows).len(),
    ensures
        !is_inventory(decisions(rows)[i]),
{
    rows.lemma_filter_pred(|r: PolicyDecisionRecord| !is_inventory(r), i);
}

/// Rows of the inventory leave the tallies and the decisions as they are.
pub proof fn observations_never_count(rows: Seq<PolicyDecisionRecord>, r: PolicyDecisionRecord)
    requires
        is_inventory(r),
    ensures
        decisions(rows.push(r)) == decisions(rows),
        total(decisions(rows.push(r))) == total(decisions(rows)),
{
    broadcast use vstd::seq::Seq::lemma_filter_push;

}

} // verus!
