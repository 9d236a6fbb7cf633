//! That the rows of the Findings view are determined by what they show.

use crate::order;
use crate::props::findings::{DeltaProps, EvidenceProps, FindingProps, HopProps};
use crate::state::{Finding, Judgement};
use crate::text;
use crate::view_model::alerts::shown;
use crate::view_model::findings::{paths_of, shows_finding};
use crate::view_model::folding::{
    fanned, findings_shown, is_better, is_folded, is_replica, is_representative, keeps_row, kept,
    pods_of, replicas_folded, row_le, rows_of, rows_shown, workload_at,
};
use crate::view_model::folding_laws::irrelevant_findings_change_nothing;
use vstd::prelude::*;

verus! {

/// The changes read the same.
pub open spec fn same_delta(a: DeltaProps, b: DeltaProps) -> bool {
    match (a, b) {
        (DeltaProps::New, DeltaProps::New) => true,
        (DeltaProps::Escalated, DeltaProps::Escalated) => true,
        (DeltaProps::DeEscalated, DeltaProps::DeEscalated) => true,
        (DeltaProps::Restored, DeltaProps::Restored) => true,
        (DeltaProps::Unchanged { age: x }, DeltaProps::Unchanged { age: y }) => text::opt_text(x)
            == text::opt_text(y),
        _ => false,
    }
}

/// The hops read the same.
pub open spec fn same_hop(a: HopProps, b: HopProps) -> bool {
    &&& a.from@ == b.from@
    &&& a.from_glyph@ == b.from_glyph@
    &&& a.relation@ == b.relation@
    &&& a.to@ == b.to@
    &&& a.to_glyph@ == b.to_glyph@
    &&& a.structural == b.structural
    &&& a.is_cut == b.is_cut
    &&& a.shared == b.shared
}

/// The paths read the same, hop by hop.
pub open spec fn same_path(a: Seq<HopProps>, b: Seq<HopProps>) -> bool {
    &&& a.len() == b.len()
    &&& forall|i: int| 0 <= i < a.len() ==> same_hop(#[trigger] a[i], b[i])
}

/// The lists of paths read the same, path by path.
pub open spec fn same_paths(a: Seq<Vec<HopProps>>, b: Seq<Vec<HopProps>>) -> bool {
    &&& a.len() == b.len()
    &&& forall|i: int| 0 <= i < a.len() ==> same_path((#[trigger] a[i])@, b[i]@)
}

/// The evidence is the same.
pub open spec fn same_evidence(a: EvidenceProps, b: EvidenceProps) -> bool {
    &&& a.cves@ == b.cves@
    &&& a.corroborating@ == b.corroborating@
    &&& a.context@ == b.context@
    &&& a.exposed_secrets@ == b.exposed_secrets@
    &&& a.misconfigs@ == b.misconfigs@
    &&& a.rbac_findings@ == b.rbac_findings@
}

/// The rows read the same in every field.
pub open spec fn same_row(a: FindingProps, b: FindingProps) -> bool {
    &&& a.id@ == b.id@
    &&& a.posture == b.posture
    &&& a.live_tag == b.live_tag
    &&& same_delta(a.delta, b.delta)
    &&& a.entry_glyph@ == b.entry_glyph@
    &&& a.entry@ == b.entry@
    &&& a.foothold == b.foothold
    &&& a.objective@ == b.objective@
    &&& a.fanout == b.fanout
    &&& a.replicas == b.replicas
    &&& a.evidence_summary == b.evidence_summary
    &&& a.disposition@ == b.disposition@
    &&& text::opt_text(a.verdict_summary) == text::opt_text(b.verdict_summary)
    &&& same_path(a.path@, b.path@)
    &&& same_paths(a.paths@, b.paths@)
    &&& a.paths_truncated == b.paths_truncated
    &&& a.cut == b.cut
    &&& same_evidence(a.evidence, b.evidence)
    &&& a.judgement == b.judgement
    &&& text::opt_text(a.blind_node_caveat) == text::opt_text(b.blind_node_caveat)
    &&& shown(a.alerts@) == shown(b.alerts@)
}

/// The lists of rows read the same, row by row.
pub open spec fn same_rows(a: Seq<FindingProps>, b: Seq<FindingProps>) -> bool {
    &&& a.len() == b.len()
    &&& forall|i: int| 0 <= i < a.len() ==> same_row(#[trigger] a[i], b[i])
}

/// One finding shows in one way.
proof fn lemma_shown_row(
    f: Finding,
    judgements: Seq<Judgement>,
    blind: Set<Seq<char>>,
    a: FindingProps,
    b: FindingProps,
)
    requires
        shows_finding(f, judgements, blind, a),
        shows_finding(f, judgements, blind, b),
    ensures
        same_row(a, b),
{
    let all = paths_of(f.paths@, f.path@);
    assert forall|i: int| 0 <= i < a.path@.len() implies same_hop(
        #[trigger] a.path@[i],
        b.path@[i],
    ) by {}
    assert forall|p: int| 0 <= p < a.paths@.len() implies same_path(
        (#[trigger] a.paths@[p])@,
        b.paths@[p]@,
    ) by {
        assert(a.paths@[p]@.len() == all[p].len());
        assert(b.paths@[p]@.len() == all[p].len());
        assert forall|i: int| 0 <= i < a.paths@[p]@.len() implies same_hop(
            #[trigger] a.paths@[p]@[i],
            b.paths@[p]@[i],
        ) by {}
    }
}

proof fn lemma_rows_of_same(
    a: Seq<FindingProps>,
    b: Seq<FindingProps>,
    entry: Seq<char>,
    n: int,
)
    requires
        same_rows(a, b),
        n <= a.len(),
    ensures
        rows_of(a, entry, n) == rows_of(b, entry, n),
    decreases n,
{
    if n > 0 {
        lemma_rows_of_same(a, b, entry, n - 1);
        assert(same_row(a[n - 1], b[n - 1]));
    }
}

proof fn lemma_pods_same(
    a: Seq<FindingProps>,
    b: Seq<FindingProps>,
    w: (Seq<char>, Seq<char>),
    n: int,
)
    requires
        same_rows(a, b),
        n <= a.len(),
    ensures
        pods_of(a, w, n) == pods_of(b, w, n),
    decreases n,
{
    if n > 0 {
        lemma_pods_same(a, b, w, n - 1);
        assert(same_row(a[n - 1], b[n - 1]));
        lemma_rows_of_same(a, b, a[n - 1].entry@, n - 1);
    }
}

proof fn lemma_keeps_same(a: Seq<FindingProps>, b: Seq<FindingProps>, i: int)
    requires
        same_rows(a, b),
        0 <= i < a.len(),
    ensures
        workload_at(a, i) == workload_at(b, i),
        is_replica(a, i) == is_replica(b, i),
        keeps_row(a, i) == keeps_row(b, i),
{
    assert forall|j: int| 0 <= j < a.len() implies #[trigger] workload_at(a, j) == workload_at(b, j)
        && same_row(a[j], b[j]) by {
        assert(same_row(a[j], b[j]));
    }
    match workload_at(a, i) {
        Some(w) => lemma_pods_same(a, b, w, a.len() as int),
        None => {},
    }
    if is_representative(a, i) {
        assert forall|j: int|
            0 <= j < b.len() && #[trigger] workload_at(b, j) == workload_at(b, i) implies {
            &&& j < i ==> is_better(b[i], b[j])
            &&& j > i ==> !is_better(b[j], b[i])
        } by {
            assert(workload_at(a, j) == workload_at(b, j));
        }
    }
    if is_representative(b, i) {
        assert forall|j: int|
            0 <= j < a.len() && #[trigger] workload_at(a, j) == workload_at(a, i) implies {
            &&& j < i ==> is_better(a[i], a[j])
            &&& j > i ==> !is_better(a[j], a[i])
        } by {
            assert(workload_at(a, j) == workload_at(b, j));
        }
    }
}

proof fn lemma_kept_same(a: Seq<FindingProps>, b: Seq<FindingProps>, n: int)
    requires
        same_rows(a, b),
        0 <= n <= a.len(),
    ensures
        kept(a, n) == kept(b, n),
        forall|k: int| 0 <= k < kept(a, n).len() ==> 0 <= #[trigger] kept(a, n)[k] < n,
    decreases n,
{
    if n > 0 {
        lemma_kept_same(a, b, n - 1);
        lemma_keeps_same(a, b, n - 1);
    }
}

proof fn lemma_folded_same(
    a: Seq<FindingProps>,
    b: Seq<FindingProps>,
    fa: Seq<FindingProps>,
    fb: Seq<FindingProps>,
)
    requires
        same_rows(a, b),
        replicas_folded(a, fa),
        replicas_folded(b, fb),
    ensures
        same_rows(fa, fb),
{
    let n = a.len() as int;
    lemma_kept_same(a, b, n);
    assert forall|k: int| 0 <= k < fa.len() implies same_row(#[trigger] fa[k], fb[k]) by {
        let i = kept(a, n)[k];
        lemma_keeps_same(a, b, i);
        assert(is_folded(a, i, fa[k]));
        assert(is_folded(b, i, fb[k]));
        assert(same_row(a[i], b[i]));
        match workload_at(a, i) {
            Some(w) => {
                lemma_pods_same(a, b, w, n);
            },
            None => {},
        }
    }
}

proof fn lemma_fanned_same(a: Seq<FindingProps>, b: Seq<FindingProps>, n: int)
    requires
        same_rows(a, b),
        0 <= n <= a.len(),
    ensures
        same_rows(fanned(a, n), fanned(b, n)),
    decreases n,
{
    if n > 0 {
        lemma_fanned_same(a, b, n - 1);
        assert(same_row(a[n - 1], b[n - 1]));
        lemma_rows_of_same(a, b, a[n - 1].entry@, a.len() as int);
        lemma_rows_of_same(a, b, a[n - 1].entry@, n - 1);
        let (x, y) = (fanned(a, n), fanned(b, n));
        assert forall|i: int| 0 <= i < x.len() implies same_row(#[trigger] x[i], y[i]) by {
            if i < fanned(a, n - 1).len() {
                assert(same_row(fanned(a, n - 1)[i], fanned(b, n - 1)[i]));
            }
        }
    }
}

/// The rows of the Findings view are determined: two lists that show the same findings, judgements
/// and blind nodes read the same, row by row and field by field.
pub proof fn rows_are_determined(
    findings: Seq<Finding>,
    judgements: Seq<Judgement>,
    blind: Set<Seq<char>>,
    a: Seq<FindingProps>,
    b: Seq<FindingProps>,
)
    requires
        findings_shown(findings, judgements, blind, a),
        findings_shown(findings, judgements, blind, b),
    ensures
        same_rows(a, b),
{
    let le = |x: FindingProps, y: FindingProps| row_le(x, y);
    let (ra, fa) = choose|rows: Seq<FindingProps>, folded: Seq<FindingProps>|
        {
            &&& #[trigger] rows_shown(findings, judgements, blind, rows)
            &&& #[trigger] replicas_folded(rows, folded)
            &&& a == order::sorted(
                fanned(folded, folded.len() as int),
                |a: FindingProps, b: FindingProps| row_le(a, b),
            )
        };
    let (rb, fb) = choose|rows: Seq<FindingProps>, folded: Seq<FindingProps>|
        {
            &&& #[trigger] rows_shown(findings, judgements, blind, rows)
            &&& #[trigger] replicas_folded(rows, folded)
            &&& b == order::sorted(
                fanned(folded, folded.len() as int),
                |a: FindingProps, b: FindingProps| row_le(a, b),
            )
        };
    let relevant = findings.filter(|f: Finding| f.breach_relevant);
    assert forall|i: int| 0 <= i < ra.len() implies same_row(#[trigger] ra[i], rb[i]) by {
        lemma_shown_row(relevant[i], judgements, blind, ra[i], rb[i]);
    }
    lemma_folded_same(ra, rb, fa, fb);
    lemma_fanned_same(fa, fb, fa.len() as int);
    order::lemma_sorted_related(
        fanned(fa, fa.len() as int),
        fanned(fb, fb.len() as int),
        |x: FindingProps, y: FindingProps| same_row(x, y),
        le,
        le,
    );
}

/// As many rows of either list are of a kind, where the kind can be told from what rows read.
pub proof fn lemma_filter_same(
    a: Seq<FindingProps>,
    b: Seq<FindingProps>,
    p: spec_fn(FindingProps) -> bool,
)
    requires
        same_rows(a, b),
        forall|x: FindingProps, y: FindingProps| #[trigger] same_row(x, y) ==> p(x) == p(y),
    ensures
        a.filter(p).len() == b.filter(p).len(),
    decreases a.len(),
{
    broadcast use vstd::seq::Seq::lemma_filter_push;

    if a.len() == 0 {
        assert(a =~= b);
    } else {
        let (x, y) = (a.drop_last(), b.drop_last());
        assert(same_row(a.last(), b.last()));
        assert forall|i: int| 0 <= i < x.len() implies same_row(#[trigger] x[i], y[i]) by {
            assert(same_row(a[i], b[i]));
        }
        lemma_filter_same(x, y, p);
        assert(a =~= x.push(a.last()));
        assert(b =~= y.push(b.last()));
    }
}

/// Findings that are not breach-relevant change no row: the rows of all findings and the rows of the
/// breach-relevant ones read the same.
pub proof fn irrelevant_findings_change_no_row(
    findings: Seq<Finding>,
    judgements: Seq<Judgement>,
    blind: Set<Seq<char>>,
    a: Seq<FindingProps>,
    b: Seq<FindingProps>,
)
    requires
        findings_shown(findings, judgements, blind, a),
        findings_shown(findings.filter(|f: Finding| f.breach_relevant), judgements, blind, b),
    ensures
        same_rows(a, b),
{
    irrelevant_findings_change_nothing(findings, judgements, blind, b);
    rows_are_determined(findings, judgements, blind, a, b);
}

} // verus!
