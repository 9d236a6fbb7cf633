//! What holds of the views as a whole.

use crate::props::findings::{FindingProps, Posture};
use crate::props::status::StatusStripProps;
use crate::state::{Finding, Judgement};
use crate::view_model::folding::findings_shown;
use crate::view_model::rows_laws::{lemma_filter_same, rows_are_determined};
use crate::view_model::views::counts_rows;
use vstd::prelude::*;

verus! {

/// Every tab counts alike: strips of the same findings carry the same counts, whichever view they
/// stand on.
pub proof fn every_tab_counts_alike(
    findings: Seq<Finding>,
    judgements: Seq<Judgement>,
    blind: Set<Seq<char>>,
    a: Seq<FindingProps>,
    b: Seq<FindingProps>,
    s: StatusStripProps,
    t: StatusStripProps,
)
    requires
        findings_shown(findings, judgements, blind, a),
        findings_shown(findings, judgements, blind, b),
        counts_rows(s, a),
        counts_rows(t, b),
    ensures
        s.breach_count == t.breach_count,
        s.awaiting_count == t.awaiting_count,
        s.uncertain_count == t.uncertain_count,
        s.cleared_count == t.cleared_count,
        s.escalated_count == t.escalated_count,
{
    rows_are_determined(findings, judgements, blind, a, b);
    lemma_filter_same(a, b, |r: FindingProps| r.posture == Posture::Breach);
    lemma_filter_same(a, b, |r: FindingProps| r.posture == Posture::Awaiting);
    lemma_filter_same(a, b, |r: FindingProps| r.posture == Posture::Uncertain);
    lemma_filter_same(a, b, |r: FindingProps| r.posture == Posture::Cleared);
    lemma_filter_same(a, b, |r: FindingProps| r.delta is Escalated);
}

/// No strip reads all clear while a row of the findings is a breach, awaits judgement or is
/// uncertain: what shows is then cleared, all of it.
pub proof fn clear_strip_means_cleared_rows(
    rows: Seq<FindingProps>,
    s: StatusStripProps,
    i: int,
)
    requires
        counts_rows(s, rows),
        s.clear(),
        0 <= i < rows.len(),
    ensures
        rows[i].posture == Posture::Cleared,
{
    let p = rows[i].posture;
    let f = |r: FindingProps| r.posture == p;
    assert(f(rows[i]));
    rows.lemma_filter_contains(f, i);
}

} // verus!
