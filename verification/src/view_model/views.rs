//! The views as a whole. Every one carries the strip with the true counts of the findings: a tab
//! that shows no findings must not read as all clear while there is a breach.

use crate::props::access::AccessViewProps;
use crate::props::action::ActionViewProps;
use crate::props::admission::AdmissionViewProps;
use crate::props::alerts::AlertsViewProps;
use crate::props::findings::{DeltaProps, FindingProps, FindingsViewProps, Posture};
use crate::props::readiness::ReadinessViewProps;
use crate::props::status::{StatusStripProps, StripCoverageAlert};
use crate::state::{
    AccessRecord, CoverageState, Finding, Judgement, PolicyDecisionRecord, Readiness,
    ReversionRecord, Tier,
};
use crate::text;
use crate::view_model::access::{self, DisclosureLabels};
use crate::view_model::action;
use crate::view_model::admission;
use crate::view_model::alerts::{self, blind_nodes_of, blind_set};
use crate::view_model::folding::{findings_shown, map_findings};
use crate::view_model::readiness;
use crate::view_model::report_data::Report;
use crate::view_model::signing_records;
use crate::view_model::strip::{is_strip, status_strip};
use vstd::prelude::*;

verus! {

/// How many rows have this posture.
pub open spec fn having(rows: Seq<FindingProps>, p: Posture) -> int {
    rows.filter(|r: FindingProps| r.posture == p).len() as int
}

/// How many rows escalated.
pub open spec fn escalated(rows: Seq<FindingProps>) -> int {
    rows.filter(|r: FindingProps| r.delta is Escalated).len() as int
}

/// The strip counts these rows.
pub open spec fn counts_rows(s: StatusStripProps, rows: Seq<FindingProps>) -> bool {
    &&& s.breach_count == having(rows, Posture::Breach)
    &&& s.awaiting_count == having(rows, Posture::Awaiting)
    &&& s.uncertain_count == having(rows, Posture::Uncertain)
    &&& s.cleared_count == having(rows, Posture::Cleared)
    &&& s.escalated_count == escalated(rows)
}

fn count_posture(rows: &Vec<FindingProps>, p: Posture) -> (r: usize)
    ensures
        r == having(rows@, p),
{
    let ghost f = |r: FindingProps| r.posture == p;
    let mut n: usize = 0;
    let mut i: usize = 0;
    assert(rows@.take(0).filter(f) =~= Seq::empty());
    while i < rows.len()
        invariant
            i <= rows.len(),
            n <= i,
            f == |r: FindingProps| r.posture == p,
            n == rows@.take(i as int).filter(f).len(),
        decreases rows.len() - i,
    {
        broadcast use vstd::seq::Seq::lemma_filter_push;

        assert(rows@.take(i + 1) =~= rows@.take(i as int).push(rows@[i as int]));
        if rows[i].posture == p {
            n += 1;
        }
        i += 1;
    }
    assert(rows@.take(rows@.len() as int) =~= rows@);
    n
}

fn count_escalated(rows: &Vec<FindingProps>) -> (r: usize)
    ensures
        r == escalated(rows@),
{
    let ghost f = |r: FindingProps| r.delta is Escalated;
    let mut n: usize = 0;
    let mut i: usize = 0;
    assert(rows@.take(0).filter(f) =~= Seq::empty());
    while i < rows.len()
        invariant
            i <= rows.len(),
            n <= i,
            f == |r: FindingProps| r.delta is Escalated,
            n == rows@.take(i as int).filter(f).len(),
        decreases rows.len() - i,
    {
        broadcast use vstd::seq::Seq::lemma_filter_push;

        assert(rows@.take(i + 1) =~= rows@.take(i as int).push(rows@[i as int]));
        if matches!(rows[i].delta, DeltaProps::Escalated) {
            n += 1;
        }
        i += 1;
    }
    assert(rows@.take(rows@.len() as int) =~= rows@);
    n
}

/// The strip with the counts of the findings, and the rows that were counted.
fn strip_from_findings(
    cluster: String,
    findings: &[Finding],
    judgements: &[Judgement],
    readiness: &Readiness,
    last_pass: Option<u64>,
) -> (r: (StatusStripProps, Vec<FindingProps>))
    ensures
        is_strip(cluster@, *readiness, last_pass, r.0),
        counts_rows(r.0, r.1@),
        findings_shown(findings@, judgements@, blind_set(*readiness), r.1@),
{
    let blind_nodes = blind_nodes_of(readiness);
    let rows = map_findings(findings, judgements, &blind_nodes);
    let strip = status_strip(
        cluster,
        readiness,
        last_pass,
        count_posture(&rows, Posture::Breach),
        count_posture(&rows, Posture::Awaiting),
        count_posture(&rows, Posture::Uncertain),
        count_posture(&rows, Posture::Cleared),
        count_escalated(&rows),
    );
    (strip, rows)
}

/// The Findings view. `judgements` are the newest first; `last_pass` is how many seconds ago the
/// last pass was.
pub fn build_findings_view(
    cluster: String,
    findings: &[Finding],
    judgements: &[Judgement],
    readiness: &Readiness,
    last_pass: Option<u64>,
) -> (r: FindingsViewProps)
    ensures
        is_strip(cluster@, *readiness, last_pass, r.strip),
        counts_rows(r.strip, r.findings@),
        findings_shown(findings@, judgements@, blind_set(*readiness), r.findings@),
{
    let (strip, findings) = strip_from_findings(cluster, findings, judgements, readiness, last_pass);
    FindingsViewProps { strip, findings }
}

/// The strip of a view that shows no findings: it counts the rows that the Findings view shows.
pub fn build_status_strip(
    cluster: String,
    findings: &[Finding],
    judgements: &[Judgement],
    readiness: &Readiness,
    last_pass: Option<u64>,
) -> (r: StatusStripProps)
    ensures
        is_strip(cluster@, *readiness, last_pass, r),
        exists|rows: Seq<FindingProps>| #[trigger]
            findings_shown(findings@, judgements@, blind_set(*readiness), rows) && counts_rows(
                r,
                rows,
            ),
{
    strip_from_findings(cluster, findings, judgements, readiness, last_pass).0
}

/// The Alerts view.
pub fn build_alerts_view(strip: StatusStripProps, findings: &[Finding], readiness: &Readiness) -> (r:
    AlertsViewProps)
    ensures
        r.strip == strip,
        alerts::shown(r.alerts@) == alerts::alerts_of(findings@),
        text::opt_text(r.blind_caveat) == alerts::caveat_text(blind_set(*readiness)),
{
    alerts::build(strip, findings, readiness)
}

/// The Readiness view.
pub fn build_readiness_view(strip: StatusStripProps, readiness: &Readiness) -> (r:
    ReadinessViewProps)
    ensures
        r.strip == strip,
        r.rows@.len() == readiness::gaps_first(*readiness).len(),
        forall|i: int|
            0 <= i < r.rows@.len() ==> readiness::shows_input(
                readiness::gaps_first(*readiness)[i],
                #[trigger] r.rows@[i],
            ),
        readiness::shows_parity(readiness.parity, r.parity),
{
    readiness::build(strip, readiness)
}

/// The Action view as of `now_ms`, in milliseconds since the Unix epoch.
pub fn build_action_view(
    strip: StatusStripProps,
    report: &Report,
    reversions: &[ReversionRecord],
    judgements: &[Judgement],
    now_ms: u64,
) -> (r: ActionViewProps)
    ensures
        action::is_view(strip, *report, reversions@, judgements@, now_ms, r),
{
    action::build_at(strip, report, reversions, judgements, now_ms)
}

/// The Admission view. The decisions must be countable.
pub fn build_admission_view(strip: StatusStripProps, rows: &[PolicyDecisionRecord]) -> (r:
    AdmissionViewProps)
    requires
        admission::total(admission::decisions(rows@)) <= u64::MAX,
    ensures
        admission::is_view(strip, rows@, r),
{
    admission::build(strip, rows)
}

/// The Access view of a caller of this tier, as of `now_secs` seconds since the Unix epoch.
pub fn build_access_view(
    strip: StatusStripProps,
    caller_tier: Tier,
    records: &[AccessRecord],
    durable: bool,
    labels: &DisclosureLabels,
    now_secs: u64,
) -> (r: AccessViewProps)
    ensures
        access::is_view(strip, caller_tier, records@, durable, *labels, now_secs, r),
{
    access::build(strip, caller_tier, records, durable, labels, now_secs)
}

/// How many repositories stand in a signing regression: with an established baseline, and with a
/// cold one.
pub fn signing_regression_counts(rows: &[PolicyDecisionRecord]) -> (r: (usize, usize))
    ensures
        signing_records::are_counts(rows@, r),
{
    signing_records::counts(rows)
}

/// `r` is the banner of a feed that went dark: what was said of it, as it was said.
pub open spec fn is_stall_of(state: CoverageState, r: Option<StripCoverageAlert>) -> bool {
    &&& r is Some <==> state is Stalled
    &&& state matches CoverageState::Stalled(a) ==> r == Some(
        StripCoverageAlert {
            feed_label: a.feed_label,
            last_observation: a.last_observation,
            message: a.message,
        },
    )
}

/// The banner of a feed that covered and went dark. Any other coverage has none: a feed that was
/// never there did not stall.
pub fn coverage_stall_alert(state: &CoverageState) -> (r: Option<StripCoverageAlert>)
    ensures
        is_stall_of(*state, r),
{
    match state {
        CoverageState::Stalled(alert) => Some(
            StripCoverageAlert {
                feed_label: alert.feed_label.clone(),
                last_observation: alert.last_observation.clone(),
                message: alert.message.clone(),
            },
        ),
        CoverageState::Covered | CoverageState::Degraded | CoverageState::Absent => None,
    }
}

} // verus!
