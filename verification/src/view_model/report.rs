//! The report of what the engine would have done, as tables.

use crate::graph::{short_text, NodeKey};
use crate::view_model::posture::age_text;
use crate::view_model::report_data::{human_span, LeftAloneEntry, Report, WouldActEntry};
use vstd::prelude::*;
use vstd::string::*;

verus! {

/// What the report shows.
#[derive(Debug, Clone, PartialEq, Eq)]
pub enum ReportBody {
    /// The journal holds no decision at all.
    Empty { window: String },
    /// The journal holds decisions, and none in the window that is to be reported.
    OutOfWindow { window: String },
    Diff(ReportDiff),
}

/// What would have been done, and what was left alone.
#[derive(Debug, Clone, PartialEq, Eq)]
pub struct ReportDiff {
    pub window: String,
    pub would_act_count: usize,
    pub left_alone_count: usize,
    pub short_lived_count: usize,
    pub coverage_gap_count: usize,
    pub would_act: Vec<WouldActRow>,
    pub left_alone: Vec<LeftAloneRow>,
}

/// How a lifetime reads.
#[derive(Debug, Clone, Copy, PartialEq, Eq, Structural)]
pub enum Lifetime {
    /// Still standing.
    Open,
    /// Probably a false positive.
    ShortLived,
    Sustained,
}

/// A workload that would have been isolated.
#[derive(Debug, Clone, PartialEq, Eq)]
pub struct WouldActRow {
    pub entry: String,
    pub would_act_decisions: usize,
    pub lifetime: String,
    pub lifetime_kind: Lifetime,
    pub coverage_gap: bool,
    pub last_verdict: String,
}

/// A path that was cleared.
#[derive(Debug, Clone, PartialEq, Eq)]
pub struct LeftAloneRow {
    pub entry: String,
    pub verdict: String,
}

/// The report.
#[derive(Debug, Clone, PartialEq, Eq)]
pub struct ReportProps {
    pub body: ReportBody,
}

/// How a lifetime reads.
pub open spec fn lifetime_of(w: WouldActEntry) -> Lifetime {
    if w.open {
        Lifetime::Open
    } else if w.short_lived {
        Lifetime::ShortLived
    } else {
        Lifetime::Sustained
    }
}

/// `r` shows the workload.
pub open spec fn shows_act(w: WouldActEntry, r: WouldActRow) -> bool {
    &&& r.entry@ == short_text(w.entry@)
    &&& r.would_act_decisions == w.would_act_decisions
    &&& r.lifetime@ == age_text(w.max_lifetime_secs as nat)
    &&& r.lifetime_kind == lifetime_of(w)
    &&& r.coverage_gap == w.coverage_gap
    &&& r.last_verdict@ == w.last_verdict@
}

/// `r` shows the path.
pub open spec fn shows_left(l: LeftAloneEntry, r: LeftAloneRow) -> bool {
    &&& r.entry@ == short_text(l.entry@)
    &&& r.verdict@ == l.verdict@
}

/// `d` shows the report.
pub open spec fn shows_diff(report: Report, d: ReportDiff) -> bool {
    &&& d.window@ == age_text(report.window_secs as nat)
    &&& d.would_act_count == report.would_act@.len()
    &&& d.left_alone_count == report.left_alone@.len()
    &&& d.short_lived_count == report.would_act@.filter(|w: WouldActEntry| w.short_lived).len()
    &&& d.coverage_gap_count == report.would_act@.filter(|w: WouldActEntry| w.coverage_gap).len()
    &&& d.would_act@.len() == report.would_act@.len()
    &&& forall|i: int|
        0 <= i < d.would_act@.len() ==> shows_act(report.would_act@[i], #[trigger] d.would_act@[i])
    &&& d.left_alone@.len() == report.left_alone@.len()
    &&& forall|i: int|
        0 <= i < d.left_alone@.len() ==> shows_left(
            report.left_alone@[i],
            #[trigger] d.left_alone@[i],
        )
}

/// `b` is what the report shows: an empty journal is not the same as an empty window.
pub open spec fn is_body(report: Report, b: ReportBody) -> bool {
    let window = age_text(report.window_secs as nat);
    if report.journal_empty {
        b matches ReportBody::Empty { window: w } && w@ == window
    } else if report.would_act@.len() == 0 && report.left_alone@.len() == 0 {
        b matches ReportBody::OutOfWindow { window: w } && w@ == window
    } else {
        b matches ReportBody::Diff(d) && shows_diff(report, d)
    }
}

fn act_rows(v: &Vec<WouldActEntry>) -> (r: Vec<WouldActRow>)
    ensures
        r@.len() == v@.len(),
        forall|i: int| 0 <= i < r@.len() ==> shows_act(v@[i], #[trigger] r@[i]),
{
    let mut r: Vec<WouldActRow> = Vec::new();
    let mut i: usize = 0;
    while i < v.len()
        invariant
            i <= v.len(),
            r@.len() == i,
            forall|k: int| 0 <= k < i ==> shows_act(v@[k], #[trigger] r@[k]),
        decreases v.len() - i,
    {
        let w = &v[i];
        let lifetime_kind = if w.open {
            Lifetime::Open
        } else if w.short_lived {
            Lifetime::ShortLived
        } else {
            Lifetime::Sustained
        };
        r.push(
            WouldActRow {
                entry: NodeKey::short_of(w.entry.as_str()).to_string(),
                would_act_decisions: w.would_act_decisions,
                lifetime: human_span(w.max_lifetime_secs),
                lifetime_kind,
                coverage_gap: w.coverage_gap,
                last_verdict: w.last_verdict.clone(),
            },
        );
        i += 1;
    }
    r
}

fn left_rows(v: &Vec<LeftAloneEntry>) -> (r: Vec<LeftAloneRow>)
    ensures
        r@.len() == v@.len(),
        forall|i: int| 0 <= i < r@.len() ==> shows_left(v@[i], #[trigger] r@[i]),
{
    let mut r: Vec<LeftAloneRow> = Vec::new();
    let mut i: usize = 0;
    while i < v.len()
        invariant
            i <= v.len(),
            r@.len() == i,
            forall|k: int| 0 <= k < i ==> shows_left(v@[k], #[trigger] r@[k]),
        decreases v.len() - i,
    {
        let l = &v[i];
        r.push(
            LeftAloneRow {
                entry: NodeKey::short_of(l.entry.as_str()).to_string(),
                verdict: l.verdict.clone(),
            },
        );
        i += 1;
    }
    r
}

/// The report as tables, or why there are none.
pub fn report_props(report: &Report) -> (r: ReportProps)
    ensures
        is_body(*report, r.body),
{
    let window = human_span(report.window_secs);
    if report.journal_empty {
        return ReportProps { body: ReportBody::Empty { window } };
    }
    if report.would_act.len() == 0 && report.left_alone.len() == 0 {
        return ReportProps { body: ReportBody::OutOfWindow { window } };
    }
    ReportProps {
        body: ReportBody::Diff(
            ReportDiff {
                window,
                would_act_count: report.would_act_count(),
                left_alone_count: report.left_alone_count(),
                short_lived_count: report.short_lived_count(),
                coverage_gap_count: report.coverage_gap_count(),
                would_act: act_rows(&report.would_act),
                left_alone: left_rows(&report.left_alone),
            },
        ),
    }
}

} // verus!
