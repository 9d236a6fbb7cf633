//! The Trust view: what the engine would have done against what it left alone.

use crate::props::action::TrustViewProps;
use crate::props::status::StatusStripProps;
use crate::view_model::action::{acts_shown, left_alone_props, left_shown, would_act_props};
use crate::view_model::posture::{age_text, human_age};
use crate::view_model::report_data::{LeftAloneEntry, Report, WouldActEntry};
use vstd::prelude::*;

verus! {

/// `v` is the Trust view of the report.
pub open spec fn is_view(strip: StatusStripProps, report: Report, v: TrustViewProps) -> bool {
    &&& v.strip == strip
    &&& v.window_human@ == age_text(report.window_secs as nat)
    &&& v.journal_empty == report.journal_empty
    &&& v.decisions_in_window == report.decisions_in_window
    &&& acts_shown(report, v.would_act@)
    &&& v.left_alone@ == report.left_alone@.map_values(|l: LeftAloneEntry| left_shown(l))
    &&& v.would_act_count == report.would_act@.len()
    &&& v.short_lived_count == report.would_act@.filter(|w: WouldActEntry| w.short_lived).len()
    &&& v.coverage_gap_count == report.would_act@.filter(|w: WouldActEntry| w.coverage_gap).len()
    &&& v.left_alone_count == report.left_alone@.len()
}

/// The Trust view.
pub fn build(strip: StatusStripProps, report: &Report) -> (r: TrustViewProps)
    ensures
        is_view(strip, *report, r),
{
    TrustViewProps {
        strip,
        window_human: human_age(report.window_secs),
        journal_empty: report.journal_empty,
        decisions_in_window: report.decisions_in_window,
        would_act: would_act_props(report),
        left_alone: left_alone_props(report),
        would_act_count: report.would_act_count(),
        short_lived_count: report.short_lived_count(),
        coverage_gap_count: report.coverage_gap_count(),
        left_alone_count: report.left_alone_count(),
    }
}

} // verus!
