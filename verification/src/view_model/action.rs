//! The Action view: what the engine would have done, what it undid, what it left alone, and what
//! the model said.

use crate::props::action::{
    ActionViewProps, JudgementEntryProps, LeftAloneProps, ReversionProps, WouldActProps,
};
use crate::props::status::StatusStripProps;
use crate::state::{Judgement, ReversionRecord};
use crate::view_model::posture::{age_text, human_age, seconds_between, seconds_since};
use crate::view_model::report_data::{LeftAloneEntry, Report, WouldActEntry};
use vstd::prelude::*;

verus! {

/// `p` shows the workload.
pub open spec fn shows_act(w: WouldActEntry, p: WouldActProps) -> bool {
    &&& p.entry == w.entry
    &&& p.episodes == w.episodes
    &&& p.would_act_decisions == w.would_act_decisions
    &&& p.max_lifetime@ == age_text(w.max_lifetime_secs as nat)
    &&& p.open == w.open
    &&& p.short_lived == w.short_lived
    &&& p.coverage_gap == w.coverage_gap
    &&& p.last_verdict == w.last_verdict
}

/// The path as it shows.
pub open spec fn left_shown(l: LeftAloneEntry) -> LeftAloneProps {
    LeftAloneProps { entry: l.entry, verdict: l.verdict }
}

/// `p` shows the lifted cut as of `now_ms`.
pub open spec fn shows_reversion(r: ReversionRecord, now_ms: u64, p: ReversionProps) -> bool {
    &&& p.cut == r.cut
    &&& p.reason == r.reason
    &&& p.age@ == age_text(seconds_between(r.at_ms, now_ms) as nat)
}

/// The judgement as it shows: what is missing stays missing.
pub open spec fn judgement_shown(j: Judgement) -> JudgementEntryProps {
    JudgementEntryProps {
        entry: j.entry,
        objectives: j.objectives,
        verdict: Some(j.verdict),
        prompt: j.prompt,
        reply: j.reply,
    }
}

/// `v` shows what would have been done.
pub open spec fn acts_shown(report: Report, v: Seq<WouldActProps>) -> bool {
    &&& v.len() == report.would_act@.len()
    &&& forall|i: int| 0 <= i < v.len() ==> shows_act(report.would_act@[i], #[trigger] v[i])
}

/// `v` shows the lifted cuts.
pub open spec fn reversions_shown(
    rs: Seq<ReversionRecord>,
    now_ms: u64,
    v: Seq<ReversionProps>,
) -> bool {
    &&& v.len() == rs.len()
    &&& forall|i: int| 0 <= i < v.len() ==> shows_reversion(rs[i], now_ms, #[trigger] v[i])
}

/// `v` is the Action view as of `now_ms`.
pub open spec fn is_view(
    strip: StatusStripProps,
    report: Report,
    reversions: Seq<ReversionRecord>,
    judgements: Seq<Judgement>,
    now_ms: u64,
    v: ActionViewProps,
) -> bool {
    &&& v.strip == strip
    &&& v.window_human@ == age_text(report.window_secs as nat)
    &&& v.journal_empty == report.journal_empty
    &&& v.decisions_in_window == report.decisions_in_window
    &&& acts_shown(report, v.would_act@)
    &&& reversions_shown(reversions, now_ms, v.reversions@)
    &&& v.left_alone@ == report.left_alone@.map_values(|l: LeftAloneEntry| left_shown(l))
    &&& v.judgements@ == judgements.map_values(|j: Judgement| judgement_shown(j))
    &&& v.would_act_count == report.would_act@.len()
    &&& v.short_lived_count == report.would_act@.filter(|w: WouldActEntry| w.short_lived).len()
    &&& v.coverage_gap_count == report.would_act@.filter(|w: WouldActEntry| w.coverage_gap).len()
    &&& v.left_alone_count == report.left_alone@.len()
    &&& v.reverted_count == reversions.len()
}

/// What would have been done.
pub fn would_act_props(report: &Report) -> (r: Vec<WouldActProps>)
    ensures
        acts_shown(*report, r@),
{
    let v = &report.would_act;
    let mut r: Vec<WouldActProps> = Vec::new();
    let mut i: usize = 0;
    while i < v.len()
        invariant
            i <= v.len(),
            r@.len() == i,
            forall|k: int| 0 <= k < i ==> shows_act(v@[k], #[trigger] r@[k]),
        decreases v.len() - i,
    {
        let w = &v[i];
        r.push(
            WouldActProps {
                entry: w.entry.clone(),
                episodes: w.episodes,
                would_act_decisions: w.would_act_decisions,
                max_lifetime: human_age(w.max_lifetime_secs),
                open: w.open,
                short_lived: w.short_lived,
                coverage_gap: w.coverage_gap,
                last_verdict: w.last_verdict.clone(),
            },
        );
        i += 1;
    }
    r
}

/// What was left alone.
pub fn left_alone_props(report: &Report) -> (r: Vec<LeftAloneProps>)
    ensures
        r@ == report.left_alone@.map_values(|l: LeftAloneEntry| left_shown(l)),
{
    let v = &report.left_alone;
    let mut r: Vec<LeftAloneProps> = Vec::new();
    let mut i: usize = 0;
    while i < v.len()
        invariant
            i <= v.len(),
            r@.len() == i,
            forall|k: int| 0 <= k < i ==> #[trigger] r@[k] == left_shown(v@[k]),
        decreases v.len() - i,
    {
        r.push(LeftAloneProps { entry: v[i].entry.clone(), verdict: v[i].verdict.clone() });
        i += 1;
    }
    assert(r@ =~= v@.map_values(|l: LeftAloneEntry| left_shown(l)));
    r
}

fn age_since(at_ms: u64, now_ms: u64) -> (r: String)
    ensures
        r@ == age_text(seconds_between(at_ms, now_ms) as nat),
{
    human_age(seconds_since(at_ms, now_ms))
}

/// The lifted cuts as of `now_ms`.
pub fn reversion_props(reversions: &[ReversionRecord], now_ms: u64) -> (r: Vec<ReversionProps>)
    ensures
        reversions_shown(reversions@, now_ms, r@),
{
    let mut r: Vec<ReversionProps> = Vec::new();
    let mut i: usize = 0;
    while i < reversions.len()
        invariant
            i <= reversions@.len(),
            r@.len() == i,
            forall|k: int|
                0 <= k < i ==> shows_reversion(reversions@[k], now_ms, #[trigger] r@[k]),
        decreases reversions@.len() - i,
    {
        let x = &reversions[i];
        r.push(
            ReversionProps {
                cut: x.cut.clone(),
                reason: x.reason.clone(),
                age: age_since(x.at_ms, now_ms),
            },
        );
        i += 1;
    }
    r
}

/// The judgements.
pub fn judgement_props(judgements: &[Judgement]) -> (r: Vec<JudgementEntryProps>)
    ensures
        r@ == judgements@.map_values(|j: Judgement| judgement_shown(j)),
{
    let mut r: Vec<JudgementEntryProps> = Vec::new();
    let mut i: usize = 0;
    while i < judgements.len()
        invariant
            i <= judgements@.len(),
            r@.len() == i,
            forall|k: int| 0 <= k < i ==> #[trigger] r@[k] == judgement_shown(judgements@[k]),
        decreases judgements@.len() - i,
    {
        let j = &judgements[i];
        r.push(
            JudgementEntryProps {
                entry: j.entry.clone(),
                objectives: j.objectives,
                verdict: Some(j.verdict.clone()),
                prompt: j.prompt.clone(),
                reply: j.reply.clone(),
            },
        );
        i += 1;
    }
    assert(r@ =~= judgements@.map_values(|j: Judgement| judgement_shown(j)));
    r
}

/// The Action view as of `now_ms`, in milliseconds since the Unix epoch.
pub fn build_at(
    strip: StatusStripProps,
    report: &Report,
    reversions: &[ReversionRecord],
    judgements: &[Judgement],
    now_ms: u64,
) -> (r: ActionViewProps)
    ensures
        is_view(strip, *report, reversions@, judgements@, now_ms, r),
{
    ActionViewProps {
        strip,
        window_human: human_age(report.window_secs),
        journal_empty: report.journal_empty,
        decisions_in_window: report.decisions_in_window,
        would_act: would_act_props(report),
        reversions: reversion_props(reversions, now_ms),
        left_alone: left_alone_props(report),
        judgements: judgement_props(judgements),
        would_act_count: report.would_act_count(),
        short_lived_count: report.short_lived_count(),
        coverage_gap_count: report.coverage_gap_count(),
        left_alone_count: report.left_alone_count(),
        reverted_count: reversions.len(),
    }
}

} // verus!
