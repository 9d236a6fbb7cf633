//! What the tables of the views show, row for row, in terms of the records behind them.

use crate::graph::short_text;
use crate::props::access::{AccessTier, AccessViewProps, TierRevealRow};
use crate::props::action::{ActionViewProps, ActivityViewProps, TrustViewProps};
use crate::props::admission::{AdmissionDecision, AdmissionViewProps, GateStatus};
use crate::props::readiness::{ParityReportProps, ParityStateProps, ReadinessRowProps};
use crate::props::scope_preview::{FiringCutProps, ScopePreviewViewProps};
use crate::props::status::{StatusStripProps, StripCoverageAlert};
use crate::seqs::{lemma_filter_member, lemma_filter_parts, lemma_filter_push, lemma_sorted_member};
use crate::state::{
    AccessRecord, CoverageState, EffectiveTier, EndpointFinding, Judgement, ParityReport, ParityState, PolicyDecisionRecord, Readiness, ReadinessRow,
    ReversionRecord, Tier,
};
use crate::text;
use crate::view_model::access::{self, reveals_of, shows_pull, DisclosureLabels};
use crate::view_model::action;
use crate::view_model::admission::{self, decisions, tally, total};
use crate::view_model::activity;
use crate::view_model::attack_vectors::{
    flagged_is_at_most_reachable, shows_vector, shows_vectors, vectors, AttackVectorsProps,
};
use crate::view_model::bake::{shows_bake, BakeProps};
use crate::view_model::endpoints::words::flags;
use crate::view_model::internals::{
    self, count_shown, counts_of, is_weak, shows_internals, shows_lifted, BakeRow, InternalsProps,
};
use crate::view_model::judgements::{shows_card, JudgementCardProps, JudgementLead};
use crate::view_model::policy::{
    only_deny_is_loud, outcome_text, shows_decision, shows_policy, summary_text, DecisionTallies, PolicyDecisionRow,
    PolicyProps,
};
use crate::view_model::posture::{age_text, seconds_between};
use crate::view_model::readiness::{gap_order, gaps_first, shows_input, shows_parity};
use crate::view_model::readiness_data::{self, sum, BakeStats};
use crate::view_model::report::{is_body, lifetime_of, shows_act, shows_left, Lifetime, ReportBody};
use crate::view_model::report_data::{Report, WouldActEntry};
use crate::view_model::reversions::{shows_reversion, ReversionRow};
use crate::view_model::scope_preview::{
    cuts_are_partitioned, empty_scope_fires_nothing, firing, fires, held, is_preview, label_text,
    shows_firing, StandingCut,
};
use crate::view_model::signing_inventory::{inventory, repo_of, shows_group};
use crate::view_model::signing_laws::every_image_shows;
use crate::view_model::signing_records::{
    are_counts, is_about, is_inventory, ref_parts, regressions, Drift,
};
use crate::view_model::trust;
use crate::view_model::views::is_stall_of;
use vstd::prelude::*;

verus! {

// ---------------------------------------------------------------------------
// Access
// ---------------------------------------------------------------------------

/// Every pull shows, in its place: who pulled what with which tool and at which tier, how many
/// seconds ago, and its target only to a caller who may know it.
pub proof fn pulls_show_in_place(
    strip: StatusStripProps,
    caller: Tier,
    records: Seq<AccessRecord>,
    durable: bool,
    labels: DisclosureLabels,
    now_secs: u64,
    v: AccessViewProps,
    i: int,
)
    requires
        access::is_view(strip, caller, records, durable, labels, now_secs, v),
        0 <= i < records.len(),
    ensures
        v.strip == strip,
        v.durable == durable,
        v.pulls@.len() == records.len(),
        v.pulls@[i].who@ == records[i].subject@,
        v.pulls@[i].tool@ == records[i].tool@,
        v.pulls@[i].raw <==> records[i].tier == EffectiveTier::Raw,
        v.pulls@[i].tier == AccessTier::Forensic <==> records[i].tier == EffectiveTier::Forensic,
        v.pulls@[i].tier == AccessTier::Redacted <==> records[i].tier == EffectiveTier::Redacted,
        records[i].time_unix_secs <= now_secs ==> v.pulls@[i].when@ == age_text(
            (now_secs - records[i].time_unix_secs) as nat,
        ) + " ago"@,
        records[i].time_unix_secs > now_secs ==> v.pulls@[i].when@ == age_text(0) + " ago"@,
        caller == Tier::Redacted && records[i].entry@ != labels.bulk_scope@ ==> v.pulls@[i].target@
            == labels.withheld@,
        caller != Tier::Redacted ==> v.pulls@[i].target@ == records[i].entry@,
        v.tier == AccessTier::Raw <==> caller == Tier::Raw,
        v.tier == AccessTier::Forensic <==> caller == Tier::Forensic,
{
    assert(shows_pull(records[i], caller, now_secs, labels, v.pulls@[i]));
}

/// The tiers are listed from the least to the most that they reveal, each once, and a caller holds
/// those up to its own.
pub proof fn tiers_are_listed_in_order(caller: Tier)
    ensures
        reveals_of(caller).len() == 3,
        reveals_of(caller)[0].tier == AccessTier::Redacted && reveals_of(caller)[0].held,
        reveals_of(caller)[1].tier == AccessTier::Forensic && (reveals_of(caller)[1].held <==> caller
            != Tier::Redacted),
        reveals_of(caller)[2].tier == AccessTier::Raw && (reveals_of(caller)[2].held <==> caller
            == Tier::Raw),
{
}

// ---------------------------------------------------------------------------
// What would have been done
// ---------------------------------------------------------------------------

/// The action view shows the report line for line, in its order, and gives its numbers.
pub proof fn action_view_shows_the_report(
    strip: StatusStripProps,
    report: Report,
    reversions: Seq<ReversionRecord>,
    judgements: Seq<Judgement>,
    now_ms: u64,
    v: ActionViewProps,
    i: int,
)
    requires
        action::is_view(strip, report, reversions, judgements, now_ms, v),
    ensures
        v.strip == strip,
        v.window_human@ == age_text(report.window_secs as nat),
        v.journal_empty == report.journal_empty,
        v.decisions_in_window == report.decisions_in_window,
        v.would_act@.len() == report.would_act@.len(),
        v.would_act_count == v.would_act@.len(),
        v.left_alone@.len() == report.left_alone@.len(),
        v.left_alone_count == v.left_alone@.len(),
        v.reversions@.len() == reversions.len(),
        v.reverted_count == v.reversions@.len(),
        v.judgements@.len() == judgements.len(),
        0 <= i < report.would_act@.len() ==> ({
            let (w, p) = (report.would_act@[i], v.would_act@[i]);
            &&& p.entry == w.entry && p.episodes == w.episodes
            &&& p.would_act_decisions == w.would_act_decisions
            &&& p.max_lifetime@ == age_text(w.max_lifetime_secs as nat)
            &&& p.open == w.open && p.short_lived == w.short_lived
            &&& p.coverage_gap == w.coverage_gap && p.last_verdict == w.last_verdict
        }),
        0 <= i < report.left_alone@.len() ==> v.left_alone@[i].entry == report.left_alone@[i].entry
            && v.left_alone@[i].verdict == report.left_alone@[i].verdict,
        0 <= i < reversions.len() ==> v.reversions@[i].cut == reversions[i].cut
            && v.reversions@[i].reason == reversions[i].reason && v.reversions@[i].age@ == age_text(
            seconds_between(reversions[i].at_ms, now_ms) as nat,
        ),
        0 <= i < judgements.len() ==> v.judgements@[i].entry == judgements[i].entry
            && v.judgements@[i].objectives == judgements[i].objectives && v.judgements@[i].verdict
            == Some(judgements[i].verdict) && v.judgements@[i].prompt == judgements[i].prompt
            && v.judgements@[i].reply == judgements[i].reply,
{
    if 0 <= i < report.would_act@.len() {
        assert(action::shows_act(report.would_act@[i], v.would_act@[i]));
    }
    if 0 <= i < reversions.len() {
        assert(action::shows_reversion(reversions[i], now_ms, v.reversions@[i]));
    }
}

/// A line that counts as short-lived or as a gap is counted once.
pub proof fn one_more_line_is_counted(v: Seq<WouldActEntry>, w: WouldActEntry)
    ensures
        v.push(w).filter(|w: WouldActEntry| w.short_lived).len() == v.filter(
            |w: WouldActEntry| w.short_lived,
        ).len() + (if w.short_lived {
            1int
        } else {
            0int
        }),
        v.push(w).filter(|w: WouldActEntry| w.coverage_gap).len() == v.filter(
            |w: WouldActEntry| w.coverage_gap,
        ).len() + (if w.coverage_gap {
            1int
        } else {
            0int
        }),
{
    lemma_filter_push(v, |w: WouldActEntry| w.short_lived, w);
    lemma_filter_push(v, |w: WouldActEntry| w.coverage_gap, w);
}

/// What is open still stands, whatever its length; of what closed, the short-lived is told from the
/// sustained.
pub proof fn lifetimes_are_told_apart(w: WouldActEntry)
    ensures
        lifetime_of(w) == Lifetime::Open <==> w.open,
        lifetime_of(w) == Lifetime::ShortLived <==> !w.open && w.short_lived,
        lifetime_of(w) == Lifetime::Sustained <==> !w.open && !w.short_lived,
{
}

/// The report's page is empty exactly where the journal is, says that nothing falls in the window
/// where no line is there, and else shows every line in its order.
pub proof fn page_shows_the_report(report: Report, b: ReportBody, i: int)
    requires
        is_body(report, b),
    ensures
        b is Empty <==> report.journal_empty,
        b is OutOfWindow <==> !report.journal_empty && report.would_act@.len() == 0
            && report.left_alone@.len() == 0,
        b matches ReportBody::Diff(d) ==> {
            &&& d.would_act@.len() == report.would_act@.len()
            &&& d.left_alone@.len() == report.left_alone@.len()
            &&& d.would_act_count == report.would_act@.len()
            &&& d.left_alone_count == report.left_alone@.len()
            &&& 0 <= i < report.would_act@.len() ==> d.would_act@[i].entry@ == short_text(
                report.would_act@[i].entry@,
            ) && d.would_act@[i].would_act_decisions == report.would_act@[i].would_act_decisions
                && d.would_act@[i].lifetime@ == age_text(
                report.would_act@[i].max_lifetime_secs as nat,
            ) && d.would_act@[i].coverage_gap == report.would_act@[i].coverage_gap
                && d.would_act@[i].last_verdict@ == report.would_act@[i].last_verdict@
            &&& 0 <= i < report.left_alone@.len() ==> d.left_alone@[i].entry@ == short_text(
                report.left_alone@[i].entry@,
            ) && d.left_alone@[i].verdict@ == report.left_alone@[i].verdict@
        },
{
    match b {
        ReportBody::Diff(d) => {
            if 0 <= i < report.would_act@.len() {
                assert(shows_act(report.would_act@[i], d.would_act@[i]));
            }
            if 0 <= i < report.left_alone@.len() {
                assert(shows_left(report.left_alone@[i], d.left_alone@[i]));
            }
        },
        _ => {},
    }
}

/// A reversion shows what was lifted and why, and how long ago.
pub proof fn reversion_shows_what_was_lifted(r: ReversionRecord, now_ms: u64, row: ReversionRow)
    requires
        shows_reversion(r, now_ms, row),
    ensures
        row.cut@ == r.cut@,
        row.reason@ == r.reason@,
        now_ms <= r.at_ms ==> row.when@ == "just now"@,
        now_ms >= r.at_ms + 1000 ==> row.when@ == age_text(((now_ms - r.at_ms) / 1000) as nat)
            + " ago"@,
{
}

/// A card says who decided: the pre-filter where there was no prompt, nobody where the model did not
/// reply, else the model in its own words. Prompt and reply show as they are.
pub proof fn card_says_who_decided(j: Judgement, c: JudgementCardProps)
    requires
        shows_card(j, c),
    ensures
        c.lead is PreFilter <==> j.prompt is None,
        c.lead is Timeout <==> j.prompt is Some && j.reply is None,
        c.lead matches JudgementLead::Verdict(v) ==> v == j.verdict,
        c.entry@ == short_text(j.entry@),
        c.objectives == j.objectives,
        j.prompt matches Some(p) ==> c.prompt@ == p@,
        j.reply matches Some(r) ==> c.reply@ == r@,
{
}

// ---------------------------------------------------------------------------
// Admission
// ---------------------------------------------------------------------------

/// One more row adds its count to the tally of its decision, and to no other.
pub proof fn one_more_decision_is_tallied(
    rows: Seq<PolicyDecisionRecord>,
    r: PolicyDecisionRecord,
    d: AdmissionDecision,
)
    ensures
        tally(Seq::empty(), d) == 0,
        tally(rows.push(r), d) == tally(rows, d) + (if AdmissionDecision::parse_of(r.decision@) == d {
            r.count as int
        } else {
            0
        }),
{
    assert(rows.push(r).drop_last() =~= rows);
}

/// The admission view counts the decisions by their outcome, and its total is what was admitted,
/// audited and denied. Every decision shows in its place, as it was recorded.
pub proof fn admission_view_shows_decisions(
    strip: StatusStripProps,
    rows: Seq<PolicyDecisionRecord>,
    v: AdmissionViewProps,
    i: int,
)
    requires
        admission::is_view(strip, rows, v),
    ensures
        v.strip == strip,
        v.total == v.admitted + v.audited + v.denied,
        v.admitted == tally(decisions(rows), AdmissionDecision::Allow),
        v.audited == tally(decisions(rows), AdmissionDecision::Audit),
        v.denied == tally(decisions(rows), AdmissionDecision::Deny),
        v.rows@.len() == decisions(rows).len(),
        0 <= i < decisions(rows).len() ==> ({
            let (r, p) = (decisions(rows)[i], v.rows@[i]);
            &&& p.decision == AdmissionDecision::parse_of(r.decision@)
            &&& p.subject == r.subject && p.image == r.image && p.namespace == r.namespace
            &&& p.mesh == GateStatus::parse_of(r.mesh@)
            &&& p.would_admit == r.would_admit && p.reason == r.reason && p.count == r.count
        }),
{
}

/// A row is a decision exactly where no observation of images, signatures or builds speaks in it.
pub proof fn decisions_are_what_is_decided(rows: Seq<PolicyDecisionRecord>, r: PolicyDecisionRecord)
    ensures
        decisions(rows).contains(r) <==> rows.contains(r) && !("Image/"@.is_prefix_of(r.subject@)
            || "SigningRegression/"@.is_prefix_of(r.subject@) || "SigningException/"@.is_prefix_of(
            r.subject@,
        ) || "SigningStrength/"@.is_prefix_of(r.subject@) || "Provenance/"@.is_prefix_of(r.subject@)
            || "ProvenanceChange/"@.is_prefix_of(r.subject@)),
{
    lemma_filter_member(rows, |r: PolicyDecisionRecord| !is_inventory(r), r);
}

/// A decision's row says what was decided on what and why, how often, and how long ago.
pub proof fn decision_row_says_what_was_decided(
    d: PolicyDecisionRecord,
    now_ms: u64,
    r: PolicyDecisionRow,
)
    requires
        shows_decision(d, now_ms, r),
    ensures
        r.decision@ == d.decision@,
        r.subject@ == d.subject@,
        r.image@ == d.image@,
        r.namespace@ == d.namespace@,
        r.reason@ == d.reason@,
        r.count == d.count,
        outcome_text(d.decision@).is_prefix_of(r.summary@),
        now_ms <= d.at_ms ==> r.when@ == "just now"@,
        now_ms >= d.at_ms + 1000 ==> r.when@ == age_text(((now_ms - d.at_ms) / 1000) as nat) + " ago"@,
{
    let o = outcome_text(d.decision@);
    assert(r.summary@.take(o.len() as int) =~= o);
}

/// A summary says what came of it, then what the signature and the mesh add, as far as they are
/// known.
pub proof fn summary_says_outcome_signature_mesh(decision: Seq<char>)
    ensures
        outcome_text("allow"@) == "admitted"@,
        outcome_text("audit"@) == "would-deny"@,
        outcome_text("deny"@) == "denied"@,
        summary_text(decision, "signed"@, "meshed"@) == outcome_text(decision) + " \u{2014} "@ + (
        "signed"@ + ", "@ + "meshed"@),
        summary_text(decision, "unsigned"@, "unmeshed"@) == outcome_text(decision) + " \u{2014} "@ + (
        "unsigned"@ + ", "@ + "unmeshed"@),
{
    reveal_strlit("allow");
    reveal_strlit("audit");
    reveal_strlit("deny");
    reveal_strlit("signed");
    reveal_strlit("unsigned");
    reveal_strlit("meshed");
    reveal_strlit("unmeshed");
    assert("allow"@[1] == 'l' && "audit"@[1] == 'u' && "deny"@.len() == 4 && "allow"@.len() == 5
        && "audit"@.len() == 5);
    assert("signed"@.len() == 6 && "unsigned"@.len() == 8);
    assert("meshed"@.len() == 6 && "unmeshed"@.len() == 8);
    lemma_join_two("signed"@, "meshed"@, ", "@);
    lemma_join_two("unsigned"@, "unmeshed"@, ", "@);
    assert(seq!["signed"@] + seq!["meshed"@] =~= seq!["signed"@, "meshed"@]);
    assert(seq!["unsigned"@] + seq!["unmeshed"@] =~= seq!["unsigned"@, "unmeshed"@]);
}

proof fn lemma_join_two(a: Seq<char>, b: Seq<char>, sep: Seq<char>)
    ensures
        text::join(seq![a, b], sep) == a + sep + b,
{
    crate::text_laws::joining_adds_one_part(seq![a], b, sep);
    crate::text_laws::joining_adds_one_part(seq![a], a, sep);
    assert(seq![a].push(b) =~= seq![a, b]);
}

// ---------------------------------------------------------------------------
// Scope
// ---------------------------------------------------------------------------

/// A standing cut would fire exactly where the candidate scope is not empty and covers it, and is
/// held back otherwise.
pub proof fn covered_cuts_fire(standing: Seq<StandingCut>, empty: bool, c: StandingCut)
    ensures
        firing(standing, empty).contains(c) <==> standing.contains(c) && !empty && c.covered,
        held(standing, empty).contains(c) <==> standing.contains(c) && (empty || !c.covered),
{
    lemma_filter_member(standing, |c: StandingCut| fires(c, empty), c);
    lemma_filter_member(standing, |c: StandingCut| !fires(c, empty), c);
}

/// A cut that would fire shows what it severs as it stands, and says where that may not be complete.
pub proof fn firing_cut_shows_its_collateral(c: StandingCut, p: FiringCutProps)
    requires
        shows_firing(c, p),
    ensures
        p.cut == c.cut,
        p.action == c.action,
        p.alive_collateral@ == c.alive_collateral@,
        p.collateral_unknown == c.reachability_incomplete,
{
}

/// A label reads as its key, an equals sign and its value.
pub proof fn label_reads_key_then_value(l: (String, String))
    ensures
        label_text(l) == l.0@ + "="@ + l.1@,
{
}

// ---------------------------------------------------------------------------
// Readiness
// ---------------------------------------------------------------------------

/// Every input shows, once, with its own words and nodes; one that weakens decisions and is not
/// there shows above one that is in order.
pub proof fn inputs_show_as_they_are(readiness: Readiness, v: Seq<ReadinessRowProps>, r: ReadinessRow)
    requires
        v.len() == gaps_first(readiness).len(),
        forall|i: int| 0 <= i < v.len() ==> shows_input(gaps_first(readiness)[i], #[trigger] v[i]),
        readiness.inputs@.contains(r),
    ensures
        v.len() == readiness.inputs@.len(),
        exists|i: int|
            0 <= i < v.len() && (#[trigger] v[i]).id@ == r.id@ && v[i].label@ == r.label@ && v[i].why@
                == r.why@ && v[i].enable@ == r.enable@ && v[i].detail@ == r.detail@
                && v[i].weakens_decisions == r.weakens_decisions && v[i].nodes@.len()
                == r.nodes@.len() && forall|k: int|
                0 <= k < r.nodes@.len() ==> (#[trigger] v[i].nodes@[k]).node == r.nodes@[k].node
                    && v[i].nodes@[k].detail == r.nodes@[k].detail,
{
    lemma_sorted_member(readiness.inputs@, gap_order(), r);
    let i = gaps_first(readiness).index_of(r);
    assert(shows_input(gaps_first(readiness)[i], v[i]));
    assert(v[i].id@ == r.id@);
}

/// The trust view shows the report line for line, in its order, and gives its numbers.
pub proof fn trust_view_shows_the_report(
    strip: StatusStripProps,
    report: Report,
    v: TrustViewProps,
    i: int,
)
    requires
        trust::is_view(strip, report, v),
    ensures
        v.strip == strip,
        v.journal_empty == report.journal_empty,
        v.decisions_in_window == report.decisions_in_window,
        v.window_human@ == age_text(report.window_secs as nat),
        v.would_act@.len() == report.would_act@.len(),
        v.would_act_count == v.would_act@.len(),
        v.left_alone@.len() == report.left_alone@.len(),
        v.left_alone_count == v.left_alone@.len(),
        v.short_lived_count == report.would_act@.filter(|w: WouldActEntry| w.short_lived).len(),
        v.coverage_gap_count == report.would_act@.filter(|w: WouldActEntry| w.coverage_gap).len(),
        0 <= i < report.would_act@.len() ==> v.would_act@[i].entry == report.would_act@[i].entry
            && v.would_act@[i].open == report.would_act@[i].open && v.would_act@[i].short_lived
            == report.would_act@[i].short_lived && v.would_act@[i].last_verdict
            == report.would_act@[i].last_verdict,
        0 <= i < report.left_alone@.len() ==> v.left_alone@[i].entry == report.left_alone@[i].entry
            && v.left_alone@[i].verdict == report.left_alone@[i].verdict,
{
    if 0 <= i < report.would_act@.len() {
        assert(action::shows_act(report.would_act@[i], v.would_act@[i]));
    }
}

/// The activity view shows what was lifted and what was judged, each in its place.
pub proof fn activity_view_shows_in_place(
    strip: StatusStripProps,
    reversions: Seq<ReversionRecord>,
    judgements: Seq<Judgement>,
    now_ms: u64,
    v: ActivityViewProps,
    i: int,
)
    requires
        activity::is_view(strip, reversions, judgements, now_ms, v),
    ensures
        v.strip == strip,
        v.reversions@.len() == reversions.len(),
        v.judgements@.len() == judgements.len(),
        0 <= i < reversions.len() ==> v.reversions@[i].cut == reversions[i].cut
            && v.reversions@[i].reason == reversions[i].reason,
        0 <= i < judgements.len() ==> v.judgements@[i].entry == judgements[i].entry
            && v.judgements@[i].verdict == Some(judgements[i].verdict) && v.judgements@[i].prompt
            == judgements[i].prompt && v.judgements@[i].reply == judgements[i].reply,
{
    if 0 <= i < reversions.len() {
        assert(action::shows_reversion(reversions[i], now_ms, v.reversions@[i]));
    }
}

/// A pass is quiet exactly where nothing was signalled and nothing is stored; what was attributed is
/// what was resolved and what was not.
pub proof fn quiet_pass_delivered_nothing(bake: BakeStats, p: BakeProps, i: int)
    requires
        shows_bake(bake, p),
    ensures
        p.quiet <==> p.total == 0 && p.runtime_store == 0,
        p.attributed == p.resolved + p.unresolved,
        p.resolved == bake.resolved,
        p.unresolved == bake.unresolved,
        p.corroborations == bake.corroborations,
        p.total == sum(bake.signals_by_variant@),
        p.variants@.len() == bake.signals_by_variant@.len(),
        0 <= i < bake.signals_by_variant@.len() ==> p.variants@[i].variant
            == bake.signals_by_variant@[i].0 && p.variants@[i].count == bake.signals_by_variant@[i].1,
{
}

/// A candidate scope is empty exactly where it names neither a namespace nor a label, and then every
/// standing cut is held back. What would fire and what is held back are all standing cuts.
pub proof fn preview_parts_the_standing_cuts(
    strip: StatusStripProps,
    standing: Seq<StandingCut>,
    namespaces: Seq<String>,
    labels: Seq<(String, String)>,
    v: ScopePreviewViewProps,
    i: int,
)
    requires
        is_preview(strip, standing, namespaces, labels, v),
    ensures
        v.strip == strip,
        v.candidate_is_empty <==> namespaces.len() == 0 && labels.len() == 0,
        v.candidate_namespaces@ == namespaces,
        v.candidate_labels@.len() == labels.len(),
        0 <= i < labels.len() ==> v.candidate_labels@[i]@ == labels[i].0@ + "="@ + labels[i].1@,
        v.would_fire@.len() + v.held_out_of_scope@.len() == standing.len(),
        v.candidate_is_empty ==> v.would_fire@.len() == 0,
        0 <= i < v.would_fire@.len() ==> exists|k: int|
            0 <= k < standing.len() && (#[trigger] standing[k]).covered && v.would_fire@[i].cut
                == standing[k].cut && v.would_fire@[i].action == standing[k].action,
        0 <= i < v.held_out_of_scope@.len() ==> exists|k: int|
            0 <= k < standing.len() && (v.candidate_is_empty || !(
            #[trigger] standing[k]).covered) && v.held_out_of_scope@[i].cut == standing[k].cut
                && v.held_out_of_scope@[i].action == standing[k].action,
{
    let empty = v.candidate_is_empty;
    cuts_are_partitioned(standing, empty);
    empty_scope_fires_nothing(standing);
    assert(text::texts(v.candidate_labels@).len() == v.candidate_labels@.len());
    if 0 <= i < labels.len() {
        let f = |l: (String, String)| label_text(l);
        assert(text::texts(v.candidate_labels@)[i] == v.candidate_labels@[i]@);
        assert(labels.map_values(f)[i] == label_text(labels[i]));
    }
    if 0 <= i < v.would_fire@.len() {
        let c = firing(standing, empty)[i];
        assert(shows_firing(c, v.would_fire@[i]));
        assert(firing(standing, empty).contains(c));
        covered_cuts_fire(standing, empty, c);
        let k = standing.index_of(c);
        assert(standing[k].covered);
    }
    if 0 <= i < v.held_out_of_scope@.len() {
        let c = held(standing, empty)[i];
        assert(held(standing, empty).contains(c));
        covered_cuts_fire(standing, empty, c);
        let k = standing.index_of(c);
        assert(standing[k] == c);
        assert(empty || !standing[k].covered);
    }
}

/// The policy page shows every decision in its place and the tallies as they were counted, since the
/// first decision, or since the start where there is none.
pub proof fn policy_page_shows_in_place(
    decisions: Seq<PolicyDecisionRecord>,
    tallies: DecisionTallies,
    boot_ms: u64,
    now_ms: u64,
    p: PolicyProps,
    i: int,
)
    requires
        shows_policy(decisions, tallies, boot_ms, now_ms, p),
    ensures
        p.rows@.len() == decisions.len(),
        0 <= i < decisions.len() ==> p.rows@[i].subject@ == decisions[i].subject@
            && p.rows@[i].decision@ == decisions[i].decision@ && p.rows@[i].count
            == decisions[i].count,
        p.admitted == tallies.admitted,
        p.audited == tallies.audited,
        p.denied == tallies.denied,
        decisions.len() == 0 && now_ms >= boot_ms + 1000 ==> p.since@ == age_text(
            ((now_ms - boot_ms) / 1000) as nat,
        ) + " ago"@,
        decisions.len() > 0 && now_ms >= decisions[0].at_ms + 1000 ==> p.since@ == age_text(
            ((now_ms - decisions[0].at_ms) / 1000) as nat,
        ) + " ago"@,
{
    if 0 <= i < decisions.len() {
        assert(shows_decision(decisions[i], now_ms, p.rows@[i]));
    }
}

/// The internals show every input and every lifted cut in its place, and the counts of the pass.
/// Coverage is unmet exactly where an input that weakens decisions is not there.
pub proof fn internals_show_in_place(
    readiness: readiness_data::Readiness,
    reversions: Seq<ReversionRecord>,
    bake: BakeStats,
    now_ms: u64,
    p: InternalsProps,
    i: int,
)
    requires
        shows_internals(readiness, reversions, bake, now_ms, p),
    ensures
        p.coverage@.len() == readiness.inputs@.len(),
        0 <= i < readiness.inputs@.len() ==> p.coverage@[i].label@ == readiness.inputs@[i].label@
            && p.coverage@[i].why@ == readiness.inputs@[i].why@ && p.coverage@[i].enable@
            == readiness.inputs@[i].enable@ && p.coverage@[i].detail@ == readiness.inputs@[i].detail@
            && p.coverage@[i].weakens == readiness.inputs@[i].weakens_decisions
            && p.coverage@[i].state@ == readiness.inputs@[i].state.word_text(),
        p.coverage_unmet <==> exists|k: int|
            0 <= k < readiness.inputs@.len() && (#[trigger] readiness.inputs@[k]).weakens_decisions
                && readiness.inputs@[k].id@ != "arm-state"@ && readiness.inputs@[k].state
                != readiness_data::InputState::Present,
        p.reversions@.len() == reversions.len(),
        0 <= i < reversions.len() ==> p.reversions@[i].cut@ == reversions[i].cut@
            && p.reversions@[i].reason@ == reversions[i].reason@,
        p.bake@.len() == 5,
        p.bake@[0].value@ == text::decimal(bake.total() as nat),
        p.bake@[1].value@ == text::decimal(bake.resolved as nat),
        p.bake@[2].value@ == text::decimal(bake.unresolved as nat),
        p.bake@[3].value@ == text::decimal(bake.runtime_store as nat),
        p.bake@[4].value@ == text::decimal(bake.corroborations as nat),
{
    if 0 <= i < readiness.inputs@.len() {
        assert(internals::shows_input(readiness.inputs@[i], p.coverage@[i]));
    }
    if 0 <= i < reversions.len() {
        assert(shows_lifted(reversions[i], now_ms, p.reversions@[i]));
    }
    if p.coverage_unmet {
        let k = choose|k: int|
            0 <= k < readiness.inputs@.len() && is_weak(#[trigger] readiness.inputs@[k]);
        assert(readiness.inputs@[k].weakens_decisions);
    }
    if exists|k: int|
        0 <= k < readiness.inputs@.len() && (#[trigger] readiness.inputs@[k]).weakens_decisions
            && readiness.inputs@[k].id@ != "arm-state"@ && readiness.inputs@[k].state
            != readiness_data::InputState::Present {
        let k = choose|k: int|
            0 <= k < readiness.inputs@.len() && (#[trigger] readiness.inputs@[k]).weakens_decisions
                && readiness.inputs@[k].id@ != "arm-state"@ && readiness.inputs@[k].state
                != readiness_data::InputState::Present;
        assert(is_weak(readiness.inputs@[k]));
    }
    let shown = p.bake@.map_values(|b: BakeRow| count_shown(b));
    let c = counts_of(bake);
    assert(shown.len() == p.bake@.len());
    assert(c.len() == 5);
    assert forall|k: int| 0 <= k < 5 implies (#[trigger] p.bake@[k]).value@ == c[k].1 by {
        assert(shown[k] == c[k]);
        assert(shown[k] == count_shown(p.bake@[k]));
    }
}

/// The techniques show in their order, each by its own name.
pub proof fn vectors_show_in_order(findings: Seq<EndpointFinding>, p: AttackVectorsProps, i: int)
    requires
        shows_vectors(findings, p),
        0 <= i < p.rows@.len(),
    ensures
        p.rows@.len() == vectors(findings).len(),
        p.rows@[i].tactic@ == vectors(findings)[i].first,
        p.rows@[i].technique_id@ == vectors(findings)[i].second,
        p.rows@[i].technique_name@ == vectors(findings)[i].third,
        p.rows@[i].flagged <= p.rows@[i].reachable,
{
    assert(shows_vector(findings, vectors(findings)[i], p.rows@[i]));
    flagged_is_at_most_reachable(findings, vectors(findings)[i], p.rows@[i]);
}

/// Standing regressions count once each: the established ones first, then the fresh ones.
pub proof fn regressions_count_by_their_baseline(rows: Seq<PolicyDecisionRecord>, c: (usize, usize))
    requires
        are_counts(rows, c),
    ensures
        c.0 + c.1 == regressions(rows).len(),
        c.0 > 0 <==> exists|k: int|
            0 <= k < regressions(rows).len() && (#[trigger] regressions(rows)[k]).established,
        c.1 > 0 <==> exists|k: int|
            0 <= k < regressions(rows).len() && !(#[trigger] regressions(rows)[k]).established,
{
    let v = regressions(rows);
    let yes = |d: Drift| d.established;
    let no = |d: Drift| !d.established;
    lemma_filter_parts(v, yes, no);
    if v.filter(yes).len() > 0 {
        let d = v.filter(yes)[0];
        assert(v.filter(yes).contains(d));
        lemma_filter_member(v, yes, d);
        let k = v.index_of(d);
        assert(v[k].established);
    }
    if v.filter(no).len() > 0 {
        let d = v.filter(no)[0];
        assert(v.filter(no).contains(d));
        lemma_filter_member(v, no, d);
        let k = v.index_of(d);
        assert(!v[k].established);
    }
    if exists|k: int| 0 <= k < v.len() && (#[trigger] v[k]).established {
        let k = choose|k: int| 0 <= k < v.len() && (#[trigger] v[k]).established;
        assert(v.contains(v[k]));
        lemma_filter_member(v, yes, v[k]);
        assert(v.filter(yes).contains(v[k]));
    }
    if exists|k: int| 0 <= k < v.len() && !(#[trigger] v[k]).established {
        let k = choose|k: int| 0 <= k < v.len() && !(#[trigger] v[k]).established;
        assert(v.contains(v[k]));
        lemma_filter_member(v, no, v[k]);
        assert(v.filter(no).contains(v[k]));
    }
}

/// Only a feed that went dark has a banner, and the banner says what was said of it.
pub proof fn banner_is_for_what_went_dark(state: CoverageState, r: Option<StripCoverageAlert>)
    requires
        is_stall_of(state, r),
    ensures
        r is Some <==> state is Stalled,
        state matches CoverageState::Stalled(a) ==> r->0.feed_label == a.feed_label && r->0.message
            == a.message && r->0.last_observation == a.last_observation,
{
}

/// The comparison of sensors shows its own numbers, each under its own name.
pub proof fn parity_shows_its_numbers(r: ParityReport, p: ParityReportProps)
    requires
        shows_parity(r, p),
    ensures
        p.summary@ == r.summary@,
        p.falco_corroborated == r.falco_corroborated,
        p.agent_corroborated == r.agent_corroborated,
        p.both == r.both,
        p.agent_uncovered == r.agent_uncovered,
        p.uncovered_entries@ == r.uncovered_entries@,
        p.state == ParityStateProps::Parity <==> r.state == ParityState::Parity,
        p.state == ParityStateProps::Uncovered <==> r.state == ParityState::Uncovered,
{
}

/// A lifted cut says how long ago it was lifted.
pub proof fn lifted_cut_says_when(r: ReversionRecord, now_ms: u64, row: internals::ReversionRow)
    requires
        shows_lifted(r, now_ms, row),
    ensures
        now_ms <= r.at_ms ==> row.ago@ == "just now"@,
        now_ms >= r.at_ms + 1000 ==> row.ago@ == age_text(((now_ms - r.at_ms) / 1000) as nat)
            + " ago"@,
{
}

/// The report's page gives the window, the numbers of its lines, and for each how it lived.
pub proof fn page_gives_window_and_numbers(report: Report, b: ReportBody, i: int)
    requires
        is_body(report, b),
    ensures
        b matches ReportBody::Empty { window } ==> window@ == age_text(report.window_secs as nat),
        b matches ReportBody::OutOfWindow { window } ==> window@ == age_text(
            report.window_secs as nat,
        ),
        b matches ReportBody::Diff(d) ==> {
            &&& d.window@ == age_text(report.window_secs as nat)
            &&& d.short_lived_count == report.would_act@.filter(
                |w: WouldActEntry| w.short_lived,
            ).len()
            &&& d.coverage_gap_count == report.would_act@.filter(
                |w: WouldActEntry| w.coverage_gap,
            ).len()
            &&& 0 <= i < report.would_act@.len() ==> (d.would_act@[i].lifetime_kind == Lifetime::Open
                <==> report.would_act@[i].open) && (d.would_act@[i].lifetime_kind
                == Lifetime::ShortLived <==> !report.would_act@[i].open
                && report.would_act@[i].short_lived)
        },
{
    match b {
        ReportBody::Diff(d) => {
            if 0 <= i < report.would_act@.len() {
                assert(shows_act(report.would_act@[i], d.would_act@[i]));
            }
        },
        _ => {},
    }
}

/// The access view lists the tiers and which of them the caller holds.
pub proof fn access_view_lists_the_tiers(
    strip: StatusStripProps,
    caller: Tier,
    records: Seq<AccessRecord>,
    durable: bool,
    labels: DisclosureLabels,
    now_secs: u64,
    v: AccessViewProps,
)
    requires
        access::is_view(strip, caller, records, durable, labels, now_secs, v),
    ensures
        v.reveals@.len() == 3,
        v.reveals@[0].tier == AccessTier::Redacted && v.reveals@[0].held,
        v.reveals@[1].tier == AccessTier::Forensic && (v.reveals@[1].held <==> caller
            != Tier::Redacted),
        v.reveals@[2].tier == AccessTier::Raw && (v.reveals@[2].held <==> caller == Tier::Raw),
{
    let shown = v.reveals@.map_values(|t: TierRevealRow| t@);
    assert(shown.len() == v.reveals@.len());
    assert(shown[0] == v.reveals@[0]@ && shown[1] == v.reveals@[1]@ && shown[2] == v.reveals@[2]@);
}

/// A card wears the posture that its verdict's words give, and a decision its own tone.
pub proof fn cards_and_decisions_wear_their_tone(
    j: Judgement,
    c: JudgementCardProps,
    d: PolicyDecisionRecord,
    now_ms: u64,
    r: PolicyDecisionRow,
)
    requires
        shows_card(j, c),
        shows_decision(d, now_ms, r),
    ensures
        flags(Some(j.verdict@)) ==> c.posture_label@ == "[BREACH]"@ && c.posture_tone@
            == "chip-breach"@,
        !flags(Some(j.verdict@)) ==> c.posture_label@ == "[SAFE]"@ && c.posture_tone@ == "chip-safe"@,
        r.decision_tone@ == "chip-breach"@ <==> d.decision@ == "deny"@,
        d.decision@ == "audit"@ ==> r.decision_tone@ == "chip-awaiting"@,
        d.decision@ == "allow"@ ==> r.decision_tone@ == "chip-safe"@,
{
    only_deny_is_loud(d.decision@);
    reveal_strlit("allow");
    reveal_strlit("audit");
    reveal_strlit("deny");
    assert("allow"@[1] == 'l' && "audit"@[1] == 'u' && "deny"@.len() == 4 && "allow"@.len() == 5
        && "audit"@.len() == 5);
}

/// The admission view shows the signing inventory of its rows.
pub proof fn admission_view_shows_the_inventory(
    strip: StatusStripProps,
    rows: Seq<PolicyDecisionRecord>,
    v: AdmissionViewProps,
    k: int,
)
    requires
        admission::is_view(strip, rows, v),
        0 <= k < rows.len(),
        is_about(rows[k], "Image/"@),
    ensures
        exists|i: int|
            0 <= i < v.signing@.len() && (#[trigger] v.signing@[i]).repo@ == ref_parts(
                rows[k].image@,
            ).0,
{
    every_image_shows(rows, k);
    let i = choose|i: int|
        0 <= i < inventory(rows).len() && (#[trigger] inventory(rows)[i]).repo == repo_of(rows[k]);
    assert(shows_group(rows, inventory(rows)[i], v.signing@[i]));
    assert(v.signing@[i].repo@ == ref_parts(rows[k].image@).0);
}

} // verus!
