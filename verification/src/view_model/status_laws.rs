//! What the status and the readiness of the engine say, in terms of the findings and inputs behind
//! them.

use crate::props::findings::{FindingProps, Posture as RowPosture};
use crate::props::status::{stalled_chip, CoverageChip, StatusStripProps};
use crate::seqs::{lemma_filter_map_member, lemma_filter_map_push, lemma_filter_push};
use crate::state::{Delta, Finding, Verdict};
use crate::text;
use crate::text_set::{ascending, lemma_listable};
use crate::view_model::entry::Posture;
use crate::view_model::entry_laws::is_affirmed;
use crate::view_model::posture::relative_text;
use crate::view_model::readiness_data::{
    inputs_of, is_unmet, loaded_text, signals_text, sum, sum_of, BakeStats, InputState, ModelHealth,
    Readiness, ReadinessConfig, ReadinessRow,
};
use crate::view_model::status::{
    coverage_of, entries, exposed, inputs_total, is_judged, model_text, posture_at, posture_of,
    shows_status, tone_of, unjudged, with_posture, StatusProps, StatusTone,
};
use crate::view_model::views::{counts_rows, escalated, having};
use vstd::prelude::*;

verus! {

// ---------------------------------------------------------------------------
// Entries
// ---------------------------------------------------------------------------

/// The entry of a finding that bears on a breach.
pub open spec fn exposed_by(f: Finding) -> Option<Seq<char>> {
    if f.breach_relevant {
        Some(f.entry@)
    } else {
        None
    }
}

proof fn lemma_exposed(findings: Seq<Finding>, n: int)
    requires
        0 <= n <= findings.len(),
    ensures
        exposed(findings, n) == findings.take(n).filter_map(|f: Finding| exposed_by(f)).to_set(),
    decreases n,
{
    let g = |f: Finding| exposed_by(f);
    if n > 0 {
        lemma_exposed(findings, n - 1);
        let d = findings.take(n - 1);
        let x = findings[n - 1];
        assert(findings.take(n) =~= d.push(x));
        lemma_filter_map_push(d, g, x);
        let a = d.filter_map(g);
        if x.breach_relevant {
            let b = a.push(x.entry@);
            assert(b.to_set() =~= a.to_set().insert(x.entry@)) by {
                assert forall|y: Seq<char>| b.contains(y) <==> a.contains(y) || y == x.entry@ by {
                    vstd::seq_lib::lemma_seq_contains_after_push(a, x.entry@, y);
                }
            }
        }
    } else {
        assert(findings.take(0) =~= Seq::empty());
        assert(findings.take(0).filter_map(g).to_set() =~= Set::empty());
    }
}

/// The endpoints that are counted are the entries of findings that bear on a breach, each once.
pub proof fn endpoints_are_exposed_entries(findings: Seq<Finding>, e: Seq<char>)
    ensures
        ascending(entries(findings)),
        entries(findings).contains(e) <==> exists|i: int|
            0 <= i < findings.len() && (#[trigger] findings[i]).breach_relevant && findings[i].entry@
                == e,
{
    let n = findings.len() as int;
    let g = |f: Finding| exposed_by(f);
    lemma_exposed(findings, n);
    assert(findings.take(n) =~= findings);
    let v = findings.filter_map(g);
    lemma_listable(v);
    assert(entries(findings).contains(e) <==> entries(findings).to_set().contains(e));
    assert(v.contains(e) <==> v.to_set().contains(e));
    lemma_filter_map_member(findings, g, e);
    if v.contains(e) {
        let i = choose|i: int| 0 <= i < findings.len() && g(#[trigger] findings[i]) == Some(e);
        assert(findings[i].breach_relevant && findings[i].entry@ == e);
    }
    if exists|i: int|
        0 <= i < findings.len() && (#[trigger] findings[i]).breach_relevant && findings[i].entry@ == e {
        let i = choose|i: int|
            0 <= i < findings.len() && (#[trigger] findings[i]).breach_relevant && findings[i].entry@
                == e;
        assert(g(findings[i]) == Some(e));
    }
}

/// The finding bears on a breach of this entry.
pub open spec fn bears_on(f: Finding, e: Seq<char>) -> bool {
    f.breach_relevant && f.entry@ == e
}

/// An entry is a breach exactly where the model affirms one on some finding that bears on it.
pub proof fn entry_is_a_breach_where_one_is_affirmed(findings: Seq<Finding>, e: Seq<char>, n: int)
    requires
        0 <= n <= findings.len(),
    ensures
        posture_at(findings, e, n) == Posture::Breach <==> exists|i: int|
            0 <= i < n && bears_on(#[trigger] findings[i], e) && is_affirmed(findings[i]),
    decreases n,
{
    if n > 0 {
        entry_is_a_breach_where_one_is_affirmed(findings, e, n - 1);
        if posture_at(findings, e, n - 1) == Posture::Breach {
            let i = choose|i: int|
                0 <= i < n - 1 && bears_on(#[trigger] findings[i], e) && is_affirmed(findings[i]);
            assert(bears_on(findings[i], e));
        }
        assert(bears_on(findings[n - 1], e) <==> findings[n - 1].breach_relevant && findings[n
            - 1].entry@ == e);
    }
}

/// The status counts breaches by entry: an entry counts exactly where some finding on it is affirmed,
/// and it awaits exactly where no finding on it has a verdict.
pub proof fn breaches_are_counted_by_entry(findings: Seq<Finding>)
    ensures
        with_posture(findings, Posture::Breach) == entries(findings).filter(
            |e: Seq<char>| posture_of(findings, e) == Posture::Breach,
        ).len(),
        forall|e: Seq<char>| #[trigger]
            posture_of(findings, e) == Posture::Breach <==> exists|i: int|
                0 <= i < findings.len() && bears_on(#[trigger] findings[i], e) && is_affirmed(
                    findings[i],
                ),
        forall|e: Seq<char>| #[trigger]
            is_judged(findings, e) <==> exists|i: int|
                0 <= i < findings.len() && bears_on(#[trigger] findings[i], e)
                    && findings[i].verdict is Some,
        0 <= unjudged(findings) <= entries(findings).len(),
        0 <= with_posture(findings, Posture::Breach) + unjudged(findings) <= entries(findings).len(),
{
    assert forall|e: Seq<char>| #[trigger]
        posture_of(findings, e) == Posture::Breach <==> exists|i: int|
            0 <= i < findings.len() && bears_on(#[trigger] findings[i], e) && is_affirmed(
                findings[i],
            ) by {
        entry_is_a_breach_where_one_is_affirmed(findings, e, findings.len() as int);
    }
    assert forall|e: Seq<char>| #[trigger]
        is_judged(findings, e) <==> exists|i: int|
            0 <= i < findings.len() && bears_on(#[trigger] findings[i], e)
                && findings[i].verdict is Some by {
        if is_judged(findings, e) {
            let i = choose|i: int|
                0 <= i < findings.len() && (#[trigger] findings[i]).breach_relevant
                    && findings[i].entry@ == e && findings[i].verdict is Some;
            assert(bears_on(findings[i], e));
        }
        if exists|i: int|
            0 <= i < findings.len() && bears_on(#[trigger] findings[i], e)
                && findings[i].verdict is Some {
            let i = choose|i: int|
                0 <= i < findings.len() && bears_on(#[trigger] findings[i], e)
                    && findings[i].verdict is Some;
            assert(findings[i].breach_relevant);
        }
    }
    lemma_apart(entries(findings), findings);
}

proof fn lemma_apart(v: Seq<Seq<char>>, findings: Seq<Finding>)
    ensures
        v.filter(|e: Seq<char>| posture_of(findings, e) == Posture::Breach).len() + v.filter(
            |e: Seq<char>| !is_judged(findings, e),
        ).len() <= v.len(),
    decreases v.len(),
{
    let a = |e: Seq<char>| posture_of(findings, e) == Posture::Breach;
    let b = |e: Seq<char>| !is_judged(findings, e);
    if v.len() == 0 {
        assert(v =~= Seq::empty());
        lemma_filter_push(v, a, arbitrary());
        lemma_filter_push(v, b, arbitrary());
    } else {
        let d = v.drop_last();
        lemma_apart(d, findings);
        assert(v =~= d.push(v.last()));
        lemma_filter_push(d, a, v.last());
        lemma_filter_push(d, b, v.last());
        if posture_of(findings, v.last()) == Posture::Breach {
            crate::view_model::status::breach_is_judged(findings, v.last());
        }
    }
}

// ---------------------------------------------------------------------------
// Tone and coverage
// ---------------------------------------------------------------------------

/// A breach is a breach, whatever is covered. Without one, an engine that cannot judge or see
/// everything is blind; only what judges and sees everything is clear.
pub proof fn tone_in_order(breach: int, readiness: Readiness)
    ensures
        tone_of(breach, readiness) == StatusTone::Breach <==> breach > 0,
        tone_of(breach, readiness) == StatusTone::Clear <==> breach <= 0 && readiness.model_judging
            && coverage_of(readiness) >= 100,
{
}

/// Coverage is the share of inputs that are there, in whole percent, rounded down: all of it exactly
/// where nothing is missing, and none where there is no input.
pub proof fn coverage_is_the_share_of_inputs(readiness: Readiness)
    ensures
        inputs_total(readiness) == 0 ==> coverage_of(readiness) == 0,
        inputs_total(readiness) > 0 ==> coverage_of(readiness) * inputs_total(readiness) <= (
        inputs_total(readiness) - readiness.unmet()) * 100 < (coverage_of(readiness) + 1)
            * inputs_total(readiness),
{
    let t = inputs_total(readiness);
    let m = (t - readiness.unmet()) * 100;
    if t > 0 {
        vstd::arithmetic::div_mod::lemma_fundamental_div_mod(m, t);
        vstd::arithmetic::div_mod::lemma_mod_bound(m, t);
        let q = m / t;
        assert(q * t <= m < (q + 1) * t) by (nonlinear_arith)
            requires
                m == t * q + m % t,
                0 <= m % t < t,
        ;
    }
}

/// The clause on the model says whether it judges, and where it does not, whether there is one.
pub proof fn model_clause_says_why(readiness: Readiness)
    ensures
        readiness.model_judging ==> model_text(readiness) == "model live"@,
        !readiness.model_judging && readiness.has_model() ==> model_text(readiness)
            == "model down \u{2014} not judging"@,
        !readiness.model_judging && !readiness.has_model() ==> model_text(readiness)
            == "no model \u{2014} not judging"@,
{
}

// ---------------------------------------------------------------------------
// Inputs
// ---------------------------------------------------------------------------

/// Each input is there exactly where its source is: the model where it answers, a catalogue where it
/// holds something, a feed where it sent a signal in the last pass, the journal where it is durable.
pub proof fn inputs_are_there_where_their_source_is(
    config: ReadinessConfig,
    health: ModelHealth,
    bake: BakeStats,
)
    ensures
        ({
            let v = inputs_of(config, health, bake);
            &&& v.len() == 7
            &&& v[0].id == "model"@ && (v[0].state == InputState::Present <==> config.model_attached
                && health == ModelHealth::Answering)
            &&& v[0].state == InputState::Absent <==> !config.model_attached
            &&& v[1].id == "kev"@ && (v[1].state == InputState::Present <==> config.kev_count > 0)
            &&& v[2].id == "epss"@ && (v[2].state == InputState::Present <==> config.epss_count > 0)
            &&& v[3].id == "falco"@ && (v[3].state == InputState::Present <==> bake.alerts() > 0)
            &&& v[4].id == "ebpf-agent"@ && (v[4].state == InputState::Present <==> bake.others() > 0)
            &&& v[5].id == "journal"@ && (v[5].state == InputState::Present <==> config.journal_durable)
            &&& v[6].id == "arm-state"@ && v[6].state == InputState::Present
            &&& v[6].detail == (if config.armed {
                "enforcing (acting)"@
            } else {
                "shadow (proposing only)"@
            })
            &&& forall|i: int| 0 <= i < 7 ==> ((#[trigger] v[i]).weakens_decisions <==> i < 5)
            &&& forall|i: int| 1 <= i < 7 ==> (#[trigger] v[i]).state != InputState::Degraded
        }),
{
}

/// Signals are counted by their variant: one more variant adds its count, to the alerts exactly
/// where it is the alert variant.
pub proof fn one_more_variant_is_counted(v: Seq<(String, u64)>, p: (String, u64))
    ensures
        sum(v.push(p)) == sum(v) + p.1,
        sum_of(v.push(p), true) == sum_of(v, true) + (if p.0@ == "alert"@ {
            p.1 as int
        } else {
            0
        }),
        sum_of(v.push(p), false) == sum_of(v, false) + (if p.0@ == "alert"@ {
            0
        } else {
            p.1 as int
        }),
        sum(Seq::<(String, u64)>::empty()) == 0,
        sum_of(Seq::<(String, u64)>::empty(), true) == 0,
        sum_of(Seq::<(String, u64)>::empty(), false) == 0,
{
    assert(v.push(p).drop_last() =~= v);
}

/// What is loaded and what was signalled reads as a number of things, in the singular for one.
pub proof fn counts_read_as_numbers(noun: Seq<char>, n: nat)
    ensures
        n > 1 ==> loaded_text(n, noun) == text::decimal(n) + " "@ + noun + "s"@ + " loaded"@,
        loaded_text(1, noun) == text::decimal(1) + " "@ + noun + ""@ + " loaded"@,
        n > 1 ==> signals_text(n as int) == text::decimal(n) + " signal"@ + "s"@ + " last pass"@,
        signals_text(1) == text::decimal(1) + " signal"@ + ""@ + " last pass"@,
{
}

// ---------------------------------------------------------------------------
// The strip's counts
// ---------------------------------------------------------------------------

/// One more row is counted under its own posture, and under escalated exactly where it is.
pub proof fn one_more_row_is_counted(rows: Seq<FindingProps>, r: FindingProps, p: RowPosture)
    ensures
        having(Seq::empty(), p) == 0,
        escalated(Seq::empty()) == 0,
        having(rows.push(r), p) == having(rows, p) + (if r.posture == p {
            1int
        } else {
            0int
        }),
        escalated(rows.push(r)) == escalated(rows) + (if r.delta is Escalated {
            1int
        } else {
            0int
        }),
{
    lemma_filter_push(rows, |r: FindingProps| r.posture == p, r);
    lemma_filter_push(rows, |r: FindingProps| r.delta is Escalated, r);
}

/// The counts of the strip are those of the postures they are named after, and together they are all
/// rows.
pub proof fn counts_add_up(s: StatusStripProps, rows: Seq<FindingProps>)
    requires
        counts_rows(s, rows),
    ensures
        s.breach_count == having(rows, RowPosture::Breach),
        s.awaiting_count == having(rows, RowPosture::Awaiting),
        s.uncertain_count == having(rows, RowPosture::Uncertain),
        s.cleared_count == having(rows, RowPosture::Cleared),
        s.escalated_count == escalated(rows),
        s.breach_count + s.awaiting_count + s.uncertain_count + s.cleared_count == rows.len(),
{
    lemma_all_rows(rows);
}

proof fn lemma_all_rows(rows: Seq<FindingProps>)
    ensures
        having(rows, RowPosture::Breach) + having(rows, RowPosture::Awaiting) + having(
            rows,
            RowPosture::Uncertain,
        ) + having(rows, RowPosture::Cleared) == rows.len(),
    decreases rows.len(),
{
    if rows.len() == 0 {
        assert(rows =~= Seq::empty());
        one_more_row_is_counted(rows, arbitrary(), RowPosture::Breach);
        one_more_row_is_counted(rows, arbitrary(), RowPosture::Awaiting);
        one_more_row_is_counted(rows, arbitrary(), RowPosture::Uncertain);
        one_more_row_is_counted(rows, arbitrary(), RowPosture::Cleared);
    } else {
        let d = rows.drop_last();
        lemma_all_rows(d);
        assert(rows =~= d.push(rows.last()));
        one_more_row_is_counted(d, rows.last(), RowPosture::Breach);
        one_more_row_is_counted(d, rows.last(), RowPosture::Awaiting);
        one_more_row_is_counted(d, rows.last(), RowPosture::Uncertain);
        one_more_row_is_counted(d, rows.last(), RowPosture::Cleared);
    }
}

/// A stall marks the chip of the feed that went dark, and no other.
pub proof fn stall_marks_its_own_feed(c: CoverageChip, feed: Seq<char>)
    ensures
        stalled_chip(c, feed).label == c.label,
        c.label@ == feed ==> stalled_chip(c, feed).stalled && !stalled_chip(c, feed).present
            && !stalled_chip(c, feed).answers(),
        c.label@ != feed ==> stalled_chip(c, feed) == c,
{
}

/// The token of the strip in order: all clear; watching, where nothing is a breach or a signature
/// regressed; judging; and where nothing is judged, why.
pub proof fn token_says_how_it_stands(s: StatusStripProps)
    ensures
        s.is_up() <==> s.model_judging && !s.warming_up,
        s.is_up() && !s.clear() && s.breach_count == 0 && s.signing_regression_breach == 0
            ==> s.judging_text() == "watching"@,
        s.is_up() && s.breach_count > 0 && s.signing_regression_breach == 0
            && s.signing_regression_uncertain == 0 ==> s.judging_text() == "judging"@,
        !s.is_up() && s.warming_up ==> s.judging_text() == "warming"@,
        !s.is_up() && !s.warming_up && !s.model_attached ==> s.judging_text() == "no-model"@,
        !s.is_up() && !s.warming_up && s.model_attached ==> s.judging_text() == "blind"@,
{
}

// ---------------------------------------------------------------------------
// Words
// ---------------------------------------------------------------------------

/// A verdict reads as what was decided, then why.
pub proof fn verdict_reads_decision_then_reason(why: String)
    ensures
        Verdict::Confirmed.summary_text() == "confirmed"@,
        Verdict::Exploitable(why).summary_text() == "exploitable \u{2014} "@ + why@,
        Verdict::Refuted(why).summary_text() == "not exploitable \u{2014} "@ + why@,
        Verdict::Uncertain(why).summary_text() == "uncertain \u{2014} "@ + why@,
{
}

/// A change reads as what it is; only what did not change reads with its age.
pub proof fn change_reads_as_what_it_is(age: Seq<char>)
    ensures
        Delta::New.words(Some(age)) == "new this pass"@,
        Delta::Escalated.words(Some(age)) == "escalated"@,
        Delta::DeEscalated.words(Some(age)) == "de-escalated"@,
        Delta::Restored.words(Some(age)) == "restored"@,
        Delta::Unchanged.words(Some(age)) == "steady \u{b7} "@ + age,
        Delta::Escalated.glyph_text() == "\u{2191}"@,
        Delta::DeEscalated.glyph_text() == "\u{2193}"@,
        Delta::New.glyph_text() == "NEW"@,
{
}

/// The status line reads off the findings and the readiness: how many entries are exposed, in breach
/// and waiting, and how much of its input the engine has.
pub proof fn status_reads_off_findings_and_readiness(
    findings: Seq<Finding>,
    last_pass: Option<u64>,
    readiness: Readiness,
    p: StatusProps,
)
    requires
        shows_status(findings, last_pass, readiness, p),
    ensures
        p.endpoints == entries(findings).len(),
        p.breach + p.awaiting <= p.endpoints,
        p.tone == StatusTone::Breach <==> p.breach > 0,
        p.tone == StatusTone::Clear ==> readiness.model_judging && p.coverage_pct >= 100,
        p.pass_age@ == relative_text(last_pass),
        readiness.model_judging <==> p.model_clause@ == "model live"@,
{
    breaches_are_counted_by_entry(findings);
    reveal_strlit("model live");
    reveal_strlit("model down \u{2014} not judging");
    reveal_strlit("no model \u{2014} not judging");
    assert("model live"@.len() == 10 && "model down \u{2014} not judging"@.len() > 10
        && "no model \u{2014} not judging"@.len() > 10);
}

/// An input is missing exactly where it is not there; whether the engine acts is no input.
pub proof fn missing_is_what_is_not_there(r: ReadinessRow)
    ensures
        is_unmet(r) <==> r.id@ != "arm-state"@ && (r.state == InputState::Absent || r.state
            == InputState::Degraded),
{
}

/// The model's row says whether it answers: it answered last, it did not in time, it was not called
/// yet, or there is none.
pub proof fn model_row_says_how_it_answers(
    config: ReadinessConfig,
    health: ModelHealth,
    bake: BakeStats,
)
    ensures
        config.model_attached && health == ModelHealth::Answering ==> inputs_of(
            config,
            health,
            bake,
        )[0].detail == "attached \u{b7} last call ok"@,
        config.model_attached && health == ModelHealth::Timeout ==> inputs_of(
            config,
            health,
            bake,
        )[0].detail
            == "attached \u{b7} last call timed out (CPU model warming or endpoint down)"@,
        config.model_attached && health == ModelHealth::Unknown ==> inputs_of(
            config,
            health,
            bake,
        )[0].detail == "attached \u{b7} no call yet this run (warming up)"@,
        !config.model_attached ==> inputs_of(config, health, bake)[0].detail
            == "no model configured \u{2014} no exploitability calls are made"@,
{
}

} // verus!
