//! What the small facts of the views say, in terms of what they are read off: ages, postures, hops,
//! chips, alarms and counts.

use crate::graph::{short_text, Behavior, Signal};
use crate::props::findings::{DeltaProps, LiveTag, Posture};
use crate::props::status::StatusStripProps;
use crate::seqs::{lemma_filter_map_member, lemma_filter_member};
use crate::state::{
    Delta, EndpointFinding, Finding, InputState, NodeCoverageRow, NodeCoverageState, Readiness,
    RecencyInfo, Verdict,
};
use crate::state::row_at;
use crate::text;
use crate::view_model::alerts::{
    age_of, alarm_label, alarm_on, alarms_of, blind_set, chain_text, is_fresher, recency_text,
};
use crate::view_model::attack_vectors::{
    reached, relevant, shows_vector, vector_of, vectors, AttackVectorRow,
};
use crate::view_model::endpoints::words::flags;
use crate::view_model::hops::{cut_note_text, shows_hops, shows_step, verb_text, HopList};
use crate::view_model::ids::{fnv1a, hex, hex_digit};
use crate::view_model::posture::{
    age_text, live_tag_for, posture_for, relative_text, seconds_between, shows_delta,
};
use crate::view_model::strip::{chip_of, chips_of, chips_shown, is_strip};
use crate::view_model::triples::{key_le, lemma_ordered, Key};
use vstd::prelude::*;

verus! {

// ---------------------------------------------------------------------------
// Ages
// ---------------------------------------------------------------------------

/// An age reads in the largest unit that it fills, rounded down: seconds below a minute, minutes
/// below an hour, hours below a day, else days.
pub proof fn ages_read_in_the_largest_unit(secs: nat, q: nat)
    ensures
        secs < 60 ==> age_text(secs) == text::decimal(secs) + "s"@,
        1 <= q < 60 && 60 * q <= secs < 60 * (q + 1) ==> age_text(secs) == text::decimal(q) + "m"@,
        1 <= q < 24 && 3600 * q <= secs < 3600 * (q + 1) ==> age_text(secs) == text::decimal(q) + "h"@,
        1 <= q && 86_400 * q <= secs < 86_400 * (q + 1) ==> age_text(secs) == text::decimal(q) + "d"@,
{
}

/// Time since a moment counts whole seconds, and none where the moment is not past.
pub proof fn whole_seconds_are_counted(at_ms: u64, now_ms: u64)
    ensures
        now_ms <= at_ms ==> seconds_between(at_ms, now_ms) == 0,
        now_ms > at_ms ==> 1000 * seconds_between(at_ms, now_ms) <= now_ms - at_ms < 1000 * (
        seconds_between(at_ms, now_ms) + 1),
        relative_text(None) == "waiting for first pass"@,
        relative_text(Some(0)) == "just now"@,
        forall|secs: u64| secs > 0 ==> #[trigger] relative_text(Some(secs)) == age_text(secs as nat)
            + " ago"@,
{
}

// ---------------------------------------------------------------------------
// Postures and deltas
// ---------------------------------------------------------------------------

/// A verdict decides the posture: affirmed is a breach, and live where it was confirmed; refuted is
/// cleared; uncertain is uncertain; none awaits.
pub proof fn verdict_decides_the_posture(v: Option<Verdict>)
    ensures
        posture_for(v) == Posture::Breach <==> (v matches Some(x) && (x is Confirmed || x is Exploitable)),
        posture_for(v) == Posture::Uncertain <==> (v matches Some(x) && x is Uncertain),
        posture_for(v) == Posture::Cleared <==> (v matches Some(x) && x is Refuted),
        posture_for(v) == Posture::Awaiting <==> v is None,
        live_tag_for(v) == LiveTag::Live <==> (v matches Some(x) && x is Confirmed),
        live_tag_for(v) == LiveTag::Judged <==> (v matches Some(x) && x is Exploitable),
{
}

/// A delta shows as what it is, and what did not change shows its age. Without recency nothing shows
/// as changed.
pub proof fn deltas_show_as_they_are(r: Option<RecencyInfo>, d: DeltaProps)
    requires
        shows_delta(r, d),
    ensures
        d is New <==> (r matches Some(i) && i.delta == Delta::New),
        d is Escalated <==> (r matches Some(i) && i.delta == Delta::Escalated),
        d is DeEscalated <==> (r matches Some(i) && i.delta == Delta::DeEscalated),
        d is Restored <==> (r matches Some(i) && i.delta == Delta::Restored),
        d matches DeltaProps::Unchanged { age } ==> (age matches Some(a) ==> (r matches Some(i) && (
        i.age_secs matches Some(secs) && a@ == age_text(secs as nat)))),
{
}

// ---------------------------------------------------------------------------
// Hops
// ---------------------------------------------------------------------------

/// A hop names where its step leads, and is the cut exactly where it is the edge that was recorded.
pub proof fn hops_name_where_they_lead(f: Finding, l: HopList, i: int)
    requires
        shows_hops(f, l),
        0 <= i < f.path@.len(),
    ensures
        l.entry@ == short_text(f.entry@),
        l.internet_reachable == f.foothold,
        l.hops@.len() == f.path@.len(),
        l.hops@[i].node@ == short_text(f.path@[i].to@),
        l.hops@[i].is_cut <==> (f.cut matches Some(c) && c@ == f.path@[i].from@ + " -["@
            + f.path@[i].relation@ + "]-> "@ + f.path@[i].to@),
        l.cut_note is Some <==> f.cut is Some,
{
    assert(shows_step(f, i, l.hops@[i]));
}

/// A relation reads as its verb, whatever follows: the verbs have words of their own, and any other
/// reads with its hyphens as spaces.
pub proof fn relations_read_as_verbs(rest: Seq<char>)
    ensures
        verb_text("reaches"@ + "/"@ + rest) == "reaches"@,
        verb_text("can-do"@ + "/"@ + rest) == "can read"@,
        verb_text("can-read"@) == "can read"@,
        verb_text("runs-as"@) == "runs as"@,
        verb_text("scheduled-on"@) == text::replace("scheduled-on"@, '-', ' '),
{
    reveal_strlit("/");
    reveal_strlit("reaches");
    reveal_strlit("can-do");
    reveal_strlit("can-read");
    reveal_strlit("runs-as");
    reveal_strlit("scheduled-on");
    reveal_strlit("mounts");
    reveal_strlit("escapes-via");
    assert("/"@ =~= seq!['/']);
    crate::text_laws::comes_apart_in_front("reaches"@, "/"@, rest, 0);
    crate::text_laws::comes_apart_in_front("can-do"@, "/"@, rest, 0);
    crate::text_laws::stays_whole("can-read"@, "/"@, 0);
    crate::text_laws::stays_whole("runs-as"@, "/"@, 0);
    crate::text_laws::stays_whole("scheduled-on"@, "/"@, 0);
    assert("reaches"@.len() == 7 && "can-do"@.len() == 6 && "can-read"@.len() == 8 && "mounts"@.len()
        == 6 && "runs-as"@.len() == 7 && "escapes-via"@.len() == 11 && "scheduled-on"@.len() == 12);
    assert("can-do"@[0] == 'c' && "mounts"@[0] == 'm');
    assert("runs-as"@[1] == 'u' && "reaches"@[1] == 'e');
}

// ---------------------------------------------------------------------------
// Attack vectors
// ---------------------------------------------------------------------------

/// What a technique reaches are the objectives of the breach-relevant findings that it explains; the
/// flagged ones are those that the model affirmed.
pub proof fn technique_reaches_its_objectives(
    findings: Seq<EndpointFinding>,
    k: Key,
    affirmed: bool,
    n: int,
    t: Seq<char>,
)
    requires
        0 <= n <= findings.len(),
    ensures
        reached(findings, k, affirmed, n).contains(t) <==> exists|i: int|
            0 <= i < n && (#[trigger] findings[i]).breach_relevant && findings[i].tactic_name@ == k.first
                && findings[i].technique@ == k.second && findings[i].technique_name@ == k.third
                && findings[i].objective@ == t && (affirmed ==> flags(
                text::opt_text(findings[i].verdict),
            )),
    decreases n,
{
    if n > 0 {
        technique_reaches_its_objectives(findings, k, affirmed, n - 1, t);
        if reached(findings, k, affirmed, n - 1).contains(t) {
            let i = choose|i: int|
                0 <= i < n - 1 && (#[trigger] findings[i]).breach_relevant && findings[i].tactic_name@
                    == k.first && findings[i].technique@ == k.second && findings[i].technique_name@
                    == k.third && findings[i].objective@ == t && (affirmed ==> flags(
                    text::opt_text(findings[i].verdict),
                ));
            assert(findings[i].breach_relevant);
        }
        let f = findings[n - 1];
        assert(vector_of(f) == k <==> f.tactic_name@ == k.first && f.technique@ == k.second
            && f.technique_name@ == k.third);
        if f.breach_relevant && vector_of(f) == k && f.objective@ == t && (affirmed ==> flags(
            text::opt_text(f.verdict),
        )) {
            assert(findings[n - 1].breach_relevant);
        }
    }
}

/// Every technique that explains a breach-relevant finding has a row, and every row is of one; they
/// show by tactic, then by technique.
pub proof fn every_technique_has_its_row(findings: Seq<EndpointFinding>, k: Key)
    ensures
        vectors(findings).contains(k) <==> exists|i: int|
            0 <= i < findings.len() && (#[trigger] findings[i]).breach_relevant
                && findings[i].tactic_name@ == k.first && findings[i].technique@ == k.second
                && findings[i].technique_name@ == k.third,
        forall|i: int, j: int|
            0 <= i < j < vectors(findings).len() ==> key_le(
                #[trigger] vectors(findings)[i],
                #[trigger] vectors(findings)[j],
            ),
{
    let p = |f: EndpointFinding| f.breach_relevant;
    let g = |f: EndpointFinding| vector_of(f);
    let some = relevant(findings);
    let v = some.map_values(g);
    lemma_ordered(v);
    assert(vectors(findings).contains(k) <==> v.contains(k));
    if v.contains(k) {
        let i = v.index_of(k);
        assert(some.contains(some[i]));
        lemma_filter_member(findings, p, some[i]);
        let j = findings.index_of(some[i]);
        assert(findings[j].breach_relevant);
    }
    if exists|i: int|
        0 <= i < findings.len() && (#[trigger] findings[i]).breach_relevant && findings[i].tactic_name@
            == k.first && findings[i].technique@ == k.second && findings[i].technique_name@ == k.third {
        let i = choose|i: int|
            0 <= i < findings.len() && (#[trigger] findings[i]).breach_relevant
                && findings[i].tactic_name@ == k.first && findings[i].technique@ == k.second
                && findings[i].technique_name@ == k.third;
        assert(findings.contains(findings[i]));
        lemma_filter_member(findings, p, findings[i]);
        let j = some.index_of(findings[i]);
        assert(v[j] == k);
    }
}

/// A row of a technique names it and counts what it reaches and what of that was affirmed.
pub proof fn technique_row_counts(findings: Seq<EndpointFinding>, k: Key, r: AttackVectorRow)
    requires
        shows_vector(findings, k, r),
    ensures
        r.tactic@ == k.first,
        r.technique_id@ == k.second,
        r.technique_name@ == k.third,
        r.reachable == reached(findings, k, false, findings.len() as int).len(),
        r.flagged == reached(findings, k, true, findings.len() as int).len(),
{
}

// ---------------------------------------------------------------------------
// Ids
// ---------------------------------------------------------------------------

/// One more byte is mixed in before the hash is multiplied; no byte gives the offset.
pub proof fn one_more_byte_is_mixed_in(bytes: Seq<u8>, b: u8)
    ensures
        fnv1a(Seq::empty()) == 0xcbf2_9ce4_8422_2325u64,
        fnv1a(bytes.push(b)) == (fnv1a(bytes) ^ (b as u64)).wrapping_mul(0x0000_0100_0000_01b3u64),
{
    assert(bytes.push(b).drop_last() =~= bytes);
}

/// The value of a hexadecimal digit.
pub open spec fn hex_value(c: char) -> int {
    if '0' <= c <= '9' {
        c as int - 48
    } else {
        c as int - 87
    }
}

/// The number that hexadecimal digits spell.
pub open spec fn hex_spelled(s: Seq<char>) -> int
    decreases s.len(),
{
    if s.len() == 0 {
        0
    } else {
        16 * hex_spelled(s.drop_last()) + hex_value(s.last())
    }
}

/// A power of sixteen.
pub open spec fn sixteen_to(width: nat) -> int
    decreases width,
{
    if width == 0 {
        1
    } else {
        16 * sixteen_to((width - 1) as nat)
    }
}

/// Hexadecimal digits spell the number they are of, where it has room.
pub proof fn hex_spells_its_number(n: nat, width: nat)
    requires
        n < sixteen_to(width),
    ensures
        hex(n, width).len() == width,
        hex_spelled(hex(n, width)) == n,
    decreases width,
{
    if width > 0 {
        let d = hex(n / 16, (width - 1) as nat);
        hex_spells_its_number(n / 16, (width - 1) as nat);
        assert(d.push(hex_digit((n % 16) as int)).drop_last() =~= d);
        assert(hex_value(hex_digit((n % 16) as int)) == n % 16);
    }
}

// ---------------------------------------------------------------------------
// Alarms
// ---------------------------------------------------------------------------

/// A sensor's alert alarms under its rule, whatever else is known of it. Else a notable command, an
/// alarming write and a peer that is a foothold alarm, in this order, and nothing else does.
pub proof fn what_alarms(b: Behavior)
    ensures
        b.signal matches Signal::Alert { rule } ==> alarm_label(b) == Some(
            ("alert"@, "sensor rule fired: "@ + rule@),
        ),
        !(b.signal is Alert) && b.notable_exec is Some ==> (alarm_label(b) matches Some(l) && l.0
            == "exec"@),
        !(b.signal is Alert) && b.notable_exec is None && b.alarming_write is Some ==> (alarm_label(
            b,
        ) matches Some(l) && l.0 == "write"@),
        !(b.signal is Alert) && b.notable_exec is None && b.alarming_write is None
            && b.foothold_peer is Some ==> (alarm_label(b) matches Some(l) && l.0 == "peer"@),
        alarm_label(b) is Some <==> b.signal is Alert || b.notable_exec is Some
            || b.alarming_write is Some || b.foothold_peer is Some,
{
}

/// A finding alarms once for each behavior that alarms, in their order, on its own workload. The
/// alarm names the chain exactly where the finding bears on a breach.
pub proof fn findings_alarm_for_their_behaviors(f: Finding, b: Behavior)
    requires
        f.evidence.runtime@.contains(b),
        alarm_label(b) is Some,
    ensures
        exists|i: int|
            0 <= i < alarms_of(f).len() && (#[trigger] alarms_of(f)[i]).kind == (alarm_label(b)->0).0
                && alarms_of(f)[i].signal == (alarm_label(b)->0).1 && alarms_of(f)[i].workload
                == short_text(f.entry@),
        forall|i: int|
            0 <= i < alarms_of(f).len() ==> (#[trigger] alarms_of(f)[i]).workload == short_text(
                f.entry@,
            ) && (alarms_of(f)[i].on_chain is Some <==> f.breach_relevant),
{
    let g = |b: Behavior| alarm_on(f, b);
    let x = alarm_on(f, b)->0;
    let run = f.evidence.runtime@;
    let k = run.index_of(b);
    assert(g(run[k]) == Some(x));
    lemma_filter_map_member(run, g, x);
    let i = alarms_of(f).index_of(x);
    assert(alarms_of(f)[i] == x);
    assert forall|i: int| 0 <= i < alarms_of(f).len() implies (
    #[trigger] alarms_of(f)[i]).workload == short_text(f.entry@) && (
    alarms_of(f)[i].on_chain is Some <==> f.breach_relevant) by {
        let y = alarms_of(f)[i];
        assert(alarms_of(f).contains(y));
        lemma_filter_map_member(run, g, y);
        let j = choose|j: int| 0 <= j < run.len() && g(#[trigger] run[j]) == Some(y);
        assert(alarm_on(f, run[j]) == Some(y));
    }
}

/// What is of this pass is fresher than what has an age, and a lesser age is fresher than a greater.
pub proof fn lesser_ages_are_fresher(a: u64, b: u64)
    ensures
        is_fresher(None, Some(a)),
        !is_fresher(Some(a), None),
        is_fresher(Some(a), Some(b)) <==> a < b,
        !is_fresher(None, None),
{
}

/// A node is blind exactly where the coverage of live signals says so.
pub proof fn blind_nodes_are_those_that_say_so(readiness: Readiness, node: Seq<char>)
    ensures
        blind_set(readiness).contains(node) <==> (readiness.row(
            "runtime-corroboration"@,
        ) matches Some(row) && exists|i: int|
            0 <= i < row.nodes@.len() && (#[trigger] row.nodes@[i]).node@ == node
                && row.nodes@[i].state == NodeCoverageState::Blind),
{
    match readiness.row("runtime-corroboration"@) {
        Some(row) => {
            let p = |n: NodeCoverageRow| n.state == NodeCoverageState::Blind;
            let f = |n: NodeCoverageRow| n.node@;
            let some = row.nodes@.filter(p);
            let v = some.map_values(f);
            assert(v.to_set().contains(node) <==> v.contains(node));
            if v.contains(node) {
                let i = v.index_of(node);
                assert(some.contains(some[i]));
                lemma_filter_member(row.nodes@, p, some[i]);
                let j = row.nodes@.index_of(some[i]);
                assert(row.nodes@[j].node@ == node);
            }
            if exists|i: int|
                0 <= i < row.nodes@.len() && (#[trigger] row.nodes@[i]).node@ == node
                    && row.nodes@[i].state == NodeCoverageState::Blind {
                let i = choose|i: int|
                    0 <= i < row.nodes@.len() && (#[trigger] row.nodes@[i]).node@ == node
                        && row.nodes@[i].state == NodeCoverageState::Blind;
                assert(row.nodes@.contains(row.nodes@[i]));
                lemma_filter_member(row.nodes@, p, row.nodes@[i]);
                let j = some.index_of(row.nodes@[i]);
                assert(v[j] == node);
            }
        },
        None => {},
    }
}

// ---------------------------------------------------------------------------
// The strip
// ---------------------------------------------------------------------------

/// A feed that is known has its chip, in the order of exploited CVEs, predictions and live signals,
/// and the chip says its state.
pub proof fn chips_say_the_state_of_their_feeds(readiness: Readiness)
    requires
        readiness.row("kev"@) is Some,
        readiness.row("epss"@) is Some,
        readiness.row("runtime-corroboration"@) is Some,
    ensures
        chips_of(readiness).len() == 3,
        chips_of(readiness)[0].label == "KEV"@,
        chips_of(readiness)[0].present <==> readiness.row("kev"@)->0.state == InputState::Present,
        chips_of(readiness)[0].degraded <==> readiness.row("kev"@)->0.state == InputState::Degraded,
        chips_of(readiness)[1].label == "EPSS"@,
        chips_of(readiness)[1].present <==> readiness.row("epss"@)->0.state == InputState::Present,
        chips_of(readiness)[2].label == "Runtime"@,
        chips_of(readiness)[2].blind <==> readiness.row("runtime-corroboration"@)->0.state
            == InputState::Blind,
        chips_of(readiness)[2].present <==> readiness.row("runtime-corroboration"@)->0.state
            == InputState::Present,
{
}

/// The strip says what the readiness says: whether the engine acts, whether the model judges, and
/// how long ago the last pass was.
pub proof fn strip_says_what_readiness_says(
    cluster: Seq<char>,
    readiness: Readiness,
    last_pass: Option<u64>,
    s: StatusStripProps,
)
    requires
        is_strip(cluster, readiness, last_pass, s),
    ensures
        s.cluster@ == cluster,
        s.armed <==> (readiness.row("arm-state"@) matches Some(r) && "enforcing"@.is_prefix_of(
            r.detail@,
        )),
        s.model_judging == readiness.model_judging,
        s.warming_up == readiness.warming_up,
        s.model_attached == readiness.has_model(),
        s.last_pass is Some <==> last_pass is Some,
        last_pass matches Some(secs) ==> (s.last_pass matches Some(t) && t@ == age_text(secs as nat)
            + " ago"@),
{
}

proof fn lemma_row_at(rows: Seq<crate::state::ReadinessRow>, id: Seq<char>, from: int, k: int)
    requires
        0 <= from <= k < rows.len(),
        rows[k].id@ == id,
        forall|j: int| from <= j < k ==> (#[trigger] rows[j]).id@ != id,
    ensures
        row_at(rows, id, from) == Some(k),
    decreases k - from,
{
    if from < k {
        assert(rows[from].id@ != id);
        lemma_row_at(rows, id, from + 1, k);
    }
}

/// The row of an input is the first with its id.
pub proof fn first_row_with_the_id_counts(readiness: Readiness, id: Seq<char>, k: int)
    requires
        0 <= k < readiness.inputs@.len(),
        readiness.inputs@[k].id@ == id,
        forall|j: int| 0 <= j < k ==> (#[trigger] readiness.inputs@[j]).id@ != id,
    ensures
        readiness.row(id) == Some(readiness.inputs@[k]),
{
    lemma_row_at(readiness.inputs@, id, 0, k);
}

/// The strip shows the chips of its feeds, each as its feed stands, and starts without an alert and
/// without signing regressions.
pub proof fn strip_shows_the_chips(
    cluster: Seq<char>,
    readiness: Readiness,
    last_pass: Option<u64>,
    s: StatusStripProps,
    i: int,
)
    requires
        is_strip(cluster, readiness, last_pass, s),
    ensures
        s.coverage@.len() == chips_of(readiness).len(),
        0 <= i < s.coverage@.len() ==> s.coverage@[i].label@ == chips_of(readiness)[i].label
            && s.coverage@[i].present == chips_of(readiness)[i].present && s.coverage@[i].degraded
            == chips_of(readiness)[i].degraded && s.coverage@[i].blind == chips_of(readiness)[i].blind
            && !s.coverage@[i].stalled,
        s.coverage_alert is None,
        s.signing_regression_breach == 0,
        s.signing_regression_uncertain == 0,
{
    assert(chips_shown(s.coverage@).len() == s.coverage@.len());
    if 0 <= i < s.coverage@.len() {
        assert(chips_shown(s.coverage@)[i] == s.coverage@[i]@);
    }
}

/// A feed that is not known has no chip, and one that is has one.
pub proof fn unknown_feed_has_no_chip(readiness: Readiness, id: Seq<char>, label: Seq<char>)
    ensures
        chip_of(readiness, id, label).len() == (if readiness.row(id) is Some {
            1int
        } else {
            0int
        }),
        readiness.row(id) matches Some(r) ==> chip_of(readiness, id, label)[0].label == label && (
        chip_of(readiness, id, label)[0].present <==> r.state == InputState::Present) && (chip_of(
            readiness,
            id,
            label,
        )[0].degraded <==> r.state == InputState::Degraded) && (chip_of(
            readiness,
            id,
            label,
        )[0].blind <==> r.state == InputState::Blind),
{
}

/// An alarm says how long its entry has been alarming, or that it is of this pass, and names the
/// chain from the entry to the objective.
pub proof fn alarm_says_since_when_and_where(f: Finding)
    ensures
        age_of(f) matches Some(secs) ==> recency_text(f) == age_text(secs as nat) + " ago"@,
        age_of(f) is None ==> recency_text(f) == "this pass"@,
        f.breach_relevant ==> chain_text(f) == Some(
            short_text(f.entry@) + " \u{2192} "@ + short_text(f.objective@),
        ),
        f.recency matches Some(r) ==> age_of(f) == r.age_secs,
{
}

/// The note at a cut says what it takes: a durable fix where the disposition asks for one, a human
/// where the cut is forbidden, else arming. Without a cut there is no note.
pub proof fn cut_note_follows_the_disposition(f: Finding)
    ensures
        cut_note_text(f) is Some <==> f.cut is Some,
        f.cut is Some && text::contains(f.disposition@, "durable-fix"@) ==> cut_note_text(f) == Some(
            "\u{2702} cut here (durable fix \u{2014} open a PR)"@,
        ),
        f.cut is Some && !text::contains(f.disposition@, "durable-fix"@) && text::contains(
            f.disposition@,
            "forbidden"@,
        ) ==> cut_note_text(f) == Some("\u{2702} irreversible \u{2014} needs a human"@),
        f.cut is Some && !text::contains(f.disposition@, "durable-fix"@) && !text::contains(
            f.disposition@,
            "forbidden"@,
        ) ==> cut_note_text(f) == Some("\u{2702} cut here (arm network)"@),
{
}

} // verus!
