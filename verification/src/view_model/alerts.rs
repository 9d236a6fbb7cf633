//! The runtime signals that are alarming right now. The Alerts view and the rows of the Findings
//! view read the same signals here, so they never disagree about what is alarming.

use crate::graph::{short_text, Behavior, NodeKey, Signal};
use crate::order;
use crate::props::alerts::{Alarm, AlertProps, AlertsViewProps};
use crate::props::status::StatusStripProps;
use crate::state::{Finding, NodeCoverageRow, NodeCoverageState, Readiness};
use crate::text;
use crate::text_set::{lemma_listed, listed, TextSet};
use crate::view_model::posture::{age_text, human_age};
use vstd::prelude::*;
use vstd::string::*;

verus! {

/// What is alarming about a behavior, as kind and words: a sensor rule, a notable exec, an alarming
/// write or a foothold peer, in that order.
pub open spec fn alarm_label(b: Behavior) -> Option<(Seq<char>, Seq<char>)> {
    match b.signal {
        Signal::Alert { rule } => Some(("alert"@, "sensor rule fired: "@ + rule@)),
        _ => match b.notable_exec {
            Some(label) => Some(
                (
                    "exec"@,
                    "notable exec: "@ + label@ + " ("@ + (match b.signal {
                        Signal::ProcessExec { path } => path@,
                        _ => ""@,
                    }) + ")"@,
                ),
            ),
            None => match b.alarming_write {
                Some(label) => Some(
                    (
                        "write"@,
                        label@ + ": "@ + (match b.signal {
                            Signal::FileWrite { path } => path@,
                            _ => ""@,
                        }),
                    ),
                ),
                None => match b.foothold_peer {
                    Some(label) => Some(
                        (
                            "peer"@,
                            "contacted "@ + label@ + " ("@ + (match b.signal {
                                Signal::NetworkConnection { peer, internet } => peer@,
                                _ => ""@,
                            }) + ")"@,
                        ),
                    ),
                    None => None,
                },
            },
        },
    }
}

/// How long the finding's entry has been there, or `this pass` where that is not known.
pub open spec fn recency_text(f: Finding) -> Seq<char> {
    match f.recency {
        Some(info) => match info.age_secs {
            Some(secs) => age_text(secs as nat) + " ago"@,
            None => "this pass"@,
        },
        None => "this pass"@,
    }
}

/// The chain that a signal on the finding's entry lands on; only a breach-relevant one counts.
pub open spec fn chain_text(f: Finding) -> Option<Seq<char>> {
    if f.breach_relevant {
        Some(short_text(f.entry@) + " \u{2192} "@ + short_text(f.objective@))
    } else {
        None
    }
}

/// An alarm on a finding's entry.
pub open spec fn alarm_on(f: Finding, b: Behavior) -> Option<Alarm> {
    match alarm_label(b) {
        Some(l) => Some(
            Alarm {
                signal: l.1,
                kind: l.0,
                workload: short_text(f.entry@),
                recency: recency_text(f),
                on_chain: chain_text(f),
            },
        ),
        None => None,
    }
}

/// The alarms on a finding's entry, in the order the behaviors were observed.
pub open spec fn alarms_of(f: Finding) -> Seq<Alarm> {
    f.evidence.runtime@.filter_map(|b: Behavior| alarm_on(f, b))
}

/// The alarms that `v` shows.
pub open spec fn shown(v: Seq<AlertProps>) -> Seq<Alarm> {
    v.map_values(|a: AlertProps| a@)
}

/// How long the finding's entry has been there, in seconds, where that is known.
pub open spec fn age_of(f: Finding) -> Option<u64> {
    match f.recency {
        Some(info) => info.age_secs,
        None => None,
    }
}

/// The alarms on a finding's entry, each with the entry's age.
pub open spec fn aged_alarms_of(f: Finding) -> Seq<(Option<u64>, Alarm)> {
    alarms_of(f).map_values(|a: Alarm| (age_of(f), a))
}

/// The alarms on all findings, with their ages.
pub open spec fn all_alarms(findings: Seq<Finding>) -> Seq<(Option<u64>, Alarm)> {
    findings.flat_map(|f: Finding| aged_alarms_of(f))
}

/// The first age is more recent than the second. What has no age is of this pass.
pub open spec fn is_fresher(a: Option<u64>, b: Option<u64>) -> bool {
    match (a, b) {
        (None, Some(y)) => true,
        (Some(x), Some(y)) => x < y,
        _ => false,
    }
}

/// The order of alarms: the most recent first, then by workload and words.
pub open spec fn alarm_le(a: (Option<u64>, Alarm), b: (Option<u64>, Alarm)) -> bool {
    if a.0 != b.0 {
        is_fresher(a.0, b.0)
    } else if a.1.workload != b.1.workload {
        text::text_le(a.1.workload, b.1.workload)
    } else {
        text::text_le(a.1.signal, b.1.signal)
    }
}

/// The alarms on all findings in order, with their ages.
pub open spec fn ordered_alarms(findings: Seq<Finding>) -> Seq<(Option<u64>, Alarm)> {
    order::sorted(
        all_alarms(findings),
        |a: (Option<u64>, Alarm), b: (Option<u64>, Alarm)| alarm_le(a, b),
    )
}

/// The alarms of the Alerts view.
pub open spec fn alerts_of(findings: Seq<Finding>) -> Seq<Alarm> {
    ordered_alarms(findings).map_values(|x: (Option<u64>, Alarm)| x.1)
}

/// The nodes that should have a live runtime sensor and have none.
pub open spec fn blind_set(readiness: Readiness) -> Set<Seq<char>> {
    match readiness.row("runtime-corroboration"@) {
        Some(row) => row.nodes@.filter(
            |n: NodeCoverageRow| n.state == NodeCoverageState::Blind,
        ).map_values(|n: NodeCoverageRow| n.node@).to_set(),
        None => Set::empty(),
    }
}

/// The caveat on a quiet view while nodes are blind: it lists them in order.
pub open spec fn caveat_text(blind: Set<Seq<char>>) -> Option<Seq<char>> {
    if blind == Set::<Seq<char>>::empty() {
        None
    } else {
        Some(
            "no live runtime sensor on: "@ + text::join(listed(blind), ", "@)
                + " \u{2014} a quiet view here is not an all-clear; absence of a signal is not evidence of safety"@,
        )
    }
}

/// What is alarming about a behavior, as kind and words.
pub fn alarming_now_label(b: &Behavior) -> (r: Option<(&'static str, String)>)
    ensures
        r matches Some(l) ==> alarm_label(*b) == Some((l.0@, l.1@)),
        r is None ==> alarm_label(*b) is None,
{
    match &b.signal {
        Signal::Alert { rule } => {
            return Some(("alert", "sensor rule fired: ".to_string().concat(rule.as_str())));
        },
        _ => {},
    }
    match &b.notable_exec {
        Some(label) => {
            let path = match &b.signal {
                Signal::ProcessExec { path } => path.as_str(),
                _ => "",
            };
            return Some(
                (
                    "exec",
                    "notable exec: ".to_string().concat(label.as_str()).concat(" (").concat(
                        path,
                    ).concat(")"),
                ),
            );
        },
        None => {},
    }
    match &b.alarming_write {
        Some(label) => {
            let path = match &b.signal {
                Signal::FileWrite { path } => path.as_str(),
                _ => "",
            };
            return Some(("write", label.clone().concat(": ").concat(path)));
        },
        None => {},
    }
    match &b.foothold_peer {
        Some(label) => {
            let peer = match &b.signal {
                Signal::NetworkConnection { peer, internet } => peer.as_str(),
                _ => "",
            };
            Some(
                (
                    "peer",
                    "contacted ".to_string().concat(label.as_str()).concat(" (").concat(
                        peer,
                    ).concat(")"),
                ),
            )
        },
        None => None,
    }
}

/// How long the finding's entry has been there.
fn recency_of(f: &Finding) -> (r: String)
    ensures
        r@ == recency_text(*f),
{
    match &f.recency {
        Some(info) => match info.age_secs {
            Some(secs) => human_age(secs).concat(" ago"),
            None => "this pass".to_string(),
        },
        None => "this pass".to_string(),
    }
}

/// The chain that a signal on the finding's entry lands on.
fn on_chain_of(f: &Finding) -> (r: Option<String>)
    ensures
        text::opt_text(r) == chain_text(*f),
{
    if !f.breach_relevant {
        return None;
    }
    Some(
        NodeKey::short_of(f.entry.as_str()).to_string().concat(" \u{2192} ").concat(
            NodeKey::short_of(f.objective.as_str()),
        ),
    )
}

/// The alarms on one finding's entry.
pub fn alarming_signals_of(f: &Finding) -> (r: Vec<AlertProps>)
    ensures
        shown(r@) == alarms_of(*f),
{
    let ghost p = |b: Behavior| alarm_on(*f, b);
    let workload = NodeKey::short_of(f.entry.as_str()).to_string();
    let recency = recency_of(f);
    let on_chain = on_chain_of(f);
    let runtime = &f.evidence.runtime;
    let mut r: Vec<AlertProps> = Vec::new();
    let mut i: usize = 0;
    assert(shown(r@) =~= runtime@.take(0).filter_map(p));
    while i < runtime.len()
        invariant
            i <= runtime.len(),
            p == |b: Behavior| alarm_on(*f, b),
            workload@ == short_text(f.entry@),
            recency@ == recency_text(*f),
            text::opt_text(on_chain) == chain_text(*f),
            shown(r@) == runtime@.take(i as int).filter_map(p),
        decreases runtime.len() - i,
    {
        let ghost so_far = runtime@.take(i as int).filter_map(p);
        proof {
            runtime@.lemma_filter_map_take_succ(p, i as int);
        }
        match alarming_now_label(&runtime[i]) {
            Some(l) => {
                let ghost before = r@;
                let a = AlertProps {
                    signal: l.1,
                    kind: l.0.to_string(),
                    workload: workload.clone(),
                    recency: recency.clone(),
                    on_chain: on_chain.clone(),
                };
                let ghost seen = a@;
                r.push(a);
                assert(shown(r@) =~= shown(before).push(seen));
                assert(runtime@.take(i + 1).filter_map(p) =~= so_far.push(seen));
            },
            None => {
                assert(runtime@.take(i + 1).filter_map(p) =~= so_far);
            },
        }
        i += 1;
    }
    assert(runtime@.take(runtime@.len() as int) =~= runtime@);
    r
}

/// The nodes that should have a live runtime sensor and have none.
pub fn blind_nodes_of(readiness: &Readiness) -> (r: TextSet)
    ensures
        r.wf(),
        r@ == blind_set(*readiness),
{
    let mut r = TextSet::new();
    match readiness.find_row("runtime-corroboration") {
        Some(row) => {
            let ghost p = |n: NodeCoverageRow| n.state == NodeCoverageState::Blind;
            let ghost f = |n: NodeCoverageRow| n.node@;
            let mut i: usize = 0;
            assert(r@ =~= row.nodes@.take(0).filter(p).map_values(f).to_set());
            while i < row.nodes.len()
                invariant
                    i <= row.nodes.len(),
                    p == |n: NodeCoverageRow| n.state == NodeCoverageState::Blind,
                    f == |n: NodeCoverageRow| n.node@,
                    r.wf(),
                    r@ == row.nodes@.take(i as int).filter(p).map_values(f).to_set(),
                decreases row.nodes.len() - i,
            {
                broadcast use vstd::seq::Seq::lemma_filter_push;

                let ghost n = row.nodes@[i as int];
                let ghost so_far = row.nodes@.take(i as int).filter(p);
                assert(row.nodes@.take(i + 1) =~= row.nodes@.take(i as int).push(n));
                if row.nodes[i].state == NodeCoverageState::Blind {
                    r.insert(row.nodes[i].node.clone());
                    proof {
                        assert(row.nodes@.take(i + 1).filter(p) == so_far.push(n));
                        assert(so_far.push(n).map_values(f) =~= so_far.map_values(f).push(n.node@));
                        so_far.map_values(f).lemma_push_to_set_commute(n.node@);
                    }
                }
                i += 1;
            }
            assert(row.nodes@.take(row.nodes@.len() as int) =~= row.nodes@);
        },
        None => {},
    }
    r
}

/// The caveat on a quiet view while nodes are blind.
fn blind_caveat_of(readiness: &Readiness) -> (r: Option<String>)
    ensures
        text::opt_text(r) == caveat_text(blind_set(*readiness)),
{
    let blind = blind_nodes_of(readiness);
    let ghost v = text::texts(blind.items@);
    if blind.items.len() == 0 {
        assert(blind@ =~= Set::<Seq<char>>::empty());
        return None;
    }
    assert(v.contains(v[0]));
    assert(blind@.contains(v[0]));
    proof {
        lemma_listed(v);
    }
    let nodes = text::joined(&blind.items, ", ");
    Some(
        "no live runtime sensor on: ".to_string().concat(nodes.as_str()).concat(
            " \u{2014} a quiet view here is not an all-clear; absence of a signal is not evidence of safety",
        ),
    )
}

/// An alert with the age of its entry.
struct Aged {
    age: Option<u64>,
    alert: AlertProps,
}

impl Aged {
    spec fn pair(self) -> (Option<u64>, Alarm) {
        (self.age, self.alert@)
    }
}

spec fn pairs(v: Seq<Aged>) -> Seq<(Option<u64>, Alarm)> {
    v.map_values(|a: Aged| a.pair())
}

fn aged_at_most(a: &Aged, b: &Aged) -> (r: bool)
    ensures
        r == alarm_le(a.pair(), b.pair()),
{
    match (a.age, b.age) {
        (None, Some(y)) => {
            return true;
        },
        (Some(x), None) => {
            return false;
        },
        (Some(x), Some(y)) => {
            if x != y {
                return x < y;
            }
        },
        (None, None) => {},
    }
    if !text::same(a.alert.workload.as_str(), b.alert.workload.as_str()) {
        text::at_most(a.alert.workload.as_str(), b.alert.workload.as_str())
    } else {
        text::at_most(a.alert.signal.as_str(), b.alert.signal.as_str())
    }
}

/// Appends the alarms on a finding's entry, with its age.
fn add_alarms(v: &mut Vec<Aged>, f: &Finding)
    ensures
        pairs(final(v)@) == pairs(old(v)@) + aged_alarms_of(*f),
{
    let ghost before = pairs(v@);
    let age: Option<u64> = match &f.recency {
        Some(info) => info.age_secs,
        None => None,
    };
    let mut more = alarming_signals_of(f);
    let ghost all = alarms_of(*f);
    let n = more.len();
    let ghost g = |a: Alarm| (age_of(*f), a);
    let mut i: usize = 0;
    assert(all.len() == n) by {
        assert(shown(more@).len() == more@.len());
    }
    assert(shown(more@) =~= all.skip(0));
    assert(pairs(v@) =~= before + all.take(0).map_values(g));
    while i < n
        invariant
            i <= n,
            n == all.len(),
            all == alarms_of(*f),
            age == age_of(*f),
            g == |a: Alarm| (age_of(*f), a),
            more@.len() == n - i,
            shown(more@) == all.skip(i as int),
            pairs(v@) == before + all.take(i as int).map_values(g),
        decreases n - i,
    {
        let ghost was = pairs(v@);
        let ghost rest = more@;
        let alert = more.remove(0);
        assert(alert@ == all[i as int]) by {
            assert(shown(rest)[0] == rest[0]@);
            assert(all.skip(i as int)[0] == all[i as int]);
        }
        assert(shown(more@) =~= all.skip(i + 1)) by {
            assert(shown(more@) =~= shown(rest).skip(1));
            assert(all.skip(i as int).skip(1) =~= all.skip(i + 1));
        }
        let x = Aged { age, alert };
        let ghost seen = x.pair();
        let ghost vs = v@;
        v.push(x);
        assert(pairs(v@) =~= pairs(vs).push(seen));
        assert(all.take(i + 1).map_values(g) =~= all.take(i as int).map_values(g).push(seen));
        assert((before + all.take(i as int).map_values(g)).push(seen) =~= before + all.take(
            i + 1,
        ).map_values(g));
        i += 1;
    }
    assert(all.take(n as int) =~= all);
}

/// The alerts without their ages.
fn without_ages(v: Vec<Aged>) -> (r: Vec<AlertProps>)
    ensures
        shown(r@) == pairs(v@).map_values(|x: (Option<u64>, Alarm)| x.1),
{
    let ghost given = v@;
    let mut rest = v;
    let n = rest.len();
    let mut r: Vec<AlertProps> = Vec::new();
    let mut i: usize = 0;
    while i < n
        invariant
            i <= n,
            n == given.len(),
            rest@ == given.skip(i as int),
            r@.len() == i,
            forall|k: int| 0 <= k < i ==> (#[trigger] r@[k])@ == given[k].alert@,
        decreases n - i,
    {
        let x = rest.remove(0);
        assert(x == given[i as int]);
        assert(rest@ =~= given.skip(i + 1));
        r.push(x.alert);
        i += 1;
    }
    assert(shown(r@) =~= pairs(given).map_values(|x: (Option<u64>, Alarm)| x.1));
    r
}

/// The Alerts view: the alarms on all findings, the most recent first.
pub fn build(strip: StatusStripProps, findings: &[Finding], readiness: &Readiness) -> (r: AlertsViewProps)
    ensures
        r.strip == strip,
        shown(r.alerts@) == alerts_of(findings@),
        text::opt_text(r.blind_caveat) == caveat_text(blind_set(*readiness)),
{
    let ghost p = |f: Finding| aged_alarms_of(f);
    let mut aged: Vec<Aged> = Vec::new();
    let mut i: usize = 0;
    assert(pairs(aged@) =~= findings@.take(0).flat_map(p)) by {
        assert(findings@.take(0) =~= Seq::empty());
    }
    while i < findings.len()
        invariant
            i <= findings.len(),
            p == |f: Finding| aged_alarms_of(f),
            pairs(aged@) == findings@.take(i as int).flat_map(p),
        decreases findings.len() - i,
    {
        add_alarms(&mut aged, &findings[i]);
        proof {
            findings@.lemma_flat_map_take_append(p, i as int);
        }
        i += 1;
    }
    assert(findings@.take(findings@.len() as int) =~= findings@);
    let ghost le = |a: Aged, b: Aged| alarm_le(a.pair(), b.pair());
    let ghost la = |a: (Option<u64>, Alarm), b: (Option<u64>, Alarm)| alarm_le(a, b);
    proof {
        order::lemma_sorted_related(
            pairs(aged@),
            aged@,
            |m: (Option<u64>, Alarm), a: Aged| a.pair() == m,
            la,
            le,
        );
    }
    let at_most = |a: &Aged, b: &Aged| -> (o: bool)
        ensures
            o == alarm_le(a.pair(), b.pair()),
        { aged_at_most(a, b) };
    let sorted = order::sort_stable(aged, at_most, Ghost(le));
    assert(pairs(sorted@) =~= order::sorted(all_alarms(findings@), la));
    AlertsViewProps {
        strip,
        alerts: without_ages(sorted),
        blind_caveat: blind_caveat_of(readiness),
    }
}

// ---------------------------------------------------------------------------
// Laws
// ---------------------------------------------------------------------------

proof fn lemma_alarm_order()
    ensures
        order::is_order(|a: (Option<u64>, Alarm), b: (Option<u64>, Alarm)| alarm_le(a, b)),
{
    let le = |a: (Option<u64>, Alarm), b: (Option<u64>, Alarm)| alarm_le(a, b);
    assert forall|a: (Option<u64>, Alarm), b: (Option<u64>, Alarm)| #[trigger] le(a, b) || le(
        b,
        a,
    ) by {
        alarm_order_is_total(a, b);
    }
    assert forall|
        a: (Option<u64>, Alarm),
        b: (Option<u64>, Alarm),
        c: (Option<u64>, Alarm),
    | #[trigger] le(a, b) && #[trigger] le(b, c) implies le(a, c) by {
        let (x, y, z) = (a.1, b.1, c.1);
        text::lemma_text_le_total(x.workload, y.workload);
        text::lemma_text_le_total(y.workload, z.workload);
        if text::text_le(x.workload, y.workload) && text::text_le(y.workload, z.workload) {
            text::lemma_text_le_trans(x.workload, y.workload, z.workload);
        }
        if text::text_le(x.signal, y.signal) && text::text_le(y.signal, z.signal) {
            text::lemma_text_le_trans(x.signal, y.signal, z.signal);
        }
    }
}

/// The order of alarms is total, and so the order in which they show is determined.
pub proof fn alarm_order_is_total(a: (Option<u64>, Alarm), b: (Option<u64>, Alarm))
    ensures
        alarm_le(a, b) || alarm_le(b, a),
{
    text::lemma_text_le_total(a.1.workload, b.1.workload);
    text::lemma_text_le_total(a.1.signal, b.1.signal);
}

/// Every alarm that a finding shows stands in the Alerts view of a set of findings that holds it.
pub proof fn findings_and_alerts_agree(findings: Seq<Finding>, k: int, alarm: Alarm)
    requires
        0 <= k < findings.len(),
        alarms_of(findings[k]).contains(alarm),
    ensures
        alerts_of(findings).contains(alarm),
{
    let le = |a: (Option<u64>, Alarm), b: (Option<u64>, Alarm)| alarm_le(a, b);
    let x = (age_of(findings[k]), alarm);
    let m = alarms_of(findings[k]).index_of(alarm);
    assert(aged_alarms_of(findings[k])[m] == x);
    lemma_flat_map_contains(findings, k, x);
    order::sorting_permutes(all_alarms(findings), le);
    broadcast use vstd::seq_lib::to_multiset_contains;

    assert(all_alarms(findings).to_multiset().count(x) > 0);
    assert(ordered_alarms(findings).contains(x));
    let i = ordered_alarms(findings).index_of(x);
    assert(alerts_of(findings)[i] == alarm);
}

proof fn lemma_flat_map_contains(findings: Seq<Finding>, k: int, x: (Option<u64>, Alarm))
    requires
        0 <= k < findings.len(),
        aged_alarms_of(findings[k]).contains(x),
    ensures
        all_alarms(findings).contains(x),
    decreases findings.len(),
{
    let p = |f: Finding| aged_alarms_of(f);
    let n = findings.len() - 1;
    findings.lemma_flat_map_take_append(p, n);
    assert(findings.take(n + 1) =~= findings);
    assert(findings.take(n) =~= findings.drop_last());
    let rest = findings.drop_last().flat_map(p);
    let last = aged_alarms_of(findings[n]);
    assert(findings.flat_map(p) =~= rest + last);
    if k < n {
        lemma_flat_map_contains(findings.drop_last(), k, x);
        let i = rest.index_of(x);
        assert((rest + last)[i] == x);
    } else {
        let i = last.index_of(x);
        assert((rest + last)[rest.len() + i] == x);
    }
}

/// Every alarm of the Alerts view is one that some finding shows.
pub proof fn alerts_come_from_findings(findings: Seq<Finding>, i: int) -> (k: int)
    requires
        0 <= i < alerts_of(findings).len(),
    ensures
        0 <= k < findings.len(),
        alarms_of(findings[k]).contains(alerts_of(findings)[i]),
        age_of(findings[k]) == ordered_alarms(findings)[i].0,
{
    let le = |a: (Option<u64>, Alarm), b: (Option<u64>, Alarm)| alarm_le(a, b);
    let x = ordered_alarms(findings)[i];
    order::sorting_permutes(all_alarms(findings), le);
    broadcast use vstd::seq_lib::to_multiset_contains;

    assert(ordered_alarms(findings).contains(x));
    assert(ordered_alarms(findings).to_multiset().count(x) > 0);
    let k = lemma_flat_map_source(findings, x);
    let m = aged_alarms_of(findings[k]).index_of(x);
    assert(alarms_of(findings[k])[m] == x.1);
    k
}

proof fn lemma_flat_map_source(findings: Seq<Finding>, x: (Option<u64>, Alarm)) -> (k: int)
    requires
        all_alarms(findings).contains(x),
    ensures
        0 <= k < findings.len(),
        aged_alarms_of(findings[k]).contains(x),
    decreases findings.len(),
{
    let p = |f: Finding| aged_alarms_of(f);
    if findings.len() == 0 {
        assert(findings.flat_map(p) =~= Seq::empty());
        0
    } else {
        let n = findings.len() - 1;
        findings.lemma_flat_map_take_append(p, n);
        assert(findings.take(n + 1) =~= findings);
        assert(findings.take(n) =~= findings.drop_last());
        let rest = findings.drop_last().flat_map(p);
        let last = aged_alarms_of(findings[n]);
        assert(findings.flat_map(p) =~= rest + last);
        let i = (rest + last).index_of(x);
        if i < rest.len() {
            assert(rest[i] == x);
            lemma_flat_map_source(findings.drop_last(), x)
        } else {
            assert(last[i - rest.len()] == x);
            n
        }
    }
}

/// The most recent alarms show first: none shows above a fresher one, and those of one age show by
/// workload and words.
pub proof fn recent_alarms_come_first(findings: Seq<Finding>, i: int, j: int)
    requires
        0 <= i < j < ordered_alarms(findings).len(),
    ensures
        ({
            let (a, b) = (ordered_alarms(findings)[i], ordered_alarms(findings)[j]);
            &&& !is_fresher(b.0, a.0)
            &&& a.0 == b.0 ==> text::text_le(a.1.workload, b.1.workload)
            &&& a.0 == b.0 && a.1.workload == b.1.workload ==> text::text_le(
                a.1.signal,
                b.1.signal,
            )
        }),
        alerts_of(findings).len() == ordered_alarms(findings).len(),
        alerts_of(findings)[i] == ordered_alarms(findings)[i].1,
{
    let le = |a: (Option<u64>, Alarm), b: (Option<u64>, Alarm)| alarm_le(a, b);
    let v = ordered_alarms(findings);
    lemma_alarm_order();
    order::sorting_orders(all_alarms(findings), le);
    assert(le(v[i], v[j]));
    text::lemma_text_le_total(v[i].1.workload, v[j].1.workload);
}

/// Without a blind node there is no caveat, and with one there always is: a quiet view is never
/// taken for safe while the engine is blind.
pub proof fn caveat_iff_blind(readiness: Readiness)
    ensures
        caveat_text(blind_set(readiness)) is Some <==> exists|node: Seq<char>| #[trigger]
            blind_set(readiness).contains(node),
{
    let blind = blind_set(readiness);
    if forall|node: Seq<char>| !(#[trigger] blind.contains(node)) {
        assert(blind =~= Set::<Seq<char>>::empty());
    }
}

} // verus!
