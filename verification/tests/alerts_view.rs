//! The Alerts view.

use protector_view::graph::{Behavior, Signal};
use protector_view::props::status::StatusStripProps;
use protector_view::state::{
    Delta, EntryEvidence, Finding, InputState, NodeCoverageRow, NodeCoverageState, ParityReport,
    ParityState, Readiness, ReadinessRow, RecencyInfo,
};
use protector_view::text_set::TextSet;
use protector_view::view_model::alerts::{alarming_now_label, blind_nodes_of};
use protector_view::view_model::build_alerts_view;
use protector_view::view_model::findings::finding_props;
use protector_view::view_model::strip::status_strip;

fn behavior(signal: Signal) -> Behavior {
    Behavior {
        signal,
        variant: "v".into(),
        summary: "s".into(),
        notable_exec: None,
        alarming_write: None,
        foothold_peer: None,
    }
}

fn alert(rule: &str) -> Behavior {
    behavior(Signal::Alert { rule: rule.into() })
}

fn finding(entry: &str, runtime: Vec<Behavior>) -> Finding {
    Finding {
        entry: entry.into(),
        objective: "secret/app/db".into(),
        foothold: true,
        corroborated: false,
        disposition: "auto-eligible".into(),
        cut: None,
        breach_relevant: true,
        verdict: None,
        path: vec![],
        paths: vec![],
        paths_truncated: false,
        evidence: EntryEvidence { runtime, ..Default::default() },
        recency: None,
        node: None,
    }
}

fn readiness(nodes: &[(&str, NodeCoverageState)]) -> Readiness {
    Readiness {
        inputs: vec![ReadinessRow {
            id: "runtime-corroboration".into(),
            label: "Runtime corroboration".into(),
            state: InputState::Degraded,
            why: String::new(),
            enable: String::new(),
            detail: String::new(),
            weakens_decisions: true,
            nodes: nodes
                .iter()
                .map(|(n, s)| NodeCoverageRow {
                    node: n.to_string(),
                    state: *s,
                    detail: String::new(),
                })
                .collect(),
        }],
        warming_up: false,
        model_judging: true,
        parity: ParityReport {
            state: ParityState::Parity,
            summary: String::new(),
            falco_corroborated: 0,
            agent_corroborated: 0,
            both: 0,
            agent_uncovered: 0,
            uncovered_entries: vec![],
        },
    }
}

fn strip(r: &Readiness) -> StatusStripProps {
    status_strip("prod".into(), r, None, 0, 0, 0, 0, 0)
}

#[test]
fn each_class_of_behavior_has_its_words() {
    let text = |b: &Behavior| alarming_now_label(b).map(|(k, s)| (k.to_string(), s));
    assert_eq!(
        text(&alert("Terminal shell")),
        Some(("alert".into(), "sensor rule fired: Terminal shell".into()))
    );
    let mut exec = behavior(Signal::ProcessExec { path: "/bin/sh".into() });
    assert_eq!(text(&exec), None);
    exec.notable_exec = Some("shell".into());
    assert_eq!(text(&exec), Some(("exec".into(), "notable exec: shell (/bin/sh)".into())));
    let mut write = behavior(Signal::FileWrite { path: "/etc/cron.d/x".into() });
    write.alarming_write = Some("persistence write".into());
    assert_eq!(text(&write), Some(("write".into(), "persistence write: /etc/cron.d/x".into())));
    let mut peer = behavior(Signal::NetworkConnection { peer: "1.2.3.4".into(), internet: true });
    peer.foothold_peer = Some("the metadata service".into());
    assert_eq!(
        text(&peer),
        Some(("peer".into(), "contacted the metadata service (1.2.3.4)".into()))
    );
    assert_eq!(text(&behavior(Signal::Other)), None);
}

#[test]
fn the_alerts_and_the_rows_agree() {
    let r = readiness(&[]);
    let f = finding("workload/app/Pod/web", vec![alert("b"), alert("a")]);
    let view = build_alerts_view(strip(&r), &[f.clone()], &r);
    let words: Vec<&str> = view.alerts.iter().map(|a| a.signal.as_str()).collect();
    assert_eq!(words, ["sensor rule fired: a", "sensor rule fired: b"]);
    assert_eq!(view.alerts[0].on_chain.as_deref(), Some("app/Pod/web \u{2192} app/db"));
    let mut row = finding_props(&f, &[], &TextSet::new()).alerts;
    row.sort_by(|a, b| a.signal.cmp(&b.signal));
    assert_eq!(row, view.alerts);
}

#[test]
fn fresh_alarms_come_first_then_by_workload() {
    let r = readiness(&[]);
    let mut aged = finding("workload/app/Pod/a", vec![alert("x")]);
    aged.recency = Some(RecencyInfo { delta: Delta::Unchanged, age_secs: Some(120) });
    let mut off_chain = finding("workload/app/Pod/c", vec![alert("x")]);
    off_chain.breach_relevant = false;
    let fresh = finding("workload/app/Pod/b", vec![alert("x")]);
    let view = build_alerts_view(strip(&r), &[aged, off_chain, fresh], &r);
    let rows: Vec<(&str, &str)> =
        view.alerts.iter().map(|a| (a.workload.as_str(), a.recency.as_str())).collect();
    assert_eq!(
        rows,
        [("app/Pod/b", "this pass"), ("app/Pod/c", "this pass"), ("app/Pod/a", "2m ago")]
    );
    assert_eq!(view.alerts[1].on_chain, None);
}

#[test]
fn a_quiet_view_says_which_nodes_are_blind() {
    let r = readiness(&[
        ("node-b", NodeCoverageState::Blind),
        ("node-c", NodeCoverageState::Healthy),
        ("node-a", NodeCoverageState::Blind),
        ("node-a", NodeCoverageState::Blind),
    ]);
    let blind = blind_nodes_of(&r);
    assert_eq!(blind.len(), 2);
    assert!(blind.contains("node-a") && !blind.contains("node-c"));
    let caveat = build_alerts_view(strip(&r), &[], &r).blind_caveat.expect("two nodes are blind");
    assert!(caveat.starts_with("no live runtime sensor on: node-a, node-b \u{2014} "), "{caveat}");
    let seen = readiness(&[("node-a", NodeCoverageState::Healthy)]);
    assert_eq!(build_alerts_view(strip(&seen), &[], &seen).blind_caveat, None);
}

#[test]
fn the_most_recent_alarm_comes_first() {
    let r = readiness(&[]);
    let mut f = finding("workload/a/Pod/a", vec![alert("x")]);
    f.recency = Some(RecencyInfo { delta: Delta::Unchanged, age_secs: Some(172_800) });
    let mut g = finding("workload/z/Pod/z", vec![alert("x")]);
    g.recency = Some(RecencyInfo { delta: Delta::Unchanged, age_secs: Some(5) });
    let view = build_alerts_view(strip(&r), &[f, g], &r);
    assert_eq!(view.alerts.len(), 2);
    assert_eq!(view.alerts[0].workload, "z/Pod/z");
    assert_eq!(view.alerts[1].recency, "2d ago");
}
