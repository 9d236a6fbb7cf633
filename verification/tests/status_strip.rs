//! The status strip.

use protector_view::state::{
    CoverageAlert, CoverageState, InputState, NodeCoverageState, ParityReport, ParityState,
    Readiness, ReadinessRow,
};
use protector_view::view_model::coverage_stall_alert;
use protector_view::view_model::readiness_data::{
    self, derive_readiness, BakeStats, ModelHealth, ReadinessConfig,
};
use protector_view::view_model::strip::status_strip;

/// The rows that the inputs derive, as the engine reports them.
fn rows_of(derived: &readiness_data::Readiness) -> Vec<ReadinessRow> {
    derived
        .inputs
        .iter()
        .map(|r| ReadinessRow {
            id: r.id.to_string(),
            label: r.label.to_string(),
            state: match r.state {
                readiness_data::InputState::Present => InputState::Present,
                readiness_data::InputState::Absent => InputState::Absent,
                readiness_data::InputState::Degraded => InputState::Degraded,
            },
            why: r.why.to_string(),
            enable: r.enable.to_string(),
            detail: r.detail.clone(),
            weakens_decisions: r.weakens_decisions,
            nodes: vec![],
        })
        .collect()
}

fn no_parity() -> ParityReport {
    ParityReport {
        state: ParityState::NothingToCompare,
        summary: "nothing to compare".into(),
        falco_corroborated: 0,
        agent_corroborated: 0,
        both: 0,
        agent_uncovered: 0,
        uncovered_entries: vec![],
    }
}

fn row(id: &str, label: &str, state: InputState, weakens_decisions: bool) -> ReadinessRow {
    ReadinessRow {
        id: id.into(),
        label: label.into(),
        state,
        why: "what it is for".into(),
        enable: String::new(),
        detail: String::new(),
        weakens_decisions,
        nodes: vec![],
    }
}

fn covered() -> ReadinessConfig {
    ReadinessConfig {
        model_attached: true,
        kev_count: 5,
        epss_count: 5,
        journal_durable: true,
        armed: false,
    }
}

/// The derived inputs, with one row for runtime corroboration in place of a row for each sensor.
fn snapshot(
    config: &ReadinessConfig,
    health: ModelHealth,
    last_pass: Option<u64>,
    nodes: &[(&str, NodeCoverageState)],
) -> Readiness {
    let derived = derive_readiness(config, health, &BakeStats::default(), last_pass);
    let mut inputs: Vec<ReadinessRow> = rows_of(&derived)
        .into_iter()
        .filter(|r| r.id != "falco" && r.id != "ebpf-agent")
        .collect();
    let blind = nodes.iter().filter(|(_, s)| *s == NodeCoverageState::Blind).count();
    let state = if nodes.is_empty() {
        InputState::Absent
    } else if blind == nodes.len() {
        InputState::Blind
    } else if blind > 0 {
        InputState::Degraded
    } else {
        InputState::Present
    };
    inputs.push(row("runtime-corroboration", "Runtime corroboration", state, true));
    Readiness {
        inputs,
        warming_up: derived.warming_up,
        model_judging: derived.model_judging,
        parity: no_parity(),
    }
}

/// The readiness with the runtime row escalated, where the feed stalled.
fn with_coverage_stall(mut r: Readiness, state: &CoverageState) -> Readiness {
    if matches!(state, CoverageState::Stalled(_)) {
        for row in r.inputs.iter_mut() {
            if row.id == "runtime-corroboration" {
                row.state = InputState::Stalled;
            }
        }
    }
    r
}

#[test]
fn judging_model_strip_is_honest_calm() {
    let cov: Vec<(&str, NodeCoverageState)> = Vec::from([("node-a", NodeCoverageState::Healthy)]);
    let r = snapshot(&covered(), ModelHealth::Answering, Some(0), &cov);
    let strip = status_strip("prod".into(), &r, Some(0), 0, 0, 0, 3, 0);
    assert!(strip.model_is_up());
    assert!(strip.all_clear());
    assert!(!strip.watching());
    assert!(!strip.armed);
    assert!(strip.coverage.iter().all(|c| c.label != "eBPF"));
    let runtime = strip
        .coverage
        .iter()
        .find(|c| c.label == "Runtime")
        .unwrap();
    assert!(runtime.present);
    assert!(!runtime.degraded);
}

#[test]
fn a_blind_node_degrades_the_runtime_chip() {
    let cov: Vec<(&str, NodeCoverageState)> = Vec::from([
        ("node-a", NodeCoverageState::Healthy),
        (
            "node-b",
            NodeCoverageState::Blind,
        ),
    ]);
    let r = snapshot(&covered(), ModelHealth::Answering, Some(0), &cov);
    let strip = status_strip("prod".into(), &r, Some(0), 0, 0, 0, 3, 0);
    let runtime = strip
        .coverage
        .iter()
        .find(|c| c.label == "Runtime")
        .unwrap();
    assert!(
        runtime.degraded,
        "a blind node degrades the corroboration chip"
    );
    assert!(
        !strip.all_clear(),
        "a degraded feed forbids the green all-clear"
    );
}

#[test]
fn a_stalled_runtime_feed_is_loud_but_leaves_judging_independent() {
    let cov: Vec<(&str, NodeCoverageState)> = Vec::from([("node-a", NodeCoverageState::Healthy)]);
    let stalled = CoverageState::Stalled(CoverageAlert {
        feed_label: "Runtime".into(),
        last_observation: Some("2m ago".into()),
        message: "runtime corroboration stalled — all 1 sensor node went dark".into(),
    });
    let r = snapshot(&covered(), ModelHealth::Answering, Some(0), &cov);
    let r = with_coverage_stall(r, &stalled);
    let strip = status_strip("prod".into(), &r, Some(0), 0, 0, 0, 3, 0)
        .with_coverage_stall(coverage_stall_alert(&stalled));

    let runtime = strip
        .coverage
        .iter()
        .find(|c| c.label == "Runtime")
        .unwrap();
    assert!(runtime.stalled, "the covering feed reads stalled");
    assert!(!runtime.present && !runtime.degraded);
    assert!(
        !strip.all_clear(),
        "a stalled feed forbids the green all-clear"
    );
    assert!(strip.coverage_alert.is_some(), "the banner ships");
    assert!(
        strip.model_is_up(),
        "a coverage stall does not downgrade model judging"
    );
    assert_ne!(strip.judging_state(), "blind");
    assert_ne!(strip.judging_state(), "no-model");
}

#[test]
fn absent_coverage_is_muted_not_stalled() {
    let absent = CoverageState::Absent;
    assert!(coverage_stall_alert(&absent).is_none());
    let cov: Vec<(&str, NodeCoverageState)> = Vec::from([("node-a", NodeCoverageState::Healthy)]);
    let r = snapshot(&covered(), ModelHealth::Answering, Some(0), &cov);
    let r = with_coverage_stall(r, &absent);
    let strip = status_strip("prod".into(), &r, Some(0), 0, 0, 0, 3, 0)
        .with_coverage_stall(coverage_stall_alert(&absent));
    assert!(strip.coverage_alert.is_none());
    assert!(strip.all_clear());
}

#[test]
fn timed_out_model_strip_is_not_calm() {
    let r = snapshot(
        &covered(),
        ModelHealth::Timeout,
        Some(0),
        &[],
    );
    let strip = status_strip("prod".into(), &r, Some(0), 0, 0, 0, 0, 0);
    assert!(!strip.model_is_up());
    assert!(!strip.all_clear());
    assert!(!strip.watching()); // model down ⇒ neither all-clear nor watching
    assert!(strip.model_attached); // configured, just not answering
}

#[test]
fn warming_strip_is_not_calm() {
    let r = snapshot(
        &covered(),
        ModelHealth::Unknown,
        None,
        &[],
    );
    let strip = status_strip("prod".into(), &r, None, 0, 0, 0, 0, 0);
    assert!(!strip.model_is_up());
    assert!(!strip.all_clear());
    assert!(strip.warming_up);
    assert!(strip.last_pass.is_none());
}

#[test]
fn established_signing_regression_forbids_green_and_watching() {
    let r = snapshot(
        &covered(),
        ModelHealth::Answering,
        Some(0),
        &[],
    );
    let strip = status_strip("prod".into(), &r, Some(0), 0, 0, 0, 3, 0)
        .with_signing_regressions(1, 0);
    assert!(strip.has_signing_regression());
    assert!(
        !strip.all_clear(),
        "a standing regression can never read as green"
    );
    assert!(
        !strip.watching(),
        "an established regression is louder than the calm watching register"
    );
}

#[test]
fn cold_signing_regression_is_watching_not_green() {
    let r = snapshot(
        &covered(),
        ModelHealth::Answering,
        Some(0),
        &[],
    );
    let strip = status_strip("prod".into(), &r, Some(0), 0, 0, 0, 3, 0)
        .with_signing_regressions(0, 1);
    assert!(!strip.all_clear(), "a cold regression still forbids green");
    assert!(
        strip.watching(),
        "a cold regression reads as the calm watching register"
    );
}

#[test]
fn judging_with_pending_entries_is_watching_not_all_clear() {
    let r = snapshot(
        &covered(),
        ModelHealth::Answering,
        Some(0),
        &[],
    );
    let strip = status_strip("prod".into(), &r, Some(0), 0, 1, 1, 4, 0);
    assert!(strip.model_is_up());
    assert!(
        !strip.all_clear(),
        "pending entries forbid the green all-clear"
    );
    assert!(
        strip.watching(),
        "it is the elevated watching state instead"
    );
}

#[test]
fn a_wholly_dark_feed_is_blind_and_not_degraded() {
    let cov = [("node-a", NodeCoverageState::Blind)];
    let r = snapshot(&covered(), ModelHealth::Answering, Some(0), &cov);
    let strip = status_strip("prod".into(), &r, Some(30), 0, 0, 0, 0, 0);
    let labels: Vec<&str> = strip.coverage.iter().map(|c| c.label.as_str()).collect();
    assert_eq!(labels, ["KEV", "EPSS", "Runtime"]);
    let runtime = &strip.coverage[2];
    assert!(runtime.blind && !runtime.present && !runtime.degraded && !runtime.stalled);
    assert!(!strip.all_clear());
    assert_eq!(strip.last_pass.as_deref(), Some("30s ago"));
    assert_eq!(strip.cluster, "prod");
}

#[test]
fn an_enforcing_engine_is_armed() {
    let mut config = covered();
    config.armed = true;
    let r = snapshot(&config, ModelHealth::Answering, Some(0), &[]);
    assert!(status_strip("prod".into(), &r, None, 0, 0, 0, 0, 0).armed);
}

#[test]
fn feeds_without_a_row_have_no_chip() {
    let r = Readiness {
        inputs: vec![row("epss", "EPSS", InputState::Absent, true)],
        warming_up: false,
        model_judging: true,
        parity: no_parity(),
    };
    let strip = status_strip("prod".into(), &r, Some(7200), 1, 2, 3, 4, 5);
    assert_eq!(strip.coverage.len(), 1);
    assert_eq!(strip.coverage[0].label, "EPSS");
    assert!(!strip.coverage[0].present);
    assert_eq!(strip.last_pass.as_deref(), Some("2h ago"));
    assert_eq!(
        (
            strip.breach_count,
            strip.awaiting_count,
            strip.uncertain_count,
            strip.cleared_count,
            strip.escalated_count
        ),
        (1, 2, 3, 4, 5)
    );
    assert!(!strip.model_attached);
}
