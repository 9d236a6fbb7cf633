//! The Readiness view.

use protector_view::props::readiness::{
    InputStateProps, NodeCoverageStateProps, ParityStateProps,
};
use protector_view::state::{
    InputState, NodeCoverageRow, NodeCoverageState, ParityReport, ParityState, Readiness,
    ReadinessRow,
};
use protector_view::view_model::build_readiness_view;
use protector_view::view_model::readiness::map_readiness;
use protector_view::view_model::readiness_data::{
    self, derive_readiness, BakeStats, ModelHealth, ReadinessConfig,
};
use protector_view::view_model::strip::status_strip;

/// The rows that the inputs derive, as the engine reports them.
fn rows_of(derived: &readiness_data::Readiness) -> Vec<ReadinessRow> {
    derived
        .inputs
        .iter()
        .map(|r| ReadinessRow {
            id: r.id.to_string(),
            label: r.label.to_string(),
            state: match r.state {
                readiness_data::InputState::Present => InputState::Present,
                readiness_data::InputState::Absent => InputState::Absent,
                readiness_data::InputState::Degraded => InputState::Degraded,
            },
            why: r.why.to_string(),
            enable: r.enable.to_string(),
            detail: r.detail.clone(),
            weakens_decisions: r.weakens_decisions,
            nodes: vec![],
        })
        .collect()
}

fn no_parity() -> ParityReport {
    ParityReport {
        state: ParityState::NothingToCompare,
        summary: "nothing to compare".into(),
        falco_corroborated: 0,
        agent_corroborated: 0,
        both: 0,
        agent_uncovered: 0,
        uncovered_entries: vec![],
    }
}

fn row(id: &str, label: &str, state: InputState, weakens_decisions: bool) -> ReadinessRow {
    ReadinessRow {
        id: id.into(),
        label: label.into(),
        state,
        why: "what it is for".into(),
        enable: String::new(),
        detail: String::new(),
        weakens_decisions,
        nodes: vec![],
    }
}

fn covered() -> ReadinessConfig {
    ReadinessConfig {
        model_attached: true,
        kev_count: 5,
        epss_count: 5,
        journal_durable: true,
        armed: false,
    }
}

/// The derived inputs, and the trust root beside them.
fn snapshot(
    config: &ReadinessConfig,
    health: ModelHealth,
    bake: &BakeStats,
    last_pass: Option<u64>,
) -> Readiness {
    let derived = derive_readiness(config, health, bake, last_pass);
    let mut inputs = rows_of(&derived);
    inputs.push(row("tuf-root", "Trust root", InputState::Present, false));
    Readiness {
        inputs,
        warming_up: derived.warming_up,
        model_judging: derived.model_judging,
        parity: no_parity(),
    }
}

#[test]
fn every_input_becomes_a_row_with_state_word_and_why() {
    let mut bake = BakeStats::default();
    bake.signals_by_variant.push(("alert".into(), 1));
    let r = snapshot(&covered(), ModelHealth::Answering, &bake, Some(0));
    let rows = map_readiness(&r);
    assert_eq!(rows.len(), 8);
    for row in &rows {
        assert!(!row.label.is_empty());
        assert!(!row.why.is_empty());
        assert!(!row.state.word().is_empty());
        assert!(!row.state.glyph().is_empty());
    }
}

#[test]
fn an_absent_weakening_input_floats_to_the_top() {
    let mut config = covered();
    config.kev_count = 0;
    let mut bake = BakeStats::default();
    bake.signals_by_variant.push(("alert".into(), 1));
    let r = snapshot(&config, ModelHealth::Answering, &bake, Some(0));
    let rows = map_readiness(&r);
    let kev_pos = rows.iter().position(|row| row.id == "kev").unwrap();
    let model_pos = rows.iter().position(|row| row.id == "model").unwrap();
    assert!(
        kev_pos < model_pos,
        "an absent weakening input (KEV) floats above a present one (model)"
    );
    let kev = &rows[kev_pos];
    assert_eq!(kev.state, InputStateProps::Absent);
    assert!(kev.weakens_decisions);
    assert!(kev.enable.contains("PROTECTOR_KEV_FILE"));
}

#[test]
fn a_degraded_model_reads_degraded_not_absent_or_present() {
    let r = snapshot(
        &covered(),
        ModelHealth::Timeout,
        &BakeStats::default(),
        Some(0),
    );
    let rows = map_readiness(&r);
    let model = rows.iter().find(|row| row.id == "model").unwrap();
    assert_eq!(model.state, InputStateProps::Degraded);
    assert!(!model.state.is_present());
}

#[test]
fn arm_state_is_present_and_never_weakens() {
    let r = snapshot(
        &covered(),
        ModelHealth::Answering,
        &BakeStats::default(),
        Some(0),
    );
    let rows = map_readiness(&r);
    let arm = rows.iter().find(|row| row.id == "arm-state").unwrap();
    assert_eq!(arm.state, InputStateProps::Present);
    assert!(!arm.weakens_decisions);
    assert!(arm.enable.is_empty());
}

#[test]
fn rows_that_are_no_gaps_keep_their_order() {
    let r = Readiness {
        inputs: vec![
            row("a", "A", InputState::Present, true),
            row("b", "B", InputState::Absent, false),
            row("c", "C", InputState::Blind, true),
            row("d", "D", InputState::Present, false),
            row("e", "E", InputState::Stalled, true),
        ],
        warming_up: false,
        model_judging: true,
        parity: no_parity(),
    };
    let ids: Vec<String> = map_readiness(&r).into_iter().map(|row| row.id).collect();
    assert_eq!(ids, ["c", "e", "a", "b", "d"]);
}

#[test]
fn the_whole_view_carries_nodes_and_parity() {
    let mut runtime = row("runtime-corroboration", "Runtime", InputState::Degraded, true);
    runtime.nodes = vec![
        NodeCoverageRow { node: "node-a".into(), state: NodeCoverageState::Healthy, detail: "2 signals".into() },
        NodeCoverageRow { node: "node-b".into(), state: NodeCoverageState::Blind, detail: "dark".into() },
    ];
    let r = Readiness {
        inputs: vec![runtime],
        warming_up: false,
        model_judging: true,
        parity: ParityReport {
            state: ParityState::Uncovered,
            summary: "one workload uncovered".into(),
            falco_corroborated: 3,
            agent_corroborated: 2,
            both: 2,
            agent_uncovered: 1,
            uncovered_entries: vec!["workload/app/Pod/web".into()],
        },
    };
    let strip = status_strip("prod".into(), &r, None, 0, 0, 0, 0, 0);
    let view = build_readiness_view(strip.clone(), &r);
    assert_eq!(view.strip, strip);
    assert_eq!(view.rows[0].state, InputStateProps::Degraded);
    assert_eq!(view.rows[0].nodes.len(), 2);
    assert_eq!(view.rows[0].nodes[1].node, "node-b");
    assert_eq!(view.rows[0].nodes[1].state, NodeCoverageStateProps::Blind);
    assert_eq!(view.rows[0].nodes[1].detail, "dark");
    assert_eq!(view.parity.state, ParityStateProps::Uncovered);
    assert_eq!(view.parity.falco_corroborated, 3);
    assert_eq!(view.parity.agent_corroborated, 2);
    assert_eq!(view.parity.both, 2);
    assert_eq!(view.parity.agent_uncovered, 1);
    assert_eq!(view.parity.uncovered_entries, ["workload/app/Pod/web"]);
    assert_eq!(view.parity.summary, "one workload uncovered");
}
