//! The engine's internals.

use protector_view::state::ReversionRecord;
use protector_view::view_model::internals::internals_props;
use protector_view::view_model::readiness_data::{
    derive_readiness, BakeStats, ModelHealth, Readiness, ReadinessConfig,
};

const NOW: u64 = 1_700_000_000_000;

fn readiness() -> Readiness {
    derive_readiness(
        &ReadinessConfig::default(),
        ModelHealth::Unknown,
        &BakeStats::default(),
        Some(0),
    )
}

#[test]
fn coverage_rows_mirror_readiness_and_flag_unmet() {
    let p = internals_props(&readiness(), &[], &BakeStats::default(), NOW);
    assert!(!p.coverage.is_empty());
    assert!(p.coverage_unmet, "default config is all-absent → unmet");
    let model = p
        .coverage
        .iter()
        .find(|r| r.label == "Model adjudicator")
        .unwrap();
    assert_eq!(model.state, "absent");
    assert!(model.weakens);
}

#[test]
fn bake_rows_carry_the_counts() {
    let mut bake = BakeStats::default();
    bake.signals_by_variant.push(("exec".into(), 4));
    bake.corroborations = 2;
    let p = internals_props(&readiness(), &[], &bake, NOW);
    let signals = p
        .bake
        .iter()
        .find(|r| r.label == "signals this pass")
        .unwrap();
    assert_eq!(signals.value, "4");
    let corr = p
        .bake
        .iter()
        .find(|r| r.label == "corroborations this pass")
        .unwrap();
    assert_eq!(corr.value, "2");
}

#[test]
fn reversion_rows_render_cut_reason_and_age() {
    let rev = ReversionRecord {
        cut: "a -[reaches]-> b".into(),
        reason: "breach condition cleared".into(),
        at_ms: NOW,
    };
    let p = internals_props(&readiness(), &[rev], &BakeStats::default(), NOW);
    assert_eq!(p.reversions.len(), 1);
    assert_eq!(p.reversions[0].cut, "a -[reaches]-> b");
    assert_eq!(p.reversions[0].reason, "breach condition cleared");
}

#[test]
fn a_reversion_says_how_long_ago_it_was() {
    let rev = ReversionRecord {
        cut: "a -[reaches]-> b".into(),
        reason: "cleared".into(),
        at_ms: NOW - 90_000,
    };
    let p = internals_props(&readiness(), &[rev], &BakeStats::default(), NOW);
    assert_eq!(p.reversions[0].ago, "1m ago");
}

#[test]
fn a_gap_that_weakens_nothing_is_no_unmet_coverage() {
    let mut bake = BakeStats::default();
    bake.signals_by_variant = vec![("alert".into(), 1), ("connection".into(), 1)];
    let config = ReadinessConfig {
        model_attached: true,
        kev_count: 1,
        epss_count: 1,
        journal_durable: false,
        armed: false,
    };
    let readiness = derive_readiness(&config, ModelHealth::Answering, &bake, Some(0));
    assert!(readiness.has_unmet());
    let p = internals_props(&readiness, &[], &bake, NOW);
    assert!(!p.coverage_unmet);
    assert_eq!(p.coverage.len(), 7);
}
