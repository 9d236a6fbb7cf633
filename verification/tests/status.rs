//! The status line.

use protector_view::state::{EntryEvidence, Finding, Verdict};
use protector_view::view_model::readiness_data::{
    derive_readiness, BakeStats, ModelHealth, Readiness, ReadinessConfig,
};
use protector_view::view_model::status::{status_props, StatusTone};

fn entry_finding(entry: &str, verdict: Option<Verdict>) -> Finding {
    Finding {
        entry: entry.into(),
        objective: "secret/app/s".into(),
        foothold: true,
        corroborated: false,
        disposition: "no-cut".into(),
        cut: None,
        breach_relevant: true,
        verdict,
        path: vec![],
        paths: vec![],
        paths_truncated: false,
        evidence: EntryEvidence::default(),
        recency: None,
        node: None,
    }
}

fn covered_judging() -> Readiness {
    let mut bake = BakeStats::default();
    bake.signals_by_variant.push(("alert".into(), 1));
    bake.signals_by_variant.push(("connection".into(), 1));
    derive_readiness(
        &ReadinessConfig {
            model_attached: true,
            kev_count: 1,
            epss_count: 1,
            journal_durable: true,
            armed: false,
        },
        ModelHealth::Answering,
        &bake,
        Some(0),
    )
}

#[test]
fn breach_entry_makes_the_line_loud() {
    let fs = vec![entry_finding(
        "web",
        Some(Verdict::Exploitable("CVE-x".into())),
    )];
    let p = status_props(&fs, Some(0), &covered_judging());
    assert_eq!(p.tone, StatusTone::Breach);
    assert_eq!(p.breach, 1);
    assert_eq!(p.endpoints, 1);
    assert_eq!(p.awaiting, 0);
}

#[test]
fn all_clear_and_covered_reads_green() {
    let fs = vec![entry_finding(
        "web",
        Some(Verdict::Refuted("internal".into())),
    )];
    let p = status_props(&fs, Some(0), &covered_judging());
    assert_eq!(p.tone, StatusTone::Clear);
    assert_eq!(p.breach, 0);
    assert_eq!(p.coverage_pct, 100);
    assert_eq!(p.model_clause, "model live");
}

#[test]
fn model_down_is_blind_not_calm() {
    let r = derive_readiness(
        &ReadinessConfig {
            model_attached: true,
            kev_count: 1,
            epss_count: 1,
            journal_durable: true,
            armed: false,
        },
        ModelHealth::Timeout,
        &{
            let mut b = BakeStats::default();
            b.signals_by_variant.push(("alert".into(), 1));
            b.signals_by_variant.push(("connection".into(), 1));
            b
        },
        Some(0),
    );
    let fs = vec![entry_finding("web", None)];
    let p = status_props(&fs, Some(0), &r);
    assert_eq!(p.tone, StatusTone::Blind);
    assert_eq!(p.model_clause, "model down — not judging");
    assert_eq!(p.awaiting, 1);
}

#[test]
fn missing_input_is_blind_even_with_model_live() {
    let r = derive_readiness(
        &ReadinessConfig {
            model_attached: true,
            kev_count: 0,
            epss_count: 1,
            journal_durable: true,
            armed: false,
        },
        ModelHealth::Answering,
        &{
            let mut b = BakeStats::default();
            b.signals_by_variant.push(("alert".into(), 1));
            b.signals_by_variant.push(("connection".into(), 1));
            b
        },
        Some(0),
    );
    let fs: Vec<Finding> = vec![];
    let p = status_props(&fs, Some(0), &r);
    assert_eq!(p.tone, StatusTone::Blind);
    assert!(p.coverage_pct < 100);
}

#[test]
fn tones_have_their_classes() {
    assert_eq!(StatusTone::Breach.css(), "s-breach");
    assert_ne!(StatusTone::Blind.css(), StatusTone::Clear.css());
}

#[test]
fn an_entry_counts_once_and_at_its_loudest() {
    let fs = vec![
        entry_finding("web", Some(Verdict::Refuted("internal".into()))),
        entry_finding("web", Some(Verdict::Confirmed)),
        entry_finding("db", None),
    ];
    let p = status_props(&fs, Some(30), &covered_judging());
    assert_eq!((p.endpoints, p.breach, p.awaiting), (2, 1, 1));
    assert_eq!(p.pass_age, "30s ago");
}

#[test]
fn an_uncertain_entry_is_judged_and_not_awaiting() {
    let fs = vec![entry_finding("web", Some(Verdict::Uncertain("no idea".into())))];
    let p = status_props(&fs, Some(0), &covered_judging());
    assert_eq!((p.endpoints, p.breach, p.awaiting), (1, 0, 0));
}
