//! The views as a whole.

use protector_view::props::findings::Posture;
use protector_view::state::{
    CoverageAlert, CoverageState, Delta, EntryEvidence, Finding, InputState, ParityReport,
    ParityState, PolicyDecisionRecord, Readiness, ReadinessRow, RecencyInfo, Tier, Verdict,
};
use protector_view::view_model::access::DisclosureLabels;
use protector_view::view_model::report_data::Report;
use protector_view::view_model::{
    build_access_view, build_action_view, build_admission_view, build_findings_view,
    build_status_strip, coverage_stall_alert, signing_regression_counts,
};

fn finding(entry: &str, verdict: Option<Verdict>) -> Finding {
    Finding {
        entry: entry.into(),
        objective: "secret/app/db".into(),
        foothold: true,
        corroborated: false,
        disposition: "auto-eligible".into(),
        cut: None,
        breach_relevant: true,
        verdict,
        path: vec![],
        paths: vec![],
        paths_truncated: false,
        evidence: EntryEvidence::default(),
        recency: None,
        node: None,
    }
}

fn readiness() -> Readiness {
    Readiness {
        inputs: vec![ReadinessRow {
            id: "model".into(),
            label: "Model adjudicator".into(),
            state: InputState::Present,
            why: String::new(),
            enable: String::new(),
            detail: String::new(),
            weakens_decisions: true,
            nodes: vec![],
        }],
        warming_up: false,
        model_judging: true,
        parity: ParityReport {
            state: ParityState::NothingToCompare,
            summary: String::new(),
            falco_corroborated: 0,
            agent_corroborated: 0,
            both: 0,
            agent_uncovered: 0,
            uncovered_entries: vec![],
        },
    }
}

fn mixed() -> Vec<Finding> {
    let mut escalated = finding("endpoint/e", Some(Verdict::Refuted("ok".into())));
    escalated.recency = Some(RecencyInfo { delta: Delta::Escalated, age_secs: None });
    let mut hidden = finding("endpoint/h", Some(Verdict::Confirmed));
    hidden.breach_relevant = false;
    vec![
        finding("endpoint/a", Some(Verdict::Confirmed)),
        finding("endpoint/b", Some(Verdict::Exploitable("RCE".into()))),
        finding("endpoint/c", None),
        finding("endpoint/d", Some(Verdict::Uncertain("timeout".into()))),
        escalated,
        hidden,
    ]
}

#[test]
fn the_strip_counts_the_rows() {
    let view = build_findings_view("prod".into(), &mixed(), &[], &readiness(), Some(12));
    assert_eq!(view.findings.len(), 5);
    let s = &view.strip;
    assert_eq!(
        (s.breach_count, s.awaiting_count, s.uncertain_count, s.cleared_count, s.escalated_count),
        (2, 1, 1, 1, 1)
    );
    assert_eq!(s.last_pass.as_deref(), Some("12s ago"));
    assert!(!s.all_clear());
}

#[test]
fn a_tab_without_findings_carries_their_counts() {
    let strip = build_status_strip("prod".into(), &mixed(), &[], &readiness(), Some(12));
    let view = build_findings_view("prod".into(), &mixed(), &[], &readiness(), Some(12));
    assert_eq!(strip, view.strip);
}

#[test]
fn a_clear_strip_has_cleared_rows_only() {
    let fs = [finding("endpoint/a", Some(Verdict::Refuted("internal".into())))];
    let view = build_findings_view("prod".into(), &fs, &[], &readiness(), Some(0));
    assert!(view.strip.all_clear());
    assert!(view.findings.iter().all(|r| r.posture == Posture::Cleared));
    assert_eq!(view.strip.judging_state(), "all-clear");
}

#[test]
fn only_a_stall_has_a_banner() {
    let alert = CoverageAlert {
        feed_label: "Runtime".into(),
        last_observation: None,
        message: "went dark".into(),
    };
    let banner = coverage_stall_alert(&CoverageState::Stalled(alert)).expect("it stalled");
    assert_eq!(banner.feed_label, "Runtime");
    assert_eq!(banner.last_observation, None);
    assert_eq!(banner.message, "went dark");
    for state in [CoverageState::Covered, CoverageState::Degraded, CoverageState::Absent] {
        assert!(coverage_stall_alert(&state).is_none());
    }
}

#[test]
fn regressions_fold_into_the_strip() {
    let row = PolicyDecisionRecord {
        policy: "signing-regression".into(),
        decision: "allow".into(),
        subject: "SigningRegression/ghcr.io/acme/app".into(),
        image: "ghcr.io/acme/app:2".into(),
        signature: "regression-unsigned-established".into(),
        mesh: String::new(),
        namespace: String::new(),
        reason: "now not signed (was signed) | before: a".into(),
        would_admit: false,
        count: 1,
        at_ms: 0,
    };
    let (established, cold) = signing_regression_counts(&[row.clone()]);
    assert_eq!((established, cold), (1, 0));
    let strip = build_status_strip("prod".into(), &[], &[], &readiness(), None);
    assert!(strip.all_clear());
    let strip = strip.with_signing_regressions(established, cold);
    assert!(!strip.all_clear() && !strip.watching());
    let view = build_admission_view(strip.clone(), &[row]);
    assert_eq!(view.strip, strip);
    assert_eq!((view.total, view.rows.len(), view.signing.len()), (0, 0, 1));
}

#[test]
fn every_view_keeps_its_strip() {
    let strip = build_status_strip("prod".into(), &mixed(), &[], &readiness(), None);
    let report = Report {
        window_secs: 3600,
        short_lived_secs: 300,
        decisions_in_window: 0,
        journal_empty: true,
        would_act: vec![],
        left_alone: vec![],
    };
    assert_eq!(build_action_view(strip.clone(), &report, &[], &[], 0).strip, strip);
    let labels = DisclosureLabels { bulk_scope: "(bulk)".into(), withheld: "(withheld)".into() };
    let view = build_access_view(strip.clone(), Tier::Raw, &[], true, &labels, 0);
    assert_eq!(view.strip, strip);
}
