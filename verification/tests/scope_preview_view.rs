//! The scope preview.

use protector_view::props::status::StatusStripProps;
use protector_view::view_model::scope_preview::{build, StandingCut};

const ACTION: &str = "add a scoped deny NetworkPolicy/AuthorizationPolicy";

fn strip() -> StatusStripProps {
    StatusStripProps {
        cluster: "prod-test".into(),
        armed: false,
        model_judging: true,
        warming_up: false,
        model_attached: true,
        coverage: vec![],
        coverage_alert: None,
        last_pass: None,
        breach_count: 0,
        awaiting_count: 0,
        uncertain_count: 0,
        cleared_count: 0,
        escalated_count: 0,
        signing_regression_breach: 0,
        signing_regression_uncertain: 0,
    }
}

fn standing_cut(from: &str, to: &str, alive: Vec<String>, unknown: bool) -> StandingCut {
    StandingCut {
        cut: format!("{from} -[reaches/Tcp/5432]-> {to}"),
        action: ACTION.to_string(),
        alive_collateral: alive,
        reachability_incomplete: unknown,
        covered: true,
    }
}

#[test]
fn empty_candidate_echoes_back_empty_and_flags_itself() {
    let standing = vec![standing_cut("workload/app/Pod/web", "workload/app/Pod/db", vec![], false)];
    let view = build(strip(), &standing, &vec![], &vec![]);
    assert!(view.candidate_namespaces.is_empty());
    assert!(view.candidate_labels.is_empty());
    assert!(view.candidate_is_empty);
    assert!(
        view.would_fire.is_empty(),
        "an empty candidate scope must fire nothing"
    );
    assert_eq!(view.held_out_of_scope.len(), 1);
}

#[test]
fn in_scope_cut_carries_its_collateral_and_mechanism() {
    let standing = vec![standing_cut(
        "workload/app/Pod/web",
        "workload/app/Pod/db",
        vec!["workload/app/Pod/metrics".to_string()],
        false,
    )];
    let namespaces = vec!["app".to_string()];
    let view = build(strip(), &standing, &namespaces, &vec![]);
    assert!(!view.candidate_is_empty);
    assert_eq!(view.candidate_namespaces, vec!["app".to_string()]);
    assert_eq!(view.would_fire.len(), 1);
    let fired = &view.would_fire[0];
    assert_eq!(
        fired.alive_collateral,
        vec!["workload/app/Pod/metrics".to_string()]
    );
    assert!(!fired.collateral_unknown);
    assert_eq!(fired.action, ACTION);
}

#[test]
fn candidate_labels_echo_back_as_key_equals_value() {
    let labels = vec![("tier".to_string(), "prod".to_string())];
    let view = build(strip(), &[], &vec![], &labels);
    assert_eq!(view.candidate_labels, vec!["tier=prod".to_string()]);
    assert!(!view.candidate_is_empty);
}

#[test]
fn collateral_unknown_flag_survives_into_the_props() {
    let standing = vec![standing_cut("workload/app/Pod/web", "workload/app/Pod/db", vec![], true)];
    let namespaces = vec!["app".to_string()];
    let view = build(strip(), &standing, &namespaces, &vec![]);
    assert!(view.would_fire[0].collateral_unknown);
    assert!(view.would_fire[0].alive_collateral.is_empty());
}

#[test]
fn a_cut_out_of_scope_is_held() {
    let mut held = standing_cut("workload/web/Pod/a", "workload/web/Pod/b", vec![], false);
    held.covered = false;
    let fires = standing_cut("workload/app/Pod/web", "workload/app/Pod/db", vec![], false);
    let view = build(strip(), &[held, fires], &vec!["app".to_string()], &vec![]);
    assert_eq!(view.would_fire.len(), 1);
    assert_eq!(view.would_fire[0].cut, "workload/app/Pod/web -[reaches/Tcp/5432]-> workload/app/Pod/db");
    assert_eq!(view.held_out_of_scope.len(), 1);
    assert_eq!(view.held_out_of_scope[0].cut, "workload/web/Pod/a -[reaches/Tcp/5432]-> workload/web/Pod/b");
    assert_eq!(view.held_out_of_scope[0].action, ACTION);
}
