//! The policy decisions.

use protector_view::state::PolicyDecisionRecord;
use protector_view::view_model::policy::{
    decision_tone, policy_props, summarize, DecisionTallies, PolicyProps,
};

const NOW: u64 = 1_700_000_000_000;

fn record(
    decision: &str,
    subject: &str,
    image: &str,
    signature: &str,
    mesh: &str,
    ns: &str,
    reason: &str,
) -> PolicyDecisionRecord {
    PolicyDecisionRecord {
        policy: "admission".into(),
        decision: decision.into(),
        subject: subject.into(),
        image: image.into(),
        signature: signature.into(),
        mesh: mesh.into(),
        namespace: ns.into(),
        reason: reason.into(),
        would_admit: false,
        count: 1,
        at_ms: NOW,
    }
}

fn props(records: &[PolicyDecisionRecord]) -> PolicyProps {
    let mut t = DecisionTallies::default();
    for r in records {
        match r.decision.as_str() {
            "allow" => t.admitted += r.count,
            "audit" => t.audited += r.count,
            "deny" => t.denied += r.count,
            _ => {}
        }
    }
    policy_props(records, t, NOW, NOW)
}

#[test]
fn empty_decisions_have_no_rows_but_carry_a_since() {
    let p = policy_props(&[], DecisionTallies::default(), NOW, NOW);
    assert!(p.rows.is_empty());
    assert_eq!(p.admitted, 0);
    assert_eq!(
        p.since, "just now",
        "empty state still reports a since-boot time"
    );
}

#[test]
fn props_resolve_every_field_and_the_when() {
    let p = props(&[record(
        "deny",
        "Pod/web",
        "ghcr.io/org/app:1",
        "unsigned",
        "meshed",
        "payments",
        "unsigned or untrusted image(s): ghcr.io/org/app:1",
    )]);
    assert_eq!(p.rows.len(), 1);
    let row = &p.rows[0];
    assert_eq!(row.decision, "deny");
    assert_eq!(row.subject, "Pod/web");
    assert_eq!(row.image, "ghcr.io/org/app:1");
    assert_eq!(row.namespace, "payments");
    assert_eq!(
        row.reason,
        "unsigned or untrusted image(s): ghcr.io/org/app:1"
    );
    assert_eq!(row.when, "just now");
}

#[test]
fn clean_admit_reads_safe_with_signed_meshed_summary() {
    let p = props(&[record(
        "allow", "Pod/web", "img:1", "signed", "meshed", "default", "",
    )]);
    let row = &p.rows[0];
    assert_eq!(row.decision_tone, "chip-safe");
    assert_eq!(row.summary, "admitted — signed, meshed");
    assert_eq!(p.admitted, 1);
}

#[test]
fn decision_tone_distinguishes_allow_audit_deny() {
    assert_eq!(decision_tone("allow"), "chip-safe");
    assert_eq!(decision_tone("audit"), "chip-awaiting");
    assert_eq!(decision_tone("deny"), "chip-breach");
    assert_eq!(decision_tone("???"), "chip-safe");
}

#[test]
fn summary_leads_with_the_outcome_word() {
    assert_eq!(
        summarize("audit", "unsigned", "meshed"),
        "would-deny — unsigned, meshed"
    );
    assert_eq!(
        summarize("deny", "unsigned", "unmeshed"),
        "denied — unsigned, unmeshed"
    );
    assert_eq!(summarize("allow", "signed", "n/a"), "admitted — signed");
}

#[test]
fn tone_and_summary_are_resolved_per_row() {
    let p = props(&[
        record(
            "audit",
            "Pod/a",
            "img:a",
            "unsigned",
            "meshed",
            "ns",
            "not signed",
        ),
        record("allow", "Pod/b", "img:b", "signed", "meshed", "ns", ""),
    ]);
    assert_eq!(p.rows[0].decision_tone, "chip-awaiting");
    assert_eq!(p.rows[1].decision_tone, "chip-safe");
    assert_eq!(p.rows[1].summary, "admitted — signed, meshed");
}

#[test]
fn tallies_pass_through_to_props() {
    let p = props(&[
        record("allow", "Pod/a", "img:a", "signed", "meshed", "ns", ""),
        record("allow", "Pod/b", "img:b", "signed", "meshed", "ns", ""),
        record("deny", "Pod/c", "img:c", "unsigned", "n/a", "ns", "x"),
    ]);
    assert_eq!(p.admitted, 2);
    assert_eq!(p.denied, 1);
    assert_eq!(p.audited, 0);
}

#[test]
fn the_times_are_relative() {
    let mut old = record("allow", "Pod/a", "img:a", "signed", "meshed", "ns", "");
    old.at_ms = NOW - 7_200_000;
    let p = policy_props(&[old], DecisionTallies::default(), NOW - 86_400_000, NOW);
    assert_eq!(p.rows[0].when, "2h ago");
    assert_eq!(p.since, "2h ago");
    let p = policy_props(&[], DecisionTallies::default(), NOW - 86_400_000, NOW);
    assert_eq!(p.since, "1d ago");
}
