//! The rows and details of one exposed entry.

use protector_view::state::{Delta, EntryEvidence, Finding, PathStep, RecencyInfo, Verdict};
use protector_view::view_model::entry::{
    detail_id, detail_props, entry_posture, freshness, humanize_age, max_posture, row_props,
    Posture,
};

fn f(entry: &str, objective: &str, verdict: Option<Verdict>) -> Finding {
    Finding {
        entry: entry.into(),
        objective: objective.into(),
        foothold: true,
        corroborated: false,
        disposition: "auto-eligible".into(),
        cut: Some(format!("{entry} -[reaches/Tcp]-> {objective}")),
        breach_relevant: true,
        verdict,
        path: vec![PathStep {
            from: entry.into(),
            relation: "reaches/Tcp".into(),
            to: objective.into(),
        }],
        paths: vec![],
        paths_truncated: false,
        evidence: EntryEvidence::default(),
        recency: None,
        node: None,
    }
}

#[test]
fn entry_posture_is_the_loudest_chain() {
    let a = f("web", "secret/a", Some(Verdict::Refuted("no".into())));
    let b = f("web", "secret/b", Some(Verdict::Exploitable("yes".into())));
    assert_eq!(entry_posture(&[&a, &b]), Posture::Breach);
}

#[test]
fn row_clause_is_the_model_prose_verbatim() {
    let b = f(
        "web",
        "secret/b",
        Some(Verdict::Exploitable("RCE via CVE-x".into())),
    );
    let row = row_props("workload/app/Pod/web", &[&b]);
    assert_eq!(row.posture, Posture::Breach);
    assert_eq!(row.entry, "app/Pod/web");
    assert_eq!(row.clause, "exploitable — RCE via CVE-x");
    assert_eq!(row.reaches, "b");
}

#[test]
fn awaiting_row_has_no_clause() {
    let b = f("web", "secret/b", None);
    let row = row_props("web", &[&b]);
    assert_eq!(row.posture, Posture::Awaiting);
    assert_eq!(row.clause, "");
}

#[test]
fn what_to_do_only_for_breach() {
    let breach = f("web", "s", Some(Verdict::Exploitable("y".into())));
    let safe = f("web", "s", Some(Verdict::Refuted("n".into())));
    assert!(detail_props("web", &[&breach], None).what_to_do.is_some());
    assert!(detail_props("web", &[&safe], None).what_to_do.is_none());
}

#[test]
fn detail_carries_verbatim_verdict_rail_and_hops() {
    let breach = f("web", "secret/b", Some(Verdict::Exploitable("RCE".into())));
    let d = detail_props("workload/app/Pod/web", &[&breach], Some("PROMPT".into()));
    assert_eq!(d.verdict, "exploitable — RCE");
    assert_eq!(d.raw_prompt.as_deref(), Some("PROMPT"));
    assert!(d.rail.proven);
    assert!(d.rail.internet_facing);
    assert_eq!(d.rail.objectives, 1);
    assert_eq!(d.hops.entry, "web");
    assert!(d.hops.hops[0].is_cut);
}

#[test]
fn awaiting_detail_says_not_yet_judged() {
    let a = f("web", "s", None);
    let d = detail_props("web", &[&a], None);
    assert!(d.verdict.contains("not yet judged"));
}

#[test]
fn detail_id_is_stable_and_slugged() {
    assert_eq!(
        detail_id("workload/app/Pod/web"),
        "detail-workload-app-Pod-web"
    );
}

#[test]
fn postures_have_an_order() {
    assert_eq!(max_posture(Posture::Safe, Posture::Awaiting), Posture::Safe);
    assert_eq!(max_posture(Posture::Breach, Posture::Awaiting), Posture::Breach);
    assert_eq!(Posture::of_verdict(Some(&Verdict::Uncertain("?".into()))), Posture::Awaiting);
    assert!(Posture::of_verdict(Some(&Verdict::Confirmed)).is_breach());
    assert_eq!(entry_posture(&[]), Posture::Awaiting);
}

#[test]
fn ages_and_freshness_read_as_words() {
    assert_eq!(humanize_age(59), "59s");
    assert_eq!(humanize_age(60), "1m");
    assert_eq!(freshness(None), "waiting for first pass");
    assert_eq!(freshness(Some(0)), "just now");
    assert_eq!(freshness(Some(3600)), "1h ago");
}

#[test]
fn the_row_shows_the_loudest_change() {
    let mut a = f("web", "secret/a", None);
    a.recency = Some(RecencyInfo { delta: Delta::Unchanged, age_secs: Some(120) });
    let mut b = f("web", "secret/b", None);
    b.recency = Some(RecencyInfo { delta: Delta::Escalated, age_secs: Some(60) });
    let row = row_props("web", &[&a, &b]);
    assert_eq!(row.delta.expect("it escalated").glyph, "\u{2191}");
    assert_eq!(row.detail_id, "detail-web");
}
