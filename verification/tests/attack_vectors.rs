//! The attack vectors.

use protector_view::state::{EndpointFinding, EntryEvidence};
use protector_view::view_model::attack_vectors::attack_vectors_props;

fn finding(objective: &str, breach_relevant: bool, verdict: Option<&str>) -> EndpointFinding {
    EndpointFinding {
        entry: "workload/app/Pod/web".into(),
        objective: objective.into(),
        tactic: "TA0006".into(),
        tactic_name: "Credential Access".into(),
        technique: "T1552".into(),
        technique_name: "Unsecured Credentials".into(),
        foothold: false,
        corroborated: false,
        adjudicated: true,
        promoted: false,
        disposition: "no-cut".into(),
        cut: None,
        breach_relevant,
        killchain: String::new(),
        verdict: verdict.map(str::to_string),
        path: Vec::new(),
        evidence: EntryEvidence::default(),
        recency: None,
    }
}

#[test]
fn no_breach_relevant_findings_yield_no_rows() {
    let props = attack_vectors_props(&[finding("secret/app/s", false, None)]);
    assert!(props.rows.is_empty());
}

#[test]
fn rows_count_distinct_objectives_reachable_and_flagged() {
    let props = attack_vectors_props(&[
        finding("secret/app/a", true, Some("exploitable — RCE")),
        finding("secret/app/b", true, None),
        finding("secret/app/a", true, Some("exploitable — RCE")),
    ]);
    assert_eq!(props.rows.len(), 1, "one tactic→technique pair");
    let row = &props.rows[0];
    assert_eq!(row.tactic, "Credential Access");
    assert_eq!(row.technique_id, "T1552");
    assert_eq!(row.reachable, 2, "two distinct objectives reachable");
    assert_eq!(row.flagged, 1, "one distinct objective flagged");
}

#[test]
fn vectors_show_once_and_in_order() {
    let mut exfil = finding("secret/app/c", true, None);
    exfil.tactic_name = "Exfiltration".into();
    exfil.technique = "T1041".into();
    let props = attack_vectors_props(&[
        exfil.clone(),
        finding("secret/app/a", true, Some("not exploitable — denied")),
        exfil,
    ]);
    let shown: Vec<(&str, &str, usize, usize)> = props
        .rows
        .iter()
        .map(|r| (r.tactic.as_str(), r.technique_id.as_str(), r.reachable, r.flagged))
        .collect();
    assert_eq!(shown, [("Credential Access", "T1552", 1, 0), ("Exfiltration", "T1041", 1, 0)]);
}
