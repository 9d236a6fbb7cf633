//! The hops of a proven path.

use protector_view::state::{EntryEvidence, Finding, PathStep};
use protector_view::view_model::hops::{hop_list, humanize_relation};

fn step(from: &str, rel: &str, to: &str) -> PathStep {
    PathStep {
        from: from.into(),
        relation: rel.into(),
        to: to.into(),
    }
}

fn finding_with_path(foothold: bool, cut: Option<&str>, path: Vec<PathStep>) -> Finding {
    Finding {
        entry: "workload/app/Pod/web".into(),
        objective: "secret/app/session-key".into(),
        foothold,
        corroborated: false,
        disposition: "auto-eligible".into(),
        cut: cut.map(str::to_string),
        breach_relevant: true,
        verdict: None,
        path,
        paths: vec![],
        paths_truncated: false,
        evidence: EntryEvidence::default(),
        recency: None,
        node: None,
    }
}

#[test]
fn builds_hops_with_short_labels_and_marks_objective() {
    let f = finding_with_path(
        true,
        None,
        vec![
            step(
                "workload/app/Pod/web",
                "reaches/Tcp",
                "workload/app/Pod/store",
            ),
            step(
                "workload/app/Pod/store",
                "can-read",
                "secret/app/session-key",
            ),
        ],
    );
    let list = hop_list(&f);
    assert_eq!(list.entry, "app/Pod/web");
    assert!(list.internet_reachable);
    assert_eq!(list.hops.len(), 2);
    assert_eq!(list.hops[0].relation, "reaches");
    assert_eq!(list.hops[0].node, "app/Pod/store");
    assert!(!list.hops[0].is_objective);
    assert_eq!(list.hops[1].relation, "can read");
    assert_eq!(list.hops[1].node, "app/session-key");
    assert!(list.hops[1].is_objective);
}

#[test]
fn marks_the_cut_hop_and_names_the_network_lever() {
    let cut = "workload/app/Pod/web -[reaches/Tcp]-> workload/app/Pod/store";
    let f = finding_with_path(
        true,
        Some(cut),
        vec![
            step(
                "workload/app/Pod/web",
                "reaches/Tcp",
                "workload/app/Pod/store",
            ),
            step(
                "workload/app/Pod/store",
                "can-read",
                "secret/app/session-key",
            ),
        ],
    );
    let list = hop_list(&f);
    assert!(list.hops[0].is_cut, "first hop is the cut");
    assert!(!list.hops[1].is_cut);
    assert_eq!(list.cut_note.as_deref(), Some("✂ cut here (arm network)"));
}

#[test]
fn durable_fix_disposition_names_a_pr_not_a_network_cut() {
    let cut = "a -[mounts]-> b";
    let mut f = finding_with_path(false, Some(cut), vec![step("a", "mounts", "b")]);
    f.disposition = "durable-fix PR".into();
    let list = hop_list(&f);
    assert_eq!(
        list.cut_note.as_deref(),
        Some("✂ cut here (durable fix — open a PR)")
    );
}

#[test]
fn no_cut_signature_yields_no_note() {
    let f = finding_with_path(false, None, vec![step("a", "reaches", "b")]);
    assert_eq!(hop_list(&f).cut_note, None);
}

#[test]
fn relations_read_as_verbs() {
    assert_eq!(humanize_relation("reaches/Tcp/5432"), "reaches");
    assert_eq!(humanize_relation("can-read"), "can read");
}
