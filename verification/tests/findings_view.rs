//! The rows of the Findings view.

use protector_view::props::findings::{DeltaProps, LiveTag, Posture};
use protector_view::state::{
    CveEvidence, Delta, EntryEvidence, Finding, Judgement, PathStep, RecencyInfo, Verdict,
};
use protector_view::text_set::TextSet;
use protector_view::view_model::findings::{blind_node_caveat, finding_props};
use protector_view::view_model::folding::{
    map_findings, strip_replica_suffix, urgency_rank, workload_group_key,
};

fn finding(entry: &str, objective: &str, verdict: Option<Verdict>) -> Finding {
    Finding {
        entry: entry.to_string(),
        objective: objective.to_string(),
        foothold: true,
        corroborated: false,
        disposition: "auto-eligible".into(),
        cut: None,
        breach_relevant: true,
        verdict,
        path: vec![PathStep {
            from: entry.to_string(),
            relation: "reaches/Tcp/5432".into(),
            to: objective.to_string(),
        }],
        paths: vec![],
        paths_truncated: false,
        evidence: EntryEvidence::default(),
        recency: None,
        node: None,
    }
}

#[test]
fn only_breach_relevant_rows_are_surfaced() {
    let mut keep = finding(
        "endpoint/internet",
        "secret/app/db",
        Some(Verdict::Confirmed),
    );
    keep.foothold = true;
    let mut drop = finding("workload/app/Pod/x", "secret/app/y", None);
    drop.breach_relevant = false;
    let rows = map_findings(&[keep, drop], &[], &TextSet::new());
    assert_eq!(rows.len(), 1);
}

#[test]
fn urgency_sort_puts_live_breach_first_cleared_last() {
    let live = finding("endpoint/a", "secret/x", Some(Verdict::Confirmed));
    let promoted = finding(
        "endpoint/b",
        "secret/x",
        Some(Verdict::Exploitable("RCE".into())),
    );
    let cleared = finding(
        "endpoint/c",
        "secret/x",
        Some(Verdict::Refuted("internal".into())),
    );
    let awaiting = finding("endpoint/d", "secret/x", None);
    let rows = map_findings(&[cleared, awaiting, promoted, live], &[], &TextSet::new());
    let order: Vec<Posture> = rows.iter().map(|r| r.posture).collect();
    assert_eq!(
        order,
        vec![
            Posture::Breach,   // live-corroborated
            Posture::Breach,   // model-promoted
            Posture::Awaiting, // awaiting
            Posture::Cleared,  // calm tail
        ]
    );
    assert_eq!(rows[0].live_tag, LiveTag::Live);
    assert_eq!(rows[1].live_tag, LiveTag::Judged);
}

#[test]
fn escalation_outranks_awaiting() {
    let mut escalated = finding(
        "endpoint/e",
        "secret/x",
        Some(Verdict::Refuted("now safe".into())),
    );
    escalated.recency = Some(RecencyInfo {
        delta: Delta::Escalated,
        age_secs: Some(5),
    });
    let awaiting = finding("endpoint/a", "secret/x", None);
    let rows = map_findings(&[awaiting, escalated], &[], &TextSet::new());
    assert!(matches!(rows[0].delta, DeltaProps::Escalated));
}

#[test]
fn evidence_summary_counts_and_kev() {
    let mut f = finding("endpoint/a", "secret/x", Some(Verdict::Confirmed));
    f.evidence.cves = vec![
        CveEvidence {
            id: "CVE-1".into(),
            severity: "critical".into(),
            score: Some("9.8".into()),
            score_rank: 98,
            kev: true,
            epss: Some("90%".into()),
            epss_rank: 90,
            reachability: "loaded-at-runtime".into(),
            fix: "no fix available".into(),
            cwe: vec![],
            title: Some("bad".into()),
        },
        CveEvidence {
            id: "CVE-2".into(),
            severity: "high".into(),
            score: None,
            score_rank: 0,
            kev: false,
            epss: None,
            epss_rank: 0,
            reachability: "unknown".into(),
            fix: "fix available: 2.0".into(),
            cwe: vec![],
            title: None,
        },
    ];
    let rows = map_findings(&[f], &[], &TextSet::new());
    assert_eq!(rows[0].evidence_summary.cve_count, 2);
    assert!(rows[0].evidence_summary.kev);
    assert!(!rows[0].evidence.is_empty());
}

#[test]
fn empty_evidence_is_flagged_empty() {
    let f = finding("endpoint/a", "secret/x", None);
    let rows = map_findings(&[f], &[], &TextSet::new());
    assert!(rows[0].evidence.is_empty());
    assert!(rows[0].evidence_summary.is_empty());
}

#[test]
fn fanout_collapses_a_high_objective_entry() {
    let mut rows = Vec::new();
    for i in 0..20 {
        rows.push(finding(
            "endpoint/argocd",
            &format!("secret/app/s{i}"),
            Some(Verdict::Refuted("cleared".into())),
        ));
    }
    let mapped = map_findings(&rows, &[], &TextSet::new());
    let argo: Vec<_> = mapped.iter().filter(|r| r.entry == "argocd").collect();
    assert_eq!(argo.len(), 1, "fan-out collapses to one row");
    assert_eq!(argo[0].fanout, Some(20));
}

#[test]
fn judgement_prompt_is_attached_by_entry() {
    let f = finding("endpoint/a", "secret/x", Some(Verdict::Confirmed));
    let judgements = vec![Judgement {
        entry: "endpoint/a".into(),
        objectives: 1,
        verdict: "Confirmed".into(),
        prompt: Some("the prompt".into()),
        reply: Some("the reply".into()),
    }];
    let rows = map_findings(&[f], &judgements, &TextSet::new());
    assert_eq!(rows[0].judgement.prompt.as_deref(), Some("the prompt"));
    assert_eq!(rows[0].judgement.reply.as_deref(), Some("the reply"));
}

#[test]
fn path_props_carry_node_glyphs_and_mark_the_cut() {
    let mut f = finding(
        "deployment/edge/api",
        "secret/app/db-creds",
        Some(Verdict::Confirmed),
    );
    f.foothold = true;
    f.path = vec![
        PathStep {
            from: "deployment/edge/api".into(),
            relation: "reaches/Tcp/5432".into(),
            to: "statefulset/app/db".into(),
        },
        PathStep {
            from: "statefulset/app/db".into(),
            relation: "mounts".into(),
            to: "secret/app/db-creds".into(),
        },
    ];
    f.cut = Some("deployment/edge/api -[reaches/Tcp/5432]-> statefulset/app/db".into());
    let rows = map_findings(&[f], &[], &TextSet::new());
    let path = &rows[0].path;
    assert_eq!(path.len(), 2);
    assert_eq!(path[0].from_glyph, "\u{1F310}");
    assert_eq!(path[1].to_glyph, "\u{1F511}");
    assert!(path[0].is_cut);
    assert!(!path[1].is_cut);
}

#[test]
fn multi_path_marks_edges_shared_across_all_paths() {
    let mut f = finding(
        "deployment/edge/gw",
        "secret/app/creds",
        Some(Verdict::Confirmed),
    );
    f.cut = None;
    let shared = PathStep {
        from: "deployment/edge/gw".into(),
        relation: "reaches/Tcp/443".into(),
        to: "deployment/app/hub".into(),
    };
    let path_a = vec![
        shared.clone(),
        PathStep {
            from: "deployment/app/hub".into(),
            relation: "reaches/Tcp/5432".into(),
            to: "secret/app/creds".into(),
        },
    ];
    let path_b = vec![
        shared.clone(),
        PathStep {
            from: "deployment/app/hub".into(),
            relation: "reaches/Tcp/6379".into(),
            to: "secret/app/creds".into(),
        },
    ];
    f.paths = vec![path_a, path_b];
    let rows = map_findings(&[f], &[], &TextSet::new());
    let paths = &rows[0].paths;
    assert_eq!(paths.len(), 2, "both proven paths are mapped, not just one");
    assert!(
        paths[0][0].shared,
        "the common edge is marked shared in path A"
    );
    assert!(
        paths[1][0].shared,
        "the common edge is marked shared in path B"
    );
    assert!(!paths[0][1].shared);
    assert!(!paths[1][1].shared);
}

#[test]
fn single_path_finding_falls_back_and_marks_no_shared_edge() {
    let f = finding("endpoint/a", "secret/x", Some(Verdict::Confirmed));
    let rows = map_findings(&[f], &[], &TextSet::new());
    assert_eq!(
        rows[0].paths.len(),
        1,
        "a lone path still renders (fallback)"
    );
    assert!(rows[0].paths[0].iter().all(|h| !h.shared));
}

#[test]
fn verdict_summary_is_the_models_verbatim_words() {
    let f = finding(
        "endpoint/a",
        "secret/x",
        Some(Verdict::Exploitable("CVE reachable".into())),
    );
    let rows = map_findings(&[f], &[], &TextSet::new());
    assert_eq!(
        rows[0].verdict_summary.as_deref(),
        Some("exploitable — CVE reachable")
    );
}

#[test]
fn distinct_entries_that_slugify_alike_get_distinct_ids() {
    let a = finding("secret/app/db", "secret/x", Some(Verdict::Confirmed));
    let b = finding("secret-app-db", "secret/x", Some(Verdict::Confirmed));
    let rows = map_findings(&[a, b], &[], &TextSet::new());
    assert_eq!(rows.len(), 2, "two distinct entries stay two rows");
    assert_ne!(
        rows[0].id, rows[1].id,
        "distinct entries that slugify alike must NOT share a DOM id"
    );
}

#[test]
fn finding_id_is_stable_across_renders() {
    let f1 = finding("endpoint/a", "secret/x", Some(Verdict::Confirmed));
    let f2 = finding("endpoint/a", "secret/x", Some(Verdict::Confirmed));
    let r1 = map_findings(&[f1], &[], &TextSet::new());
    let r2 = map_findings(&[f2], &[], &TextSet::new());
    assert_eq!(
        r1[0].id, r2[0].id,
        "the same entry always yields the same id"
    );
}

#[test]
fn statefulset_replicas_collapse_to_one_row_with_worst_posture() {
    let r0 = finding(
        "workload/analytics/Pod/murmurify-aggregator-0",
        "secret/analytics/db",
        Some(Verdict::Refuted("internal".into())),
    );
    let r1 = finding(
        "workload/analytics/Pod/murmurify-aggregator-1",
        "secret/analytics/db",
        Some(Verdict::Confirmed), // the worst posture in the group
    );
    let r2 = finding(
        "workload/analytics/Pod/murmurify-aggregator-2",
        "secret/analytics/db",
        Some(Verdict::Refuted("internal".into())),
    );
    let rows = map_findings(&[r0, r1, r2], &[], &TextSet::new());
    assert_eq!(rows.len(), 1, "three replicas collapse to one row");
    assert_eq!(rows[0].replicas, Some(3), "the row carries the ×3 count");
    assert_eq!(
        rows[0].posture,
        Posture::Breach,
        "the merged row carries the worst/most-urgent posture among the group"
    );
    assert_eq!(
        rows[0].entry, "analytics/murmurify-aggregator",
        "the row is relabeled with the owning workload, not a single pod"
    );
}

#[test]
fn deployment_replicas_collapse_by_owning_workload() {
    let a = finding(
        "workload/web/Pod/storefront-7d9f8c6b5d-x9k2p",
        "secret/web/session",
        Some(Verdict::Refuted("internal".into())),
    );
    let b = finding(
        "workload/web/Pod/storefront-7d9f8c6b5d-7m4qz",
        "secret/web/session",
        Some(Verdict::Refuted("internal".into())),
    );
    let rows = map_findings(&[a, b], &[], &TextSet::new());
    assert_eq!(rows.len(), 1, "two deployment replicas collapse to one row");
    assert_eq!(rows[0].replicas, Some(2));
    assert_eq!(rows[0].entry, "web/storefront");
}

#[test]
fn unrelated_pods_do_not_merge() {
    let a = finding(
        "workload/web/Pod/storefront-7d9f8c6b5d-x9k2p",
        "secret/web/session",
        Some(Verdict::Confirmed),
    );
    let b = finding(
        "workload/web/Pod/checkout-5c4b3a2f1e-q7w2e",
        "secret/web/cart",
        Some(Verdict::Confirmed),
    );
    let rows = map_findings(&[a, b], &[], &TextSet::new());
    assert_eq!(rows.len(), 2, "unrelated pods are never merged");
    assert!(rows.iter().all(|r| r.replicas.is_none()));
}

#[test]
fn standalone_pod_stays_a_single_row() {
    let f = finding(
        "workload/ops/Pod/debug-shell",
        "secret/ops/kubeconfig",
        Some(Verdict::Confirmed),
    );
    let rows = map_findings(&[f], &[], &TextSet::new());
    assert_eq!(rows.len(), 1);
    assert_eq!(
        rows[0].replicas, None,
        "a standalone pod carries no ×N count"
    );
    assert_eq!(rows[0].entry, "ops/Pod/debug-shell", "and is not relabeled");
}

#[test]
fn a_single_replica_named_pod_is_not_collapsed() {
    let f = finding(
        "workload/web/Pod/lonely-7d9f8c6b5d-x9k2p",
        "secret/web/x",
        Some(Verdict::Confirmed),
    );
    let rows = map_findings(&[f], &[], &TextSet::new());
    assert_eq!(rows.len(), 1);
    assert_eq!(rows[0].replicas, None, "a lone pod is not a replica set");
}

#[test]
fn finding_id_unit_helpers() {
    assert_eq!(
        workload_group_key("analytics/Pod/murmurify-aggregator-0").as_deref(),
        Some("analytics/Pod/murmurify-aggregator")
    );
    assert_eq!(
        workload_group_key("web/Pod/storefront-7d9f8c6b5d-x9k2p").as_deref(),
        Some("web/Pod/storefront")
    );
    assert_eq!(workload_group_key("ops/Pod/debug-shell"), None);
    assert_eq!(workload_group_key("web/Deployment/storefront-x"), None);
    assert_eq!(workload_group_key("endpoint/internet"), None);
}

#[test]
fn strip_replica_suffix_takes_only_replica_names_apart() {
    assert_eq!(strip_replica_suffix("db-0").as_deref(), Some("db"));
    assert_eq!(strip_replica_suffix("my-db-12").as_deref(), Some("my-db"));
    assert_eq!(
        strip_replica_suffix("storefront-7d9f8c6b5d-x9k2p").as_deref(),
        Some("storefront")
    );
    assert_eq!(strip_replica_suffix("agent-x9k2p").as_deref(), Some("agent"));
    assert_eq!(strip_replica_suffix("kube-proxy-x9k2p").as_deref(), Some("kube-proxy"));
    assert_eq!(strip_replica_suffix("debug-shell"), None);
    assert_eq!(strip_replica_suffix("web-proxy"), None);
    assert_eq!(strip_replica_suffix("web"), None);
    assert_eq!(strip_replica_suffix("-0"), None);
}

#[test]
fn urgency_ranks_every_kind_of_row() {
    let verdicts = [
        (Some(Verdict::Confirmed), 0),
        (Some(Verdict::Exploitable("x".into())), 1),
        (Some(Verdict::Uncertain("x".into())), 3),
        (None, 4),
        (Some(Verdict::Refuted("x".into())), 5),
    ];
    for (verdict, rank) in verdicts {
        let f = finding("endpoint/a", "secret/x", verdict);
        assert_eq!(urgency_rank(&finding_props(&f, &[], &TextSet::new())), rank);
    }
    let mut f = finding("endpoint/a", "secret/x", None);
    f.recency = Some(RecencyInfo { delta: Delta::Escalated, age_secs: None });
    assert_eq!(urgency_rank(&finding_props(&f, &[], &TextSet::new())), 2);
}

#[test]
fn a_tie_between_replicas_goes_to_the_first_name() {
    let mut b = finding("workload/web/Pod/db-1", "secret/web/b", Some(Verdict::Confirmed));
    b.disposition = "second".into();
    let mut a = finding("workload/web/Pod/db-0", "secret/web/a", Some(Verdict::Confirmed));
    a.disposition = "first".into();
    let rows = map_findings(&[b, a], &[], &TextSet::new());
    assert_eq!(rows.len(), 1);
    assert_eq!(rows[0].disposition, "first");
    assert_eq!(rows[0].objective, "web/a");
    assert_eq!(rows[0].replicas, Some(2));
}

#[test]
fn eight_rows_of_an_entry_stay_and_nine_fold() {
    for n in [8usize, 9] {
        let findings: Vec<Finding> = (0..n)
            .map(|i| finding("endpoint/hub", &format!("secret/app/s{i}"), None))
            .collect();
        let rows = map_findings(&findings, &[], &TextSet::new());
        if n == 8 {
            assert_eq!(rows.len(), 8);
            assert!(rows.iter().all(|r| r.fanout.is_none()));
        } else {
            assert_eq!(rows.len(), 1);
            assert_eq!(rows[0].fanout, Some(9));
            assert_eq!(rows[0].objective, "app/s0");
        }
    }
}

#[test]
fn ties_show_by_entry_and_objective() {
    let rows = map_findings(
        &[
            finding("endpoint/b", "secret/x", None),
            finding("endpoint/a", "secret/z", None),
            finding("endpoint/a", "secret/y", None),
        ],
        &[],
        &TextSet::new(),
    );
    let order: Vec<(&str, &str)> =
        rows.iter().map(|r| (r.entry.as_str(), r.objective.as_str())).collect();
    assert_eq!(order, [("a", "y"), ("a", "z"), ("b", "x")]);
}

#[test]
fn a_finding_on_a_blind_node_carries_its_caveat() {
    let mut blind = TextSet::new();
    blind.insert("node-b".to_string());
    let mut f = finding("endpoint/a", "secret/x", None);
    f.node = Some("node-b".into());
    let caveat = blind_node_caveat(&f, &blind).expect("the node is blind");
    assert!(caveat.contains("node-b"));
    f.node = Some("node-a".into());
    assert!(blind_node_caveat(&f, &blind).is_none());
    f.node = None;
    assert!(blind_node_caveat(&f, &blind).is_none());
}

#[test]
fn one_pod_with_two_objectives_is_no_replica_set() {
    let a = finding("workload/analytics/Pod/agg-0", "secret/x", None);
    let b = finding("workload/analytics/Pod/agg-0", "secret/y", None);
    let rows = map_findings(&[a.clone(), b.clone()], &[], &TextSet::new());
    assert_eq!(rows.len(), 2);
    assert!(rows.iter().all(|r| r.replicas.is_none() && r.entry == "analytics/Pod/agg-0"));
    let c = finding("workload/analytics/Pod/agg-1", "secret/x", None);
    let rows = map_findings(&[a, b, c], &[], &TextSet::new());
    assert_eq!(rows.len(), 1);
    assert_eq!(rows[0].replicas, Some(2), "two pods, though three rows");
}

#[test]
fn findings_that_are_not_relevant_change_nothing() {
    let a = finding("endpoint/a", "secret/x", None);
    let mut other = finding("endpoint/b", "secret/x", Some(Verdict::Confirmed));
    other.breach_relevant = false;
    assert_eq!(
        map_findings(&[other, a.clone()], &[], &TextSet::new()),
        map_findings(&[a], &[], &TextSet::new())
    );
}
