//! The nodes and edges of the security graph.

use protector_view::graph::{
    CapabilityCatalogue, Edge, Exposure, Grade, Image, Node, NodeKey, Protocol, Provenance,
    Relation, Severity, Trust, Vulnerability, Workload, CREDENTIAL_ACCESS, ESCAPE_TO_HOST,
};
use protector_view::image::canonical_image;
use protector_view::security_graph::SecurityGraph;
use std::collections::BTreeMap;

fn no_powers() -> CapabilityCatalogue {
    CapabilityCatalogue { rows: vec![] }
}

#[test]
fn tests_canonical_image_converges_pod_and_scanner_forms() {
    let pod = canonical_image("nginx:alpine");
    assert_eq!(pod, canonical_image("docker.io/library/nginx:alpine"));
    assert_eq!(pod, canonical_image("index.docker.io/library/nginx:alpine"));
    let d = "sha256:aaaaaaaaaaaaaaaaaaaaaaaaaaaaaaaaaaaaaaaaaaaaaaaaaaaaaaaaaaaaaaaa";
    assert_eq!(
        canonical_image(&format!("nginx@{d}")),
        canonical_image(&format!("docker.io/library/nginx@{d}"))
    );
    assert_eq!(
        canonical_image("ghcr.io/thejefflarson/api:1.2.3"),
        "ghcr.io/thejefflarson/api:1.2.3"
    );
    assert_ne!(
        canonical_image("nginx:alpine"),
        canonical_image("nginx:1.27")
    );
}

fn prov(source: &str) -> Provenance {
    Provenance::new(source.into(), 0)
}

fn proof_edge(relation: Relation, source: &str) -> Edge {
    Edge {
        relation,
        provenance: prov(source),
        grade: Grade::Proof,
    }
}

#[test]
fn tests_node_key_is_stable_across_fact_changes() {
    let clean = Node::Image(Image {
        digest: "sha256:abc".into(),
        reference: Some("ghcr.io/x:1".into()),
        trust: Trust::Unknown,
        vulnerabilities: vec![],
        exposed_secrets: vec![],
    });
    let scanned = Node::Image(Image {
        digest: "sha256:abc".into(),
        reference: Some("ghcr.io/x:1".into()),
        trust: Trust::Untrusted,
        vulnerabilities: vec![Vulnerability {
            id: "CVE-2026-0001".into(),
            severity: Severity::Critical,
            exploited_in_wild: true,
            epss: Some(0.9f32.to_bits()),
            sources: vec![prov("trivy"), prov("grype")],
            ..Default::default()
        }],
        exposed_secrets: vec![],
    });
    assert_eq!(clean.key(), scanned.key());
}

#[test]
fn tests_node_key_constructors_match_node_key() {
    let image = Node::Image(Image {
        digest: "sha256:abc".into(),
        reference: Some("ghcr.io/x:1".into()),
        trust: Trust::Untrusted,
        vulnerabilities: vec![],
        exposed_secrets: vec![],
    });
    assert_eq!(NodeKey::image("sha256:abc"), image.key());

    let workload = Node::Workload(Workload {
        namespace: "app".into(),
        name: "web".into(),
        kind: "Pod".into(),
        labels: BTreeMap::new(),
        meshed: false,
        exposure: Exposure::Internal,
        runtime: vec![],
        persistent: false,
        misconfigs: vec![],
        rbac_findings: vec![],
    });
    assert_eq!(NodeKey::workload("app", "Pod", "web"), workload.key());
}

#[test]
fn tests_upsert_replaces_in_place_and_keeps_edges() {
    let mut g = SecurityGraph::new();
    let img = g.upsert_node(Node::Image(Image {
        digest: "sha256:abc".into(),
        reference: None,
        trust: Trust::Unknown,
        vulnerabilities: vec![],
        exposed_secrets: vec![],
    }));
    let wl = g.upsert_node(Node::Workload(Workload {
        namespace: "app".into(),
        name: "api".into(),
        kind: "Pod".into(),
        labels: BTreeMap::new(),
        meshed: true,
        exposure: Exposure::Internet,
        runtime: vec![],
        persistent: false,
        misconfigs: vec![],
        rbac_findings: vec![],
    }));
    g.add_edge(wl, img, proof_edge(Relation::RunsImage, "kube"));
    assert_eq!(g.node_count(), 2);
    assert_eq!(g.edge_count(), 1);

    let img2 = g.upsert_node(Node::Image(Image {
        digest: "sha256:abc".into(),
        reference: None,
        trust: Trust::Untrusted,
        vulnerabilities: vec![Vulnerability {
            id: "CVE-2026-0001".into(),
            severity: Severity::High,
            exploited_in_wild: false,
            epss: None,
            sources: vec![prov("trivy")],
            ..Default::default()
        }],
        exposed_secrets: vec![],
    }));
    assert_eq!(img2, img, "upsert keeps the same index");
    assert_eq!(g.node_count(), 2, "no duplicate node");
    assert_eq!(g.edge_count(), 1, "edge survives the fact update");
    match g.node(img) {
        Some(Node::Image(i)) => assert_eq!(i.vulnerabilities.len(), 1),
        other => panic!("expected image node, got {other:?}"),
    }
}

#[test]
fn tests_relations_map_to_attack_techniques() {
    assert_eq!(
        Relation::EscapesTo {
            via: "privileged".into()
        }
        .technique(&no_powers()),
        Some(ESCAPE_TO_HOST)
    );
    assert_eq!(
        Relation::CanRead.technique(&no_powers()),
        Some(CREDENTIAL_ACCESS)
    );
    assert_eq!(
        Relation::CanDo {
            verb: "get".into(),
            resource: "secrets".into()
        }
        .technique(&no_powers()),
        Some(CREDENTIAL_ACCESS)
    );
    assert_eq!(Relation::RunsAs.technique(&no_powers()), None);
    assert_eq!(
        Relation::Reaches {
            port: None,
            protocol: Protocol::Tcp
        }
        .technique(&no_powers()),
        None
    );
}

#[test]
fn tests_grade_gates_what_may_move_privilege() {
    let proof = proof_edge(Relation::CanRead, "rbac");
    let hypo = Edge {
        relation: Relation::CanRead,
        provenance: prov("model"),
        grade: Grade::Hypothesis,
    };
    assert!(proof.is_proof_grade());
    assert!(!hypo.is_proof_grade());
}
