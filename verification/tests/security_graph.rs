//! The security graph: how nodes are found again, and what is known about an entry.

use protector_view::graph::{
    Behavior, Edge, Exposure, Grade, Host, Image, Node, NodeKey, Protocol, Provenance, Relation,
    RuntimeSignal, ScanFinding, Scope, SecretRef, Severity, Signal, Trust, Vulnerability, Workload,
};
use protector_view::image::{canonical_image, canonical_of, ImageParts};
use protector_view::security_graph::SecurityGraph;
use std::collections::BTreeMap;

fn edge(relation: Relation) -> Edge {
    Edge { relation, provenance: Provenance::new("kube".into(), 7), grade: Grade::Proof }
}

fn cve(id: &str, severity: Severity, exploited_in_wild: bool) -> Vulnerability {
    Vulnerability { id: id.into(), severity, exploited_in_wild, ..Default::default() }
}

fn image(digest: &str, vulnerabilities: Vec<Vulnerability>) -> Node {
    Node::Image(Image {
        digest: digest.into(),
        reference: None,
        trust: Trust::Unknown,
        vulnerabilities,
        exposed_secrets: vec![ScanFinding { id: format!("secret-in-{digest}"), ..Default::default() }],
    })
}

fn workload(name: &str) -> Workload {
    Workload {
        namespace: "app".into(),
        name: name.into(),
        kind: "Pod".into(),
        labels: BTreeMap::new(),
        meshed: false,
        exposure: Exposure::Internet,
        runtime: vec![RuntimeSignal {
            behavior: Behavior {
                signal: Signal::Alert { rule: "shell".into() },
                variant: "alert".into(),
                summary: "alert: shell".into(),
                notable_exec: None,
                alarming_write: None,
                foothold_peer: None,
            },
            provenance: Provenance::new("falco".into(), 9),
        }],
        persistent: false,
        misconfigs: vec![ScanFinding { id: "root-user".into(), ..Default::default() }],
        rbac_findings: vec![],
    }
}

#[test]
fn an_empty_graph_holds_nothing() {
    let g = SecurityGraph::new();
    assert_eq!(g.node_count(), 0);
    assert_eq!(g.edge_count(), 0);
    assert!(!g.reachability_incomplete());
    assert_eq!(g.index_of(&NodeKey::image("x")), None);
    assert!(g.node(0).is_none());
    assert!(g.key_of(0).is_none());
    assert_eq!(g.key_set().len(), 0);
    assert_eq!(g.edge_set().len(), 0);
}

#[test]
fn a_node_is_found_under_its_key() {
    let mut g = SecurityGraph::new();
    let web = g.upsert_node(Node::Workload(workload("web")));
    let key = NodeKey::workload("app", "Pod", "web");
    assert_eq!(g.index_of(&key), Some(web));
    assert_eq!(g.key_of(web), Some(key));
    assert!(g.key_set().contains("workload/app/Pod/web"));
}

#[test]
fn ensuring_a_node_keeps_the_facts_it_has() {
    let mut g = SecurityGraph::new();
    let a = g.ensure_node(image("d", vec![cve("CVE-1", Severity::Low, false)]));
    let b = g.ensure_node(image("d", vec![]));
    assert_eq!(a, b);
    match g.node(a) {
        Some(Node::Image(i)) => assert_eq!(i.vulnerabilities.len(), 1),
        other => panic!("expected an image, got {other:?}"),
    }
}

#[test]
fn updating_a_node_changes_its_facts_only() {
    let mut g = SecurityGraph::new();
    let i = g.upsert_node(image("d", vec![]));
    g.update_node(&NodeKey::image("d"), |n| match n {
        Node::Image(mut im) => {
            im.trust = Trust::Untrusted;
            Node::Image(im)
        }
        other => other,
    });
    g.update_node(&NodeKey::image("unknown"), |_| panic!("there is no such node"));
    match g.node(i) {
        Some(Node::Image(im)) => assert_eq!(im.trust, Trust::Untrusted),
        other => panic!("expected an image, got {other:?}"),
    }
    assert_eq!(g.node_count(), 1);
}

#[test]
fn reachability_is_marked_for_good() {
    let mut g = SecurityGraph::new();
    g.mark_reachability_incomplete();
    assert!(g.reachability_incomplete());
    g.upsert_node(image("d", vec![]));
    assert!(g.reachability_incomplete());
}

#[test]
fn edges_read_as_source_relation_target() {
    let mut g = SecurityGraph::new();
    let web = g.upsert_node(Node::Workload(workload("web")));
    let db = g.upsert_node(Node::Workload(workload("db")));
    g.add_edge(web, db, edge(Relation::Reaches { port: Some(5432), protocol: Protocol::Tcp }));
    g.add_edge(web, db, edge(Relation::Reaches { port: Some(5432), protocol: Protocol::Tcp }));
    assert_eq!(g.edge_count(), 2);
    let edges = g.edge_set();
    assert_eq!(edges.len(), 1, "edges that read alike are one");
    assert!(edges
        .contains("workload/app/Pod/web -[reaches/Tcp/5432]-> workload/app/Pod/db"));
    assert_eq!(g.inner().node_count(), 2);
    assert_eq!(g.inner().edge_count(), 2);
}

#[test]
fn evidence_is_what_clears_the_bar() {
    let mut g = SecurityGraph::new();
    let web = g.upsert_node(Node::Workload(workload("web")));
    let first = g.upsert_node(image(
        "a",
        vec![
            cve("CVE-low", Severity::Low, false),
            cve("CVE-kev", Severity::Low, true),
            cve("CVE-high", Severity::High, false),
        ],
    ));
    let second = g.upsert_node(image("b", vec![cve("CVE-crit", Severity::Critical, false)]));
    let other = g.upsert_node(image("c", vec![cve("CVE-other", Severity::Critical, true)]));
    g.add_edge(web, first, edge(Relation::RunsImage));
    g.add_edge(web, second, edge(Relation::RunsImage));
    g.add_edge(web, other, edge(Relation::CanRead));
    let (cves, behaviors) = g.entry_evidence(&NodeKey::workload("app", "Pod", "web"));
    let mut ids: Vec<&str> = cves.iter().map(|c| c.id.as_str()).collect();
    assert_eq!(ids, ["CVE-crit", "CVE-kev"], "the image that was added last comes first");
    ids.sort();
    assert_eq!(behaviors.len(), 1);
    assert!(behaviors[0].is_alert());
    let (secrets, misconfigs, rbac) = g.entry_findings(&NodeKey::workload("app", "Pod", "web"));
    let ids: Vec<&str> = secrets.iter().map(|f| f.id.as_str()).collect();
    assert_eq!(ids, ["secret-in-b", "secret-in-a"]);
    assert_eq!(misconfigs[0].id, "root-user");
    assert!(rbac.is_empty());
}

#[test]
fn what_is_no_workload_has_no_evidence() {
    let mut g = SecurityGraph::new();
    g.upsert_node(image("a", vec![cve("CVE-crit", Severity::Critical, true)]));
    let (cves, behaviors) = g.entry_evidence(&NodeKey::image("a"));
    assert!(cves.is_empty() && behaviors.is_empty());
    let (secrets, misconfigs, rbac) = g.entry_findings(&NodeKey::image("a"));
    assert!(secrets.is_empty() && misconfigs.is_empty() && rbac.is_empty());
    let (cves, behaviors) = g.entry_evidence(&NodeKey::workload("app", "Pod", "gone"));
    assert!(cves.is_empty() && behaviors.is_empty());
}

#[test]
fn keys_come_apart_again() {
    let key = NodeKey::workload("app", "Pod", "web");
    assert_eq!(key.kind(), "workload");
    assert_eq!(key.namespace(), Some("app"));
    assert_eq!(key.name(), Some("web"));
    assert_eq!(key.short(), "app/Pod/web");
    assert_eq!(NodeKey::image("sha256:abc").namespace(), None);
    assert_eq!(NodeKey::kind_of("secret/app/db"), "secret");
    assert_eq!(NodeKey::short_of("secret/app/db"), "app/db");
    assert_eq!(NodeKey::short_of("plain"), "plain");
    let host = Node::Host(Host { name: "n1".into() });
    assert_eq!(host.key().0, "host/n1");
    let secret = Node::Secret(SecretRef { namespace: "app".into(), name: "db".into() });
    assert_eq!(secret.key().0, "secret/app/db");
    assert_eq!(Scope::Cluster.label(), "cluster");
}

#[test]
fn relations_have_their_labels() {
    let label = |r: Relation| r.label();
    assert_eq!(label(Relation::CanRead), "can-read");
    assert_eq!(label(Relation::RunsImage), "runs-image");
    assert_eq!(
        label(Relation::CanDo { verb: "get".into(), resource: "secrets".into() }),
        "can-do/get/secrets"
    );
    assert_eq!(label(Relation::EscapesTo { via: "privileged".into() }), "escapes-to/privileged");
    assert!(Relation::RunsAs.is_structural());
    assert!(!Relation::CanRead.is_structural());
}

#[test]
fn a_reference_that_does_not_parse_stands_for_itself() {
    assert_eq!(canonical_image("not a reference"), "not a reference");
    assert_eq!(canonical_image("nginx"), canonical_image("nginx:latest"));
}

#[test]
fn short_and_full_references_come_to_the_same() {
    for short in ["nginx", "nginx:1.27", "localhost:5000", "foo.bar:1", "Nginx:1"] {
        if canonical_image(short) == short {
            assert_eq!(short, "Nginx:1", "a name in capitals is no reference");
            continue;
        }
        for prefix in ["docker.io/library/", "index.docker.io/library/"] {
            assert_eq!(canonical_image(short), canonical_image(&format!("{prefix}{short}")));
        }
    }
    assert_eq!(canonical_image("acme/app:1"), "docker.io/acme/app:1");
    for short in ["acme/app:1", "acme/team/app", "5000/x", "acme-labs/app", "a_b/c:1", "a--b/c"] {
        for prefix in ["docker.io/", "index.docker.io/"] {
            assert_eq!(canonical_image(short), canonical_image(&format!("{prefix}{short}")));
        }
    }
    assert_ne!(canonical_image("localhost/app"), canonical_image("docker.io/localhost/app"));
}

#[test]
fn a_digest_pins_the_image_whatever_its_tag() {
    let parts = |digest: Option<&str>, tag: Option<&str>| ImageParts {
        registry: "ghcr.io".into(),
        repository: "acme/app".into(),
        digest: digest.map(str::to_string),
        tag: tag.map(str::to_string),
    };
    assert_eq!(canonical_of(&parts(Some("sha256:a"), Some("1"))), canonical_of(&parts(Some("sha256:a"), None)));
    assert_eq!(canonical_of(&parts(None, Some("1"))), "ghcr.io/acme/app:1");
    assert_ne!(canonical_of(&parts(None, Some("1"))), canonical_of(&parts(None, Some("2"))));
}

#[test]
fn the_node_count_grows_with_new_keys_only() {
    let mut g = SecurityGraph::default();
    assert_eq!(g.index_of(&NodeKey::image("d")), None);
    let i = g.upsert_node(image("d", vec![]));
    assert_eq!(g.node_count(), 1);
    assert_eq!(g.upsert_node(image("d", vec![cve("CVE-1", Severity::Low, false)])), i);
    assert_eq!(g.node_count(), 1);
    assert_ne!(g.ensure_node(image("e", vec![])), i);
    assert_eq!(g.node_count(), 2);
    assert_eq!(g.index_of(&NodeKey::image("d")), Some(i));
}

#[test]
fn a_reference_with_its_own_host_and_a_tag_stays() {
    for written in [
        "ghcr.io/acme/app:1.2.3",
        "registry:5000/team/app:2",
        "localhost/app:v1",
        "GHCR.io/acme/a_b:1",
        "quay.io/jetstack/cert-manager:v1.20.3",
    ] {
        assert_eq!(canonical_image(written), written);
    }
    assert_eq!(canonical_image("ghcr.io/acme/app"), "ghcr.io/acme/app:latest");
    let d = format!("sha256:{}", "aB3".repeat(22));
    let d = &d[..71];
    assert_eq!(canonical_image(&format!("nginx@{d}")), format!("docker.io/library/nginx@{d}"));
    assert_eq!(canonical_image(&format!("ghcr.io/a/b:1@{d}")), format!("ghcr.io/a/b@{d}"));
    assert_eq!(canonical_image("cert-manager:_V.1-x"), "docker.io/library/cert-manager:_V.1-x");
    let longest = "a".repeat(247);
    assert_eq!(
        canonical_image(&format!("{longest}:1")),
        format!("docker.io/library/{longest}:1")
    );
    let tag = "t".repeat(128);
    assert_eq!(canonical_image(&format!("a:{tag}")), format!("docker.io/library/a:{tag}"));
    let path = "p".repeat(255);
    let hosted = format!("h.io/{path}:1");
    assert_eq!(canonical_image(&hosted), hosted);
}
