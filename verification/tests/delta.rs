//! The difference of two states of the security graph.

use protector_view::delta::{diff, GraphSnapshot};
use protector_view::graph::{
    Edge, Exposure, Grade, Identity, Image, Node, Provenance, Relation, Trust, Workload,
};
use protector_view::image::canonical_image;
use protector_view::security_graph::SecurityGraph;
use std::collections::BTreeMap;

fn edge(relation: Relation) -> Edge {
    Edge { relation, provenance: Provenance::new("kube".into(), 0), grade: Grade::Proof }
}

/// A pod of the namespace `app`, the identity it runs as and the image it runs.
fn graph_with_pod(name: &str) -> SecurityGraph {
    let mut g = SecurityGraph::new();
    let pod = g.upsert_node(Node::Workload(Workload {
        namespace: "app".into(),
        name: name.into(),
        kind: "Pod".into(),
        labels: BTreeMap::new(),
        meshed: false,
        exposure: Exposure::Internal,
        runtime: vec![],
        persistent: false,
        misconfigs: vec![],
        rbac_findings: vec![],
    }));
    let identity = g.upsert_node(Node::Identity(Identity {
        namespace: "app".into(),
        name: "default".into(),
    }));
    let image = g.upsert_node(Node::Image(Image {
        digest: canonical_image("img:1"),
        reference: Some("img:1".into()),
        trust: Trust::Unknown,
        vulnerabilities: vec![],
        exposed_secrets: vec![],
    }));
    g.add_edge(pod, identity, edge(Relation::RunsAs));
    g.add_edge(pod, image, edge(Relation::RunsImage));
    g
}

#[test]
fn identical_states_produce_an_empty_delta() {
    let g = graph_with_pod("api");
    let a = GraphSnapshot::of(&g);
    let b = a.clone();
    assert!(diff(&a, &b).is_empty());
}

#[test]
fn adding_a_workload_shows_up_as_added_nodes_and_edges() {
    let before = GraphSnapshot::of(&SecurityGraph::new());
    let after = GraphSnapshot::of(&graph_with_pod("api"));
    let d = diff(&before, &after);
    assert!(!d.is_empty());
    assert!(
        d.added_nodes
            .iter()
            .any(|n| n.starts_with("workload/app/Pod/api"))
    );
    assert!(d.added_nodes.iter().any(|n| n.starts_with("identity/app/")));
    assert!(d.added_nodes.iter().any(|n| n.starts_with("image/")));
    assert!(d.added_edges.iter().any(|e| e.contains("runs-image")));
    assert!(d.removed_nodes.is_empty());
    assert!(d.removed_edges.is_empty());
}

#[test]
fn removing_a_workload_shows_up_as_removed() {
    let before =
        GraphSnapshot::of(&graph_with_pod("api"));
    let after = GraphSnapshot::of(&SecurityGraph::new());
    let d = diff(&before, &after);
    assert!(d.added_nodes.is_empty());
    assert!(
        d.removed_nodes
            .iter()
            .any(|n| n.starts_with("workload/app/Pod/api"))
    );
    assert!(d.removed_edges.iter().any(|e| e.contains("runs-image")));
}

#[test]
fn a_delta_reversed_swaps_added_and_removed() {
    let before = GraphSnapshot::of(&graph_with_pod("api"));
    let after = GraphSnapshot::of(&graph_with_pod("web"));
    let there = diff(&before, &after);
    let back = diff(&after, &before);
    assert_eq!(there.added_nodes, ["workload/app/Pod/web"]);
    assert_eq!(there.removed_nodes, ["workload/app/Pod/api"]);
    assert_eq!(there.added_nodes, back.removed_nodes);
    assert_eq!(there.removed_nodes, back.added_nodes);
    assert_eq!(there.added_edges, back.removed_edges);
    assert_eq!(there.added_edges.len(), 2);
}

#[test]
fn the_default_snapshot_is_that_of_an_empty_graph() {
    let empty = GraphSnapshot::of(&SecurityGraph::default());
    assert!(diff(&GraphSnapshot::default(), &empty).is_empty());
    assert!(diff(&empty, &GraphSnapshot::of(&graph_with_pod("api"))).removed_nodes.is_empty());
}
