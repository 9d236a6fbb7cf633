//! What changed between two states of the security graph: the attack surface that a change added
//! or removed.

use crate::security_graph::SecurityGraph;
use crate::text;
use crate::text_set::{ascending, ascending_is_unique, TextSet};
use vstd::prelude::*;

verus! {

/// A graph as two sets of texts: its node keys, and its edge signatures
/// `source -[label]-> target`.
#[derive(Debug, Clone, PartialEq, Eq)]
pub struct GraphSnapshot {
    nodes: TextSet,
    edges: TextSet,
}

impl GraphSnapshot {
    /// The node keys.
    pub closed spec fn node_set(&self) -> Set<Seq<char>> {
        self.nodes@
    }

    /// The edge signatures.
    pub closed spec fn edge_set(&self) -> Set<Seq<char>> {
        self.edges@
    }

    /// Both sets are held in order.
    pub closed spec fn wf(&self) -> bool {
        self.nodes.wf() && self.edges.wf()
    }

    /// The snapshot of a graph.
    pub fn of(graph: &SecurityGraph) -> (r: GraphSnapshot)
        requires
            graph.wf(),
        ensures
            r.wf(),
            r.node_set() == graph.node_keys(),
            r.edge_set() == graph.edge_texts(),
    {
        GraphSnapshot { nodes: graph.key_set(), edges: graph.edge_set() }
    }
}

impl Default for GraphSnapshot {
    /// The snapshot of an empty graph.
    fn default() -> (r: Self)
        ensures
            r.wf(),
            r.node_set() == Set::<Seq<char>>::empty(),
            r.edge_set() == Set::<Seq<char>>::empty(),
    {
        GraphSnapshot { nodes: TextSet::new(), edges: TextSet::new() }
    }
}

/// What one graph state has and another has not, in ascending order.
#[derive(Debug, Clone, PartialEq, Eq, Default)]
pub struct ThreatDelta {
    pub added_nodes: Vec<String>,
    pub removed_nodes: Vec<String>,
    pub added_edges: Vec<String>,
    pub removed_edges: Vec<String>,
}

/// `v` lists, in ascending order, what `a` holds and `b` does not.
pub open spec fn lists_difference(v: Seq<String>, a: Set<Seq<char>>, b: Set<Seq<char>>) -> bool {
    ascending(text::texts(v)) && text::texts(v).to_set() == a.difference(b)
}

/// `d` says what changed from `prev` to `next`.
pub open spec fn is_delta(prev: GraphSnapshot, next: GraphSnapshot, d: ThreatDelta) -> bool {
    &&& lists_difference(d.added_nodes@, next.node_set(), prev.node_set())
    &&& lists_difference(d.removed_nodes@, prev.node_set(), next.node_set())
    &&& lists_difference(d.added_edges@, next.edge_set(), prev.edge_set())
    &&& lists_difference(d.removed_edges@, prev.edge_set(), next.edge_set())
}

/// The change from `prev` to `next`.
pub fn diff(prev: &GraphSnapshot, next: &GraphSnapshot) -> (r: ThreatDelta)
    requires
        prev.wf(),
        next.wf(),
    ensures
        is_delta(*prev, *next, r),
{
    ThreatDelta {
        added_nodes: next.nodes.difference(&prev.nodes),
        removed_nodes: prev.nodes.difference(&next.nodes),
        added_edges: next.edges.difference(&prev.edges),
        removed_edges: prev.edges.difference(&next.edges),
    }
}

impl ThreatDelta {
    /// Nothing changed.
    pub open spec fn empty(self) -> bool {
        &&& self.added_nodes@.len() == 0
        &&& self.removed_nodes@.len() == 0
        &&& self.added_edges@.len() == 0
        &&& self.removed_edges@.len() == 0
    }

    /// Whether nothing changed.
    pub fn is_empty(&self) -> (r: bool)
        ensures
            r == self.empty(),
    {
        self.added_nodes.len() == 0 && self.removed_nodes.len() == 0 && self.added_edges.len() == 0
            && self.removed_edges.len() == 0
    }
}

proof fn lemma_empty_difference(v: Seq<String>, a: Set<Seq<char>>, b: Set<Seq<char>>)
    requires
        lists_difference(v, a, b),
    ensures
        v.len() == 0 <==> a.subset_of(b),
{
    let t = text::texts(v);
    if v.len() == 0 {
        assert forall|x: Seq<char>| a.contains(x) implies b.contains(x) by {
            assert(!t.contains(x));
            assert(!t.to_set().contains(x));
            assert(!a.difference(b).contains(x));
        }
    } else {
        assert(t.contains(t[0]));
        assert(t.to_set().contains(t[0]));
        assert(a.difference(b).contains(t[0]));
    }
}

/// A delta is empty exactly when the two states have the same nodes and edges.
pub proof fn empty_iff_equal(prev: GraphSnapshot, next: GraphSnapshot, d: ThreatDelta)
    requires
        is_delta(prev, next, d),
    ensures
        d.empty() <==> prev.node_set() == next.node_set() && prev.edge_set() == next.edge_set(),
{
    lemma_empty_difference(d.added_nodes@, next.node_set(), prev.node_set());
    lemma_empty_difference(d.removed_nodes@, prev.node_set(), next.node_set());
    lemma_empty_difference(d.added_edges@, next.edge_set(), prev.edge_set());
    lemma_empty_difference(d.removed_edges@, prev.edge_set(), next.edge_set());
    if d.empty() {
        assert(prev.node_set() =~= next.node_set());
        assert(prev.edge_set() =~= next.edge_set());
    }
}

/// Comparing the two states the other way round swaps what was added with what was removed.
pub proof fn reversed_swaps_added_and_removed(
    a: GraphSnapshot,
    b: GraphSnapshot,
    there: ThreatDelta,
    back: ThreatDelta,
)
    requires
        is_delta(a, b, there),
        is_delta(b, a, back),
    ensures
        text::texts(there.added_nodes@) == text::texts(back.removed_nodes@),
        text::texts(there.removed_nodes@) == text::texts(back.added_nodes@),
        text::texts(there.added_edges@) == text::texts(back.removed_edges@),
        text::texts(there.removed_edges@) == text::texts(back.added_edges@),
{
    ascending_is_unique(text::texts(there.added_nodes@), text::texts(back.removed_nodes@));
    ascending_is_unique(text::texts(there.removed_nodes@), text::texts(back.added_nodes@));
    ascending_is_unique(text::texts(there.added_edges@), text::texts(back.removed_edges@));
    ascending_is_unique(text::texts(there.removed_edges@), text::texts(back.added_edges@));
}

/// A delta applied to the earlier state gives the later one: what was removed goes, what was added
/// comes.
pub proof fn delta_leads_to_next(prev: GraphSnapshot, next: GraphSnapshot, d: ThreatDelta)
    requires
        is_delta(prev, next, d),
    ensures
        next.node_set() == prev.node_set().difference(
            text::texts(d.removed_nodes@).to_set(),
        ).union(text::texts(d.added_nodes@).to_set()),
        next.edge_set() == prev.edge_set().difference(
            text::texts(d.removed_edges@).to_set(),
        ).union(text::texts(d.added_edges@).to_set()),
{
    assert(next.node_set() =~= prev.node_set().difference(
        prev.node_set().difference(next.node_set()),
    ).union(next.node_set().difference(prev.node_set())));
    assert(next.edge_set() =~= prev.edge_set().difference(
        prev.edge_set().difference(next.edge_set()),
    ).union(next.edge_set().difference(prev.edge_set())));
}

} // verus!
