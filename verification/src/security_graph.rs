//! The cluster security graph: nodes deduplicated by key, joined by directed edges.
//!
//! The graph is kept in a [`StableGraph`]. What that holds is named by [`graph_nodes`] and
//! [`graph_edges`]; everything the library does with it is proved from the contracts of the few
//! calls it makes.

use crate::graph::{
    Behavior, Edge, Endpoint, Image, Node, NodeKey, Relation, RuntimeSignal, ScanFinding, Severity, Vulnerability, Workload,
};
use crate::text;
use crate::text_set::TextSet;
use petgraph::stable_graph::StableGraph;
use petgraph::visit::EdgeRef;
use petgraph::visit::IntoEdgeReferences;
use vstd::prelude::*;
use vstd::string::*;

verus! {

// ---------------------------------------------------------------------------
// The outside graph
// ---------------------------------------------------------------------------

#[verifier::external_type_specification]
#[verifier::external_body]
#[verifier::reject_recursive_types(N)]
#[verifier::reject_recursive_types(E)]
#[verifier::reject_recursive_types(Ty)]
#[verifier::reject_recursive_types(Ix)]
pub struct ExStableGraph<N, E, Ty, Ix>(StableGraph<N, E, Ty, Ix>);

#[verifier::external_type_specification]
#[verifier::external_body]
pub struct ExDirected(petgraph::Directed);

/// The nodes a graph holds, by index.
pub uninterp spec fn graph_nodes(g: StableGraph<Node, Edge>) -> Map<u32, Node>;

/// The edges a graph holds, as source, target and weight, in the order they were added.
pub uninterp spec fn graph_edges(g: StableGraph<Node, Edge>) -> Seq<(u32, u32, Edge)>;

/// `StableGraph::default`: a graph with no nodes and no edges.
#[verifier::external_body]
fn empty_graph() -> (g: StableGraph<Node, Edge>)
    ensures
        forall|i: u32| !graph_nodes(g).contains_key(i),
        graph_edges(g).len() == 0,
{
    StableGraph::default()
}

/// `StableGraph::add_node`: puts the node under an index that was free, and returns the index. It
/// panics when every index of the type is taken.
#[verifier::external_body]
fn add_graph_node(g: &mut StableGraph<Node, Edge>, node: Node) -> (i: u32)
    requires
        graph_nodes(*old(g)).dom().finite(),
        graph_nodes(*old(g)).dom().len() < u32::MAX,
    ensures
        !graph_nodes(*old(g)).contains_key(i),
        graph_nodes(*final(g)) == graph_nodes(*old(g)).insert(i, node),
        graph_edges(*final(g)) == graph_edges(*old(g)),
{
    g.add_node(node).index() as u32
}

/// `StableGraph::node_weight`: the node under the index, if there is one.
#[verifier::external_body]
fn graph_node(g: &StableGraph<Node, Edge>, i: u32) -> (r: Option<&Node>)
    ensures
        r matches Some(n) ==> graph_nodes(*g).contains_key(i) && *n == graph_nodes(*g)[i],
        r is None ==> !graph_nodes(*g).contains_key(i),
{
    g.node_weight(i.into())
}

/// `StableGraph::node_weight_mut`: the node under the index, to be changed in place; nothing else
/// changes with it.
#[verifier::external_body]
fn graph_node_mut(g: &mut StableGraph<Node, Edge>, i: u32) -> (r: Option<&mut Node>)
    ensures
        r matches Some(n) ==> graph_nodes(*old(g)).contains_key(i) && *n == graph_nodes(*old(g))[i]
            && graph_nodes(*final(g)) == graph_nodes(*old(g)).insert(i, *final(n))
            && graph_edges(*final(g)) == graph_edges(*old(g)),
        r is None ==> !graph_nodes(*old(g)).contains_key(i) && *final(g) == *old(g),
{
    g.node_weight_mut(i.into())
}

/// `StableGraph::add_edge`: adds an edge between two nodes of the graph; parallel edges are kept.
/// It panics when a node is missing or every edge index is taken.
#[verifier::external_body]
fn add_graph_edge(g: &mut StableGraph<Node, Edge>, source: u32, target: u32, edge: Edge)
    requires
        graph_nodes(*old(g)).contains_key(source),
        graph_nodes(*old(g)).contains_key(target),
        graph_edges(*old(g)).len() < u32::MAX,
    ensures
        graph_nodes(*final(g)) == graph_nodes(*old(g)),
        graph_edges(*final(g)) == graph_edges(*old(g)).push((source, target, edge)),
{
    g.add_edge(source.into(), target.into(), edge);
}

/// `StableGraph::node_count`: how many nodes the graph holds.
#[verifier::external_body]
fn graph_node_count(g: &StableGraph<Node, Edge>) -> (n: usize)
    ensures
        n == graph_nodes(*g).dom().len(),
{
    g.node_count()
}

/// `StableGraph::edge_count`: how many edges the graph holds.
#[verifier::external_body]
fn graph_edge_count(g: &StableGraph<Node, Edge>) -> (n: usize)
    ensures
        n == graph_edges(*g).len(),
{
    g.edge_count()
}

/// The edges among `edges` that leave `source`, the latest first, as target and weight.
pub open spec fn leaving(edges: Seq<(u32, u32, Edge)>, source: u32) -> Seq<(u32, Edge)>
    decreases edges.len(),
{
    if edges.len() == 0 {
        Seq::empty()
    } else {
        let rest = leaving(edges.drop_last(), source);
        if edges.last().0 == source {
            seq![(edges.last().1, edges.last().2)] + rest
        } else {
            rest
        }
    }
}

/// `StableGraph::edges`: the edges that leave a node, in reverse order of their addition. Each is
/// handed out as its target's index and its weight.
#[verifier::external_body]
fn graph_edges_of<'a>(g: &'a StableGraph<Node, Edge>, source: u32) -> (r: Vec<(u32, &'a Edge)>)
    ensures
        r@.len() == leaving(graph_edges(*g), source).len(),
        forall|k: int|
            0 <= k < r@.len() ==> (#[trigger] r@[k]).0 == leaving(graph_edges(*g), source)[k].0
                && *r@[k].1 == leaving(graph_edges(*g), source)[k].1,
{
    g.edges(source.into()).map(|e| (e.target().index() as u32, e.weight())).collect()
}

/// `StableGraph::node_indices`: every index that holds a node, once each.
#[verifier::external_body]
fn graph_node_indices(g: &StableGraph<Node, Edge>) -> (r: Vec<u32>)
    ensures
        r@.no_duplicates(),
        r@.to_set() == graph_nodes(*g).dom(),
{
    g.node_indices().map(|i| i.index() as u32).collect()
}

/// `IntoEdgeReferences::edge_references`: every edge, once each, as the indices of its source and
/// target and its weight. No order is claimed.
#[verifier::external_body]
fn graph_edge_list<'a>(g: &'a StableGraph<Node, Edge>) -> (r: Vec<(u32, u32, &'a Edge)>)
    ensures
        r@.len() == graph_edges(*g).len(),
        forall|k: int|
            0 <= k < r@.len() ==> graph_edges(*g).contains(
                ((#[trigger] r@[k]).0, r@[k].1, *r@[k].2),
            ),
        forall|k: int|
            0 <= k < graph_edges(*g).len() ==> exists|j: int|
                0 <= j < r@.len() && #[trigger] graph_edges(*g)[k] == (
                    (#[trigger] r@[j]).0,
                    r@[j].1,
                    *r@[j].2,
                ),
{
    g.edge_references().map(|e| (e.source().index() as u32, e.target().index() as u32, e.weight())).collect()
}

// ---------------------------------------------------------------------------
// The graph
// ---------------------------------------------------------------------------

/// The cluster security graph. A node's key leads to its index; folding in a repeated observation
/// replaces the node and keeps its index and edges.
#[derive(Debug)]
pub struct SecurityGraph {
    graph: StableGraph<Node, Edge>,
    /// Each key that was ever folded in, once, with the index of its node.
    index: Vec<(NodeKey, u32)>,
    reachability_incomplete: bool,
}

/// The position of `key` in an index, at or behind `from`.
pub open spec fn key_at(index: Seq<(NodeKey, u32)>, key: Seq<char>, from: int) -> Option<int>
    decreases index.len() - from,
{
    if from < 0 || from >= index.len() {
        None
    } else if index[from].0.0@ == key {
        Some(from)
    } else {
        key_at(index, key, from + 1)
    }
}

proof fn lemma_key_at(index: Seq<(NodeKey, u32)>, key: Seq<char>, from: int)
    requires
        0 <= from,
    ensures
        key_at(index, key, from) matches Some(i) ==> from <= i < index.len() && index[i].0.0@ == key,
        key_at(index, key, from) is None ==> forall|i: int|
            from <= i < index.len() ==> (#[trigger] index[i]).0.0@ != key,
    decreases index.len() - from,
{
    if from < index.len() && index[from].0.0@ != key {
        lemma_key_at(index, key, from + 1);
    }
}

proof fn lemma_key_at_push(index: Seq<(NodeKey, u32)>, key: Seq<char>, from: int, added: (NodeKey, u32))
    requires
        0 <= from <= index.len(),
    ensures
        key_at(index.push(added), key, from) == (match key_at(index, key, from) {
            Some(i) => Some(i),
            None => if added.0.0@ == key {
                Some(index.len() as int)
            } else {
                None
            },
        }),
    decreases index.len() - from,
{
    let more = index.push(added);
    if from < index.len() {
        assert(more[from] == index[from]);
        if index[from].0.0@ != key {
            lemma_key_at_push(index, key, from + 1, added);
        }
    } else {
        assert(more[from] == added);
        assert(key_at(more, key, from + 1) is None);
    }
}

/// One where it holds, and none where it does not.
pub open spec fn one_if(b: bool) -> nat {
    if b {
        1
    } else {
        0
    }
}

impl SecurityGraph {
    /// The nodes, by index.
    pub closed spec fn nodes(&self) -> Map<u32, Node> {
        graph_nodes(self.graph)
    }

    /// The edges, as source, target and weight, in the order they were added.
    pub closed spec fn edges(&self) -> Seq<(u32, u32, Edge)> {
        graph_edges(self.graph)
    }

    /// The index under which `key` is known.
    pub closed spec fn place(&self, key: Seq<char>) -> Option<u32> {
        match key_at(self.index@, key, 0) {
            Some(i) => Some(self.index@[i].1),
            None => None,
        }
    }

    /// Whether reachability may be under-modeled.
    pub closed spec fn incomplete(&self) -> bool {
        self.reachability_incomplete
    }

    /// Every key leads to a node of its own, every node has a key, and edges join nodes.
    pub closed spec fn wf(&self) -> bool {
        &&& self.nodes().dom().finite()
        &&& self.nodes().dom().len() == self.index@.len()
        &&& forall|p: int|
            0 <= p < self.index@.len() ==> self.nodes().contains_key((#[trigger] self.index@[p]).1)
        &&& forall|p: int, q: int|
            0 <= p < q < self.index@.len() ==> (#[trigger] self.index@[p]).0.0@ != (
            #[trigger] self.index@[q]).0.0@ && self.index@[p].1 != self.index@[q].1
        &&& forall|i: u32| #[trigger]
            self.nodes().contains_key(i) ==> exists|p: int|
                0 <= p < self.index@.len() && (#[trigger] self.index@[p]).1 == i
        &&& forall|k: int|
            0 <= k < self.edges().len() ==> self.nodes().contains_key((#[trigger] self.edges()[k]).0)
                && self.nodes().contains_key(self.edges()[k].1)
    }

    /// Every node is known by the key it has now.
    pub open spec fn keyed(&self) -> bool {
        forall|key: Seq<char>| #[trigger]
            self.place(key) matches Some(i) ==> self.nodes()[i].key_text() == key
    }

    /// Two keys that the graph knows lead to two nodes.
    pub proof fn places_are_distinct(&self, a: Seq<char>, b: Seq<char>)
        requires
            self.wf(),
            a != b,
            self.place(a) is Some,
            self.place(b) is Some,
        ensures
            self.place(a) != self.place(b),
            self.nodes().contains_key(self.place(a).unwrap()),
    {
        lemma_key_at(self.index@, a, 0);
        lemma_key_at(self.index@, b, 0);
        let p = key_at(self.index@, a, 0).unwrap();
        let q = key_at(self.index@, b, 0).unwrap();
        if p < q {
            assert(self.index@[p].1 != self.index@[q].1);
        } else {
            assert(self.index@[q].1 != self.index@[p].1);
        }
    }

    /// No two nodes of a graph whose nodes keep their keys have the same key.
    pub proof fn nodes_are_deduplicated(&self, i: u32, j: u32)
        requires
            self.wf(),
            self.keyed(),
            self.nodes().contains_key(i),
            self.nodes().contains_key(j),
            i != j,
        ensures
            self.nodes()[i].key_text() != self.nodes()[j].key_text(),
    {
        let p = choose|p: int| 0 <= p < self.index@.len() && (#[trigger] self.index@[p]).1 == i;
        let q = choose|q: int| 0 <= q < self.index@.len() && (#[trigger] self.index@[q]).1 == j;
        self.lemma_place_of(p);
        self.lemma_place_of(q);
        if p < q {
            assert(self.index@[p].0.0@ != self.index@[q].0.0@);
        } else {
            assert(self.index@[q].0.0@ != self.index@[p].0.0@);
        }
    }

    /// Every node is found under the key it has.
    pub proof fn node_is_found(&self, i: u32)
        requires
            self.wf(),
            self.keyed(),
            self.nodes().contains_key(i),
        ensures
            self.place(self.nodes()[i].key_text()) == Some(i),
    {
        let p = choose|p: int| 0 <= p < self.index@.len() && (#[trigger] self.index@[p]).1 == i;
        self.lemma_place_of(p);
    }

    /// A graph holds finitely many nodes, and every key that it knows leads to one of them.
    pub proof fn known_keys_lead_to_nodes(&self)
        requires
            self.wf(),
        ensures
            self.nodes().dom().finite(),
            forall|k: Seq<char>| #[trigger]
                self.place(k) matches Some(i) ==> self.nodes().contains_key(i),
    {
        assert forall|k: Seq<char>| #[trigger] self.place(k) matches Some(i) implies self.nodes().contains_key(self.place(k).unwrap()) by {
            lemma_key_at(self.index@, k, 0);
        }
    }

    /// Every edge joins two nodes.
    pub proof fn edges_join_nodes(&self, k: int)
        requires
            self.wf(),
            0 <= k < self.edges().len(),
        ensures
            self.nodes().contains_key(self.edges()[k].0),
            self.nodes().contains_key(self.edges()[k].1),
    {
    }

    proof fn lemma_place_of(&self, p: int)
        requires
            self.wf(),
            0 <= p < self.index@.len(),
        ensures
            self.place(self.index@[p].0.0@) == Some(self.index@[p].1),
    {
        let key = self.index@[p].0.0@;
        lemma_key_at(self.index@, key, 0);
        let q = key_at(self.index@, key, 0).unwrap();
        if q < p {
            assert(self.index@[q].0.0@ != self.index@[p].0.0@);
        } else if p < q {
            assert(self.index@[p].0.0@ != self.index@[q].0.0@);
        }
    }

    /// An empty graph.
    pub fn new() -> (r: Self)
        ensures
            r.wf(),
            r.keyed(),
            r.nodes().dom() == Set::<u32>::empty(),
            r.edges().len() == 0,
            forall|key: Seq<char>| r.place(key) is None,
            !r.incomplete(),
    {
        let r = SecurityGraph {
            graph: empty_graph(),
            index: Vec::new(),
            reachability_incomplete: false,
        };
        assert(r.nodes().dom() =~= Set::<u32>::empty());
        r
    }

    /// Records that reachability could not be fully modeled.
    pub fn mark_reachability_incomplete(&mut self)
        requires
            old(self).wf(),
        ensures
            final(self).incomplete(),
            final(self).nodes() == old(self).nodes(),
            final(self).edges() == old(self).edges(),
            forall|key: Seq<char>| #[trigger] final(self).place(key) == old(self).place(key),
            final(self).wf(),
    {
        self.reachability_incomplete = true;
        assert(self.nodes() == old(self).nodes() && self.edges() == old(self).edges());
    }

    /// Whether reachability may be under-modeled.
    pub fn reachability_incomplete(&self) -> (r: bool)
        ensures
            r == self.incomplete(),
    {
        self.reachability_incomplete
    }

    /// The position of a key in the index.
    fn position(&self, key: &NodeKey) -> (r: Option<usize>)
        ensures
            r matches Some(p) ==> p < self.index@.len() && key_at(self.index@, key.0@, 0) == Some(
                p as int,
            ),
            r is None ==> key_at(self.index@, key.0@, 0) is None,
    {
        let mut p: usize = 0;
        while p < self.index.len()
            invariant
                p <= self.index.len(),
                key_at(self.index@, key.0@, 0) == key_at(self.index@, key.0@, p as int),
            decreases self.index.len() - p,
        {
            if text::same(self.index[p].0.0.as_str(), key.0.as_str()) {
                return Some(p);
            }
            p += 1;
        }
        None
    }

    /// The index of the node with this key, if there is one.
    pub fn index_of(&self, key: &NodeKey) -> (r: Option<u32>)
        ensures
            r == self.place(key.0@),
            self.wf() ==> (r matches Some(i) ==> self.nodes().contains_key(i)),
    {
        proof {
            if self.wf() {
                self.known_keys_lead_to_nodes();
            }
        }
        match self.position(key) {
            Some(p) => Some(self.index[p].1),
            None => None,
        }
    }

    /// Adds a node under a key that the graph does not know yet.
    fn insert_new(&mut self, key: NodeKey, node: Node) -> (r: u32)
        requires
            old(self).wf(),
            old(self).nodes().dom().len() < u32::MAX,
            old(self).place(key.0@) is None,
        ensures
            final(self).wf(),
            !old(self).nodes().contains_key(r),
            final(self).nodes() == old(self).nodes().insert(r, node),
            final(self).edges() == old(self).edges(),
            final(self).incomplete() == old(self).incomplete(),
            forall|k: Seq<char>| #[trigger]
                final(self).place(k) == (if k == key.0@ {
                    Some(r)
                } else {
                    old(self).place(k)
                }),
    {
        let ghost before = *self;
        let ghost added = key;
        let idx = add_graph_node(&mut self.graph, node);
        self.index.push((key, idx));
        proof {
            lemma_key_at(before.index@, added.0@, 0);
            assert forall|k: Seq<char>| #[trigger] self.place(k) == (if k == added.0@ {
                Some(idx)
            } else {
                before.place(k)
            }) by {
                lemma_key_at_push(before.index@, k, 0, (added, idx));
                lemma_key_at(before.index@, k, 0);
            }
            let ix = self.index@;
            assert(ix == before.index@.push((added, idx)));
            assert forall|i: u32| #[trigger] self.nodes().contains_key(i) implies exists|p: int|
                0 <= p < ix.len() && (#[trigger] ix[p]).1 == i by {
                if i == idx {
                    assert(ix[ix.len() - 1].1 == i);
                } else {
                    assert(before.nodes().contains_key(i));
                    let p = choose|p: int|
                        0 <= p < before.index@.len() && (#[trigger] before.index@[p]).1 == i;
                    assert(ix[p].1 == i);
                }
            }
            assert forall|p: int| 0 <= p < ix.len() implies self.nodes().contains_key(
                (#[trigger] ix[p]).1,
            ) by {
                if p < before.index@.len() {
                    assert(ix[p] == before.index@[p]);
                }
            }
            assert forall|p: int, q: int| 0 <= p < q < ix.len() implies (#[trigger] ix[p]).0.0@ != (
            #[trigger] ix[q]).0.0@ && ix[p].1 != ix[q].1 by {
                assert(ix[p] == before.index@[p]);
                if q < before.index@.len() {
                    assert(ix[q] == before.index@[q]);
                }
            }
            assert forall|k: int| 0 <= k < self.edges().len() implies self.nodes().contains_key(
                (#[trigger] self.edges()[k]).0,
            ) && self.nodes().contains_key(self.edges()[k].1) by {
                assert(before.edges()[k] == self.edges()[k]);
            }
        }
        idx
    }

    /// Folds a node in: a new key gets a new index, a known key has its node replaced and keeps
    /// its index and edges.
    pub fn upsert_node(&mut self, node: Node) -> (r: u32)
        requires
            old(self).wf(),
            old(self).place(node.key_text()) is None ==> old(self).nodes().dom().len() < u32::MAX,
        ensures
            final(self).wf(),
            final(self).nodes() == old(self).nodes().insert(r, node),
            final(self).nodes()[r] == node,
            old(self).place(node.key_text()) matches Some(i) ==> r == i && old(self).nodes().contains_key(r),
            old(self).place(node.key_text()) is None ==> !old(self).nodes().contains_key(r),
            final(self).nodes().dom().len() == old(self).nodes().dom().len() + one_if(old(self).place(node.key_text()) is None),
            forall|k: Seq<char>| #[trigger]
                final(self).place(k) == (if k == node.key_text() {
                    Some(r)
                } else {
                    old(self).place(k)
                }),
            final(self).edges() == old(self).edges(),
            old(self).keyed() ==> final(self).keyed(),
            final(self).incomplete() == old(self).incomplete(),
    {
        let key = node.key();
        match self.position(&key) {
            Some(p) => {
                let ghost before = *self;
                proof {
                    lemma_key_at(self.index@, key.0@, 0);
                }
                let idx = self.index[p].1;
                match graph_node_mut(&mut self.graph, idx) {
                    Some(slot) => {
                        *slot = node;
                    },
                    None => {},
                }
                assert(self.nodes() == before.nodes().insert(idx, node));
                assert(self.nodes().dom() =~= before.nodes().dom());
                assert(self.edges() == before.edges());
                assert(self.index@ == before.index@);
                proof {
                    assert forall|k: Seq<char>| k != key.0@ && before.place(k) is Some implies
                        #[trigger] before.place(k) != Some(idx) by {
                        before.places_are_distinct(k, key.0@);
                    }
                    assert forall|k: Seq<char>| before.keyed() && #[trigger] self.place(k) is Some implies
                        self.nodes()[self.place(k).unwrap()].key_text() == k by {
                        assert(self.place(k) == before.place(k));
                    }
                }
                idx
            },
            None => {
                proof {
                    self.known_keys_lead_to_nodes();
                }
                self.insert_new(key, node)
            },
        }
    }

    /// The index of the node with this key, the node being added only where the key is new. A node
    /// that is there stays as it is.
    pub fn ensure_node(&mut self, node: Node) -> (r: u32)
        requires
            old(self).wf(),
            old(self).place(node.key_text()) is None ==> old(self).nodes().dom().len() < u32::MAX,
        ensures
            final(self).wf(),
            final(self).nodes().contains_key(r),
            old(self).place(node.key_text()) matches Some(i) ==> r == i && final(self).nodes() == old(self).nodes(),
            old(self).place(node.key_text()) is None ==> !old(self).nodes().contains_key(r) && final(self).nodes() == old(self).nodes().insert(r, node),
            final(self).nodes().dom().len() == old(self).nodes().dom().len() + one_if(old(self).place(node.key_text()) is None),
            forall|k: Seq<char>| #[trigger]
                final(self).place(k) == (if k == node.key_text() {
                    Some(r)
                } else {
                    old(self).place(k)
                }),
            final(self).edges() == old(self).edges(),
            old(self).keyed() ==> final(self).keyed(),
            final(self).incomplete() == old(self).incomplete(),
    {
        let key = node.key();
        match self.position(&key) {
            Some(p) => self.index[p].1,
            None => {
                proof {
                    self.known_keys_lead_to_nodes();
                }
                self.insert_new(key, node)
            },
        }
    }

    /// Replaces the node with this key by what `update` makes of it; nothing happens where the key
    /// is unknown.
    pub fn update_node<F: FnOnce(Node) -> Node>(&mut self, key: &NodeKey, update: F)
        requires
            old(self).wf(),
            old(self).place(key.0@) matches Some(i) ==> call_requires(update, (old(self).nodes()[i],)),
        ensures
            final(self).wf(),
            old(self).place(key.0@) is None ==> final(self).nodes() == old(self).nodes(),
            old(self).place(key.0@) matches Some(i) ==> exists|n: Node|
                call_ensures(update, (old(self).nodes()[i],), n) && final(self).nodes() == old(self).nodes().insert(i, n),
            forall|k: Seq<char>| #[trigger] final(self).place(k) == old(self).place(k),
            final(self).edges() == old(self).edges(),
            final(self).incomplete() == old(self).incomplete(),
    {
        match self.position(key) {
            Some(p) => {
                let ghost before = *self;
                proof {
                    lemma_key_at(self.index@, key.0@, 0);
                }
                let idx = self.index[p].1;
                match graph_node_mut(&mut self.graph, idx) {
                    Some(slot) => {
                        let mut taken = Node::Endpoint(Endpoint { address: String::new() });
                        std::mem::swap(slot, &mut taken);
                        *slot = update(taken);
                    },
                    None => {},
                }
                assert(self.nodes().dom() =~= before.nodes().dom());
                assert(self.edges() == before.edges());
            },
            None => {},
        }
    }

    /// Adds a directed edge between two nodes of the graph.
    pub fn add_edge(&mut self, source: u32, target: u32, edge: Edge)
        requires
            old(self).wf(),
            old(self).nodes().contains_key(source),
            old(self).nodes().contains_key(target),
            old(self).edges().len() < u32::MAX,
        ensures
            final(self).wf(),
            final(self).nodes() == old(self).nodes(),
            final(self).edges() == old(self).edges().push((source, target, edge)),
            forall|k: Seq<char>| #[trigger] final(self).place(k) == old(self).place(k),
            old(self).keyed() ==> final(self).keyed(),
            final(self).incomplete() == old(self).incomplete(),
    {
        let ghost before = *self;
        add_graph_edge(&mut self.graph, source, target, edge);
        assert forall|k: Seq<char>| before.keyed() && #[trigger] self.place(k) is Some implies
            self.nodes()[self.place(k).unwrap()].key_text() == k by {
            assert(self.place(k) == before.place(k));
        }
    }

    /// The node at an index, if there is one.
    pub fn node(&self, idx: u32) -> (r: Option<&Node>)
        ensures
            r matches Some(n) ==> self.nodes().contains_key(idx) && *n == self.nodes()[idx],
            r is None ==> !self.nodes().contains_key(idx),
    {
        graph_node(&self.graph, idx)
    }

    /// The key of the node at an index, if there is one.
    pub fn key_of(&self, idx: u32) -> (r: Option<NodeKey>)
        ensures
            r matches Some(k) ==> self.nodes().contains_key(idx) && k.0@
                == self.nodes()[idx].key_text(),
            r is None ==> !self.nodes().contains_key(idx),
    {
        match graph_node(&self.graph, idx) {
            Some(n) => Some(n.key()),
            None => None,
        }
    }

    pub fn node_count(&self) -> (r: usize)
        ensures
            r == self.nodes().dom().len(),
    {
        graph_node_count(&self.graph)
    }

    pub fn edge_count(&self) -> (r: usize)
        ensures
            r == self.edges().len(),
    {
        graph_edge_count(&self.graph)
    }

    /// The keys of all nodes.
    pub open spec fn node_keys(&self) -> Set<Seq<char>> {
        self.nodes().dom().map(|i: u32| self.nodes()[i].key_text())
    }

    /// `source -[label]-> target` for an edge between two nodes.
    pub open spec fn edge_text(&self, e: (u32, u32, Edge)) -> Seq<char> {
        self.nodes()[e.0].key_text() + " -["@ + e.2.relation.label_text() + "]-> "@
            + self.nodes()[e.1].key_text()
    }

    /// The signatures of all edges.
    pub open spec fn edge_texts(&self) -> Set<Seq<char>> {
        self.edges().to_set().map(|e: (u32, u32, Edge)| self.edge_text(e))
    }

    /// The keys of all nodes, as a set.
    pub fn key_set(&self) -> (r: TextSet)
        requires
            self.wf(),
        ensures
            r.wf(),
            r@ == self.node_keys(),
    {
        let ids = graph_node_indices(&self.graph);
        let mut r = TextSet::new();
        let mut k: usize = 0;
        while k < ids.len()
            invariant
                k <= ids.len(),
                ids@.to_set() == self.nodes().dom(),
                r.wf(),
                forall|x: Seq<char>| #[trigger]
                    r@.contains(x) <==> exists|j: int|
                        0 <= j < k && self.nodes()[#[trigger] ids@[j]].key_text() == x,
            decreases ids.len() - k,
        {
            assert(ids@.to_set().contains(ids@[k as int]));
            match self.key_of(ids[k]) {
                Some(key) => {
                    let ghost before = r@;
                    r.insert(key.0);
                    assert forall|x: Seq<char>| #[trigger] r@.contains(x) implies exists|j: int|
                        0 <= j < k + 1 && self.nodes()[#[trigger] ids@[j]].key_text() == x by {
                        if before.contains(x) {
                            let j = choose|j: int|
                                0 <= j < k && self.nodes()[#[trigger] ids@[j]].key_text() == x;
                            assert(0 <= j < k + 1);
                        } else {
                            assert(self.nodes()[ids@[k as int]].key_text() == x);
                        }
                    }
                    assert forall|x: Seq<char>|
                        (exists|j: int|
                            0 <= j < k + 1 && self.nodes()[#[trigger] ids@[j]].key_text()
                                == x) implies #[trigger] r@.contains(x) by {
                        let j = choose|j: int|
                            0 <= j < k + 1 && self.nodes()[#[trigger] ids@[j]].key_text() == x;
                        if j < k {
                            assert(before.contains(x));
                        }
                    }
                },
                None => {},
            }
            k += 1;
        }
        proof {
            assert forall|x: Seq<char>| r@.contains(x) <==> self.node_keys().contains(x) by {
                if r@.contains(x) {
                    let j = choose|j: int|
                        0 <= j < ids@.len() && self.nodes()[#[trigger] ids@[j]].key_text() == x;
                    assert(ids@.to_set().contains(ids@[j]));
                }
                if self.node_keys().contains(x) {
                    let i = choose|i: u32|
                        self.nodes().dom().contains(i) && self.nodes()[i].key_text() == x;
                    assert(ids@.to_set().contains(i));
                    let j = ids@.index_of(i);
                    assert(ids@[j] == i);
                }
            }
            assert(r@ =~= self.node_keys());
        }
        r
    }

    /// The signatures of all edges, as a set.
    pub fn edge_set(&self) -> (r: TextSet)
        requires
            self.wf(),
        ensures
            r.wf(),
            r@ == self.edge_texts(),
    {
        let list = graph_edge_list(&self.graph);
        let mut r = TextSet::new();
        let mut k: usize = 0;
        while k < list.len()
            invariant
                k <= list.len(),
                self.wf(),
                forall|j: int|
                    0 <= j < list@.len() ==> self.edges().contains(
                        ((#[trigger] list@[j]).0, list@[j].1, *list@[j].2),
                    ),
                r.wf(),
                forall|x: Seq<char>| #[trigger]
                    r@.contains(x) <==> exists|j: int|
                        0 <= j < k && self.edge_text(
                            ((#[trigger] list@[j]).0, list@[j].1, *list@[j].2),
                        ) == x,
            decreases list.len() - k,
        {
            let (source, target, edge) = (list[k].0, list[k].1, list[k].2);
            proof {
                let e = (source, target, *edge);
                assert(self.edges().contains(e));
                let m = self.edges().index_of(e);
                assert(self.edges()[m] == e);
            }
            match (self.key_of(source), self.key_of(target)) {
                (Some(s), Some(t)) => {
                    let ghost before = r@;
                    let sig = s.0.concat(" -[").concat(edge.relation.label().as_str()).concat(
                        "]-> ",
                    ).concat(t.0.as_str());
                    assert(sig@ == self.edge_text((source, target, *edge)));
                    r.insert(sig);
                    assert forall|x: Seq<char>| #[trigger] r@.contains(x) implies exists|j: int|
                        0 <= j < k + 1 && self.edge_text(
                            ((#[trigger] list@[j]).0, list@[j].1, *list@[j].2),
                        ) == x by {
                        if before.contains(x) {
                            let j = choose|j: int|
                                0 <= j < k && self.edge_text(
                                    ((#[trigger] list@[j]).0, list@[j].1, *list@[j].2),
                                ) == x;
                            assert(0 <= j < k + 1);
                        } else {
                            assert(self.edge_text(
                                (list@[k as int].0, list@[k as int].1, *list@[k as int].2),
                            ) == x);
                        }
                    }
                    assert forall|x: Seq<char>|
                        (exists|j: int|
                            0 <= j < k + 1 && self.edge_text(
                                ((#[trigger] list@[j]).0, list@[j].1, *list@[j].2),
                            ) == x) implies #[trigger] r@.contains(x) by {
                        let j = choose|j: int|
                            0 <= j < k + 1 && self.edge_text(
                                ((#[trigger] list@[j]).0, list@[j].1, *list@[j].2),
                            ) == x;
                        if j < k {
                            assert(before.contains(x));
                        }
                    }
                },
                _ => {},
            }
            k += 1;
        }
        proof {
            assert forall|x: Seq<char>| r@.contains(x) <==> self.edge_texts().contains(x) by {
                if r@.contains(x) {
                    let j = choose|j: int|
                        0 <= j < list@.len() && self.edge_text(
                            ((#[trigger] list@[j]).0, list@[j].1, *list@[j].2),
                        ) == x;
                    let e = (list@[j].0, list@[j].1, *list@[j].2);
                    assert(self.edges().to_set().contains(e));
                }
                if self.edge_texts().contains(x) {
                    let e = choose|e: (u32, u32, Edge)|
                        self.edges().to_set().contains(e) && self.edge_text(e) == x;
                    let m = self.edges().index_of(e);
                    assert(self.edges()[m] == e);
                    let j = choose|j: int|
                        0 <= j < list@.len() && self.edges()[m] == (
                            (#[trigger] list@[j]).0,
                            list@[j].1,
                            *list@[j].2,
                        );
                    assert(self.edge_text((list@[j].0, list@[j].1, *list@[j].2)) == x);
                }
            }
            assert(r@ =~= self.edge_texts());
        }
        r
    }

    /// The underlying graph, for walks.
    pub fn inner(&self) -> (r: &StableGraph<Node, Edge>)
        ensures
            graph_nodes(*r) == self.nodes(),
            graph_edges(*r) == self.edges(),
    {
        &self.graph
    }

    /// What is observed about an entry: the CVEs of the images it runs that clear the foothold's
    /// bar (known to be exploited, or critical), and the behaviors seen on it. Both are empty for an
    /// unknown key and for a node that is no workload.
    pub fn entry_evidence(&self, entry_key: &NodeKey) -> (r: (Vec<Vulnerability>, Vec<Behavior>))
        ensures
            same_vulnerabilities(r.0@, self.entry_cves(entry_key.0@)),
            r.1@ == self.entry_behaviors(entry_key.0@),
    {
        let mut cves: Vec<Vulnerability> = Vec::new();
        let entry = match self.index_of(entry_key) {
            Some(i) => i,
            None => {
                return (cves, Vec::new());
            },
        };
        let behaviors = match graph_node(&self.graph, entry) {
            Some(Node::Workload(w)) => behaviors_of(&w.runtime),
            _ => {
                return (cves, Vec::new());
            },
        };
        let out = graph_edges_of(&self.graph, entry);
        let ghost model = leaving(self.edges(), entry);
        let mut k: usize = 0;
        while k < out.len()
            invariant
                k <= out.len(),
                model == leaving(self.edges(), entry),
                out@.len() == model.len(),
                forall|j: int|
                    0 <= j < out@.len() ==> (#[trigger] out@[j]).0 == model[j].0 && *out@[j].1
                        == model[j].1,
                same_vulnerabilities(cves@, cve_facts(self.nodes(), model.take(k as int))),
            decreases out.len() - k,
        {
            proof {
                assert(model.take(k + 1).drop_last() =~= model.take(k as int));
                assert(model.take(k + 1).last() == model[k as int]);
            }
            let (target, edge) = (out[k].0, out[k].1);
            match &edge.relation {
                Relation::RunsImage => match graph_node(&self.graph, target) {
                    Some(Node::Image(image)) => {
                        add_cves(&mut cves, &image.vulnerabilities);
                    },
                    _ => {},
                },
                _ => {},
            }
            k += 1;
        }
        assert(model.take(model.len() as int) =~= model);
        (cves, behaviors)
    }

    /// The CVEs that [`entry_evidence`](Self::entry_evidence) gives for a key.
    pub open spec fn entry_cves(&self, key: Seq<char>) -> Seq<Vulnerability> {
        match self.place(key) {
            Some(i) => if self.nodes().contains_key(i) && self.nodes()[i] is Workload {
                cve_facts(self.nodes(), leaving(self.edges(), i))
            } else {
                Seq::empty()
            },
            None => Seq::empty(),
        }
    }

    /// The behaviors that [`entry_evidence`](Self::entry_evidence) gives for a key.
    pub open spec fn entry_behaviors(&self, key: Seq<char>) -> Seq<Behavior> {
        match self.place(key) {
            Some(i) => if self.nodes().contains_key(i) {
                match self.nodes()[i] {
                    Node::Workload(w) => w.runtime@.map_values(|s: RuntimeSignal| s.behavior),
                    _ => Seq::empty(),
                }
            } else {
                Seq::empty()
            },
            None => Seq::empty(),
        }
    }

    /// The workload that a key leads to.
    pub open spec fn entry_workload(&self, key: Seq<char>) -> Option<Workload> {
        match self.place(key) {
            Some(i) => if self.nodes().contains_key(i) {
                match self.nodes()[i] {
                    Node::Workload(w) => Some(w),
                    _ => None,
                }
            } else {
                None
            },
            None => None,
        }
    }

    /// These are the exposed secrets, the failed configuration checks and the failed RBAC checks
    /// behind the workload that a key leads to, and none where it leads to none.
    pub open spec fn gives_findings(
        &self,
        key: Seq<char>,
        secrets: Seq<ScanFinding>,
        misconfigs: Seq<ScanFinding>,
        rbac: Seq<ScanFinding>,
    ) -> bool {
        match self.entry_workload(key) {
            Some(w) => {
                &&& same_findings(
                    secrets,
                    secret_facts(self.nodes(), leaving(self.edges(), self.place(key).unwrap())),
                )
                &&& same_findings(misconfigs, w.misconfigs@)
                &&& same_findings(rbac, w.rbac_findings@)
            },
            None => secrets.len() == 0 && misconfigs.len() == 0 && rbac.len() == 0,
        }
    }

    /// The scanner findings behind an entry that are no CVEs: the secrets exposed in the images it
    /// runs, and the failed configuration and RBAC checks of the workload itself. All three are
    /// empty for an unknown key and for a node that is no workload.
    pub fn entry_findings(&self, entry_key: &NodeKey) -> (r: (
        Vec<ScanFinding>,
        Vec<ScanFinding>,
        Vec<ScanFinding>,
    ))
        ensures
            self.gives_findings(entry_key.0@, r.0@, r.1@, r.2@),
    {
        let mut secrets: Vec<ScanFinding> = Vec::new();
        let mut misconfigs: Vec<ScanFinding> = Vec::new();
        let mut rbac: Vec<ScanFinding> = Vec::new();
        let entry = match self.index_of(entry_key) {
            Some(i) => i,
            None => {
                return (secrets, misconfigs, rbac);
            },
        };
        match graph_node(&self.graph, entry) {
            Some(Node::Workload(w)) => {
                assert(same_findings(misconfigs@, Seq::empty()));
                assert(same_findings(rbac@, Seq::empty()));
                add_findings(&mut misconfigs, &w.misconfigs);
                add_findings(&mut rbac, &w.rbac_findings);
                assert(Seq::<ScanFinding>::empty() + w.misconfigs@ =~= w.misconfigs@);
                assert(Seq::<ScanFinding>::empty() + w.rbac_findings@ =~= w.rbac_findings@);
            },
            _ => {
                return (secrets, misconfigs, rbac);
            },
        }
        let out = graph_edges_of(&self.graph, entry);
        let ghost model = leaving(self.edges(), entry);
        let mut k: usize = 0;
        while k < out.len()
            invariant
                k <= out.len(),
                model == leaving(self.edges(), entry),
                out@.len() == model.len(),
                forall|j: int|
                    0 <= j < out@.len() ==> (#[trigger] out@[j]).0 == model[j].0 && *out@[j].1
                        == model[j].1,
                same_findings(secrets@, secret_facts(self.nodes(), model.take(k as int))),
            decreases out.len() - k,
        {
            proof {
                assert(model.take(k + 1).drop_last() =~= model.take(k as int));
                assert(model.take(k + 1).last() == model[k as int]);
            }
            let (target, edge) = (out[k].0, out[k].1);
            match &edge.relation {
                Relation::RunsImage => match graph_node(&self.graph, target) {
                    Some(Node::Image(image)) => {
                        add_findings(&mut secrets, &image.exposed_secrets);
                    },
                    _ => {},
                },
                _ => {},
            }
            k += 1;
        }
        assert(model.take(model.len() as int) =~= model);
        (secrets, misconfigs, rbac)
    }
}

impl Default for SecurityGraph {
    fn default() -> (r: Self)
        ensures
            r.wf(),
            r.keyed(),
            r.nodes().dom() == Set::<u32>::empty(),
            r.edges().len() == 0,
            forall|key: Seq<char>| r.place(key) is None,
            !r.incomplete(),
    {
        SecurityGraph::new()
    }
}

// ---------------------------------------------------------------------------
// Evidence
// ---------------------------------------------------------------------------

/// The image that an edge runs, if it is an edge to an image.
pub open spec fn image_run(nodes: Map<u32, Node>, out: (u32, Edge)) -> Option<Image> {
    if out.1.relation is RunsImage && nodes.contains_key(out.0) {
        match nodes[out.0] {
            Node::Image(im) => Some(im),
            _ => None,
        }
    } else {
        None
    }
}

/// The CVEs that clear the bar in the images that the edges run, in order.
pub open spec fn cve_facts(nodes: Map<u32, Node>, out: Seq<(u32, Edge)>) -> Seq<Vulnerability>
    decreases out.len(),
{
    if out.len() == 0 {
        Seq::empty()
    } else {
        cve_facts(nodes, out.drop_last()) + (match image_run(nodes, out.last()) {
            Some(im) => im.vulnerabilities@.filter(|v: Vulnerability| v.clears_bar()),
            None => Seq::empty(),
        })
    }
}

/// The secrets exposed in the images that the edges run, in order.
pub open spec fn secret_facts(nodes: Map<u32, Node>, out: Seq<(u32, Edge)>) -> Seq<ScanFinding>
    decreases out.len(),
{
    if out.len() == 0 {
        Seq::empty()
    } else {
        secret_facts(nodes, out.drop_last()) + (match image_run(nodes, out.last()) {
            Some(im) => im.exposed_secrets@,
            None => Seq::empty(),
        })
    }
}

/// Equal lists of vulnerabilities.
pub open spec fn same_vulnerabilities(a: Seq<Vulnerability>, b: Seq<Vulnerability>) -> bool {
    a.len() == b.len() && forall|i: int| 0 <= i < a.len() ==> (#[trigger] a[i]).same_as(b[i])
}

/// Equal lists of scanner findings.
pub open spec fn same_findings(a: Seq<ScanFinding>, b: Seq<ScanFinding>) -> bool {
    a.len() == b.len() && forall|i: int| 0 <= i < a.len() ==> (#[trigger] a[i]).same_as(b[i])
}

fn behaviors_of(v: &Vec<RuntimeSignal>) -> (r: Vec<Behavior>)
    ensures
        r@ == v@.map_values(|s: RuntimeSignal| s.behavior),
{
    let mut r: Vec<Behavior> = Vec::new();
    let mut i: usize = 0;
    while i < v.len()
        invariant
            i <= v.len(),
            r@.len() == i,
            forall|j: int| 0 <= j < i ==> #[trigger] r@[j] == v@[j].behavior,
        decreases v.len() - i,
    {
        r.push(v[i].behavior.duplicate());
        i += 1;
    }
    assert(r@ =~= v@.map_values(|s: RuntimeSignal| s.behavior));
    r
}

/// Appends the vulnerabilities that clear the bar.
fn add_cves(r: &mut Vec<Vulnerability>, v: &Vec<Vulnerability>)
    ensures
        forall|s: Seq<Vulnerability>| #[trigger]
            same_vulnerabilities(old(r)@, s) ==> same_vulnerabilities(
                final(r)@,
                s + v@.filter(|x: Vulnerability| x.clears_bar()),
            ),
{
    broadcast use vstd::seq::Seq::lemma_filter_push;

    let ghost bar = |x: Vulnerability| x.clears_bar();
    let ghost before = r@;
    let mut i: usize = 0;
    assert(v@.take(0).filter(bar) =~= Seq::empty());
    while i < v.len()
        invariant
            i <= v.len(),
            bar == |x: Vulnerability| x.clears_bar(),
            r@.len() == before.len() + v@.take(i as int).filter(bar).len(),
            forall|j: int| 0 <= j < before.len() ==> #[trigger] r@[j] == before[j],
            forall|j: int|
                before.len() <= j < r@.len() ==> (#[trigger] r@[j]).same_as(
                    v@.take(i as int).filter(bar)[j - before.len()],
                ),
        decreases v.len() - i,
    {
        broadcast use vstd::seq::Seq::lemma_filter_push;

        assert(v@.take(i + 1) =~= v@.take(i as int).push(v@[i as int]));
        if v[i].exploited_in_wild || v[i].severity == Severity::Critical {
            r.push(v[i].duplicate());
        }
        i += 1;
    }
    assert(v@.take(v@.len() as int) =~= v@);
}

/// Appends scanner findings.
fn add_findings(r: &mut Vec<ScanFinding>, v: &Vec<ScanFinding>)
    ensures
        forall|s: Seq<ScanFinding>| #[trigger]
            same_findings(old(r)@, s) ==> same_findings(final(r)@, s + v@),
{
    let ghost before = r@;
    let mut i: usize = 0;
    while i < v.len()
        invariant
            i <= v.len(),
            r@.len() == before.len() + i,
            forall|j: int| 0 <= j < before.len() ==> #[trigger] r@[j] == before[j],
            forall|j: int|
                before.len() <= j < r@.len() ==> (#[trigger] r@[j]).same_as(v@[j - before.len()]),
        decreases v.len() - i,
    {
        r.push(v[i].duplicate());
        i += 1;
    }
}

} // verus!
