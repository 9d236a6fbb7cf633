//! What the security graph gives about an entry, in terms of its nodes and edges.

use crate::graph::{Edge, Image, Node, Relation, ScanFinding, Severity, Vulnerability, Workload};
use crate::security_graph::{
    cve_facts, image_run, leaving, same_vulnerabilities, secret_facts, SecurityGraph,
};
use vstd::prelude::*;

verus! {

/// The edge at `e` runs the image `im` from the node at `source`.
pub open spec fn runs(g: SecurityGraph, source: u32, e: int, im: Image) -> bool {
    &&& 0 <= e < g.edges().len()
    &&& g.edges()[e].0 == source
    &&& g.edges()[e].2.relation == Relation::RunsImage
    &&& g.nodes().contains_key(g.edges()[e].1)
    &&& g.nodes()[g.edges()[e].1] == Node::Image(im)
}

/// The key leads to this workload, at this index.
pub open spec fn leads_to(g: SecurityGraph, key: Seq<char>, at: u32, w: Workload) -> bool {
    &&& g.place(key) == Some(at)
    &&& g.nodes().contains_key(at)
    &&& g.nodes()[at] == Node::Workload(w)
}

/// Behaviors are given verbatim: as many as there are signals on the workload, the i-th being that of
/// the i-th signal.
pub proof fn behaviors_are_verbatim(g: SecurityGraph, key: Seq<char>, at: u32, w: Workload)
    requires
        leads_to(g, key, at, w),
    ensures
        g.entry_behaviors(key).len() == w.runtime@.len(),
        forall|i: int|
            0 <= i < w.runtime@.len() ==> #[trigger] g.entry_behaviors(key)[i]
                == w.runtime@[i].behavior,
{
}

/// A key that is not known, or that leads to what is no workload, has no evidence.
pub proof fn only_workloads_have_evidence(g: SecurityGraph, key: Seq<char>)
    requires
        match g.place(key) {
            Some(i) => g.nodes().contains_key(i) && !(g.nodes()[i] is Workload),
            None => true,
        },
    ensures
        g.entry_behaviors(key).len() == 0,
        g.entry_cves(key).len() == 0,
        g.entry_workload(key) is None,
{
}

proof fn lemma_leaving(edges: Seq<(u32, u32, Edge)>, source: u32, t: u32, e: Edge)
    ensures
        leaving(edges, source).contains((t, e)) <==> edges.contains((source, t, e)),
    decreases edges.len(),
{
    let out = leaving(edges, source);
    if edges.len() == 0 {
        assert(!out.contains((t, e)));
        assert(!edges.contains((source, t, e)));
    } else {
        let l = edges.last();
        let d = edges.drop_last();
        let rest = leaving(d, source);
        lemma_leaving(d, source, t, e);
        assert(edges =~= d.push(l));
        if d.contains((source, t, e)) {
            let k = d.index_of((source, t, e));
            assert(edges[k] == (source, t, e));
        }
        if edges.contains((source, t, e)) && l != (source, t, e) {
            let k = edges.index_of((source, t, e));
            assert(d[k] == (source, t, e));
        }
        if l.0 == source {
            assert(out =~= seq![(l.1, l.2)] + rest);
            assert(out[0] == (l.1, l.2));
            if rest.contains((t, e)) {
                let k = rest.index_of((t, e));
                assert(out[k + 1] == (t, e));
            }
            if out.contains((t, e)) && (l.1, l.2) != (t, e) {
                let k = out.index_of((t, e));
                assert(rest[k - 1] == (t, e));
            }
            if l == (source, t, e) {
                assert(edges[edges.len() - 1] == l);
            }
        } else {
            assert(out == rest);
        }
    }
}

proof fn lemma_cve_facts(nodes: Map<u32, Node>, out: Seq<(u32, Edge)>, v: Vulnerability)
    ensures
        cve_facts(nodes, out).contains(v) <==> exists|k: int|
            0 <= k < out.len() && (image_run(nodes, #[trigger] out[k]) matches Some(im)
                && im.vulnerabilities@.contains(v) && (v.exploited_in_wild || v.severity
                == Severity::Critical)),
    decreases out.len(),
{
    let bar = |x: Vulnerability| x.clears_bar();
    let all = cve_facts(nodes, out);
    if out.len() > 0 {
        let d = out.drop_last();
        let rest = cve_facts(nodes, d);
        lemma_cve_facts(nodes, d, v);
        let last = out[out.len() - 1];
        let more: Seq<Vulnerability> = match image_run(nodes, last) {
            Some(im) => im.vulnerabilities@.filter(bar),
            None => Seq::empty(),
        };
        assert(all == rest + more);
        if rest.contains(v) {
            let i = rest.index_of(v);
            assert(all[i] == v);
            let k = choose|k: int|
                0 <= k < d.len() && (image_run(nodes, #[trigger] d[k]) matches Some(im)
                    && im.vulnerabilities@.contains(v) && (v.exploited_in_wild || v.severity
                    == Severity::Critical));
            assert(out[k] == d[k]);
        }
        if more.contains(v) {
            let i = more.index_of(v);
            assert(all[rest.len() + i] == v);
            let im = image_run(nodes, last).unwrap();
            im.vulnerabilities@.lemma_filter_contains_rev(bar, v);
            im.vulnerabilities@.lemma_filter_pred(bar, i);
            assert(image_run(nodes, out[out.len() - 1]) == Some(im));
        }
        if all.contains(v) && !rest.contains(v) {
            let i = all.index_of(v);
            if i < rest.len() {
                assert(rest[i] == v);
            } else {
                assert(more[i - rest.len()] == v);
            }
        }
        if exists|k: int|
            0 <= k < out.len() && (image_run(nodes, #[trigger] out[k]) matches Some(im)
                && im.vulnerabilities@.contains(v) && (v.exploited_in_wild || v.severity
                == Severity::Critical)) {
            let k = choose|k: int|
                0 <= k < out.len() && (image_run(nodes, #[trigger] out[k]) matches Some(im)
                    && im.vulnerabilities@.contains(v) && (v.exploited_in_wild || v.severity
                    == Severity::Critical));
            if k < d.len() {
                assert(d[k] == out[k]);
            } else {
                let im = image_run(nodes, last).unwrap();
                let m = im.vulnerabilities@.index_of(v);
                im.vulnerabilities@.lemma_filter_contains(bar, m);
                assert(more.contains(v));
            }
        }
    } else {
        assert(!all.contains(v));
    }
}

/// The CVEs on an entry are those of the images it runs that are known to be exploited or critical:
/// every one of them, and no other.
pub proof fn cves_are_those_of_its_images(
    g: SecurityGraph,
    key: Seq<char>,
    at: u32,
    w: Workload,
    v: Vulnerability,
)
    requires
        leads_to(g, key, at, w),
    ensures
        g.entry_cves(key).contains(v) <==> exists|e: int, im: Image|
            #![trigger runs(g, at, e, im)]
            runs(g, at, e, im) && im.vulnerabilities@.contains(v) && (v.exploited_in_wild
                || v.severity == Severity::Critical),
{
    let out = leaving(g.edges(), at);
    lemma_cve_facts(g.nodes(), out, v);
    if g.entry_cves(key).contains(v) {
        let k = choose|k: int|
            0 <= k < out.len() && (image_run(g.nodes(), #[trigger] out[k]) matches Some(im)
                && im.vulnerabilities@.contains(v) && (v.exploited_in_wild || v.severity
                == Severity::Critical));
        let im = image_run(g.nodes(), out[k]).unwrap();
        lemma_leaving(g.edges(), at, out[k].0, out[k].1);
        assert(out.contains(out[k]));
        let e = g.edges().index_of((at, out[k].0, out[k].1));
        assert(g.edges()[e] == (at, out[k].0, out[k].1));
        assert(runs(g, at, e, im));
    }
    if exists|e: int, im: Image|
        #![trigger runs(g, at, e, im)]
        runs(g, at, e, im) && im.vulnerabilities@.contains(v) && (v.exploited_in_wild || v.severity
            == Severity::Critical) {
        let (e, im) = choose|e: int, im: Image|
            #![trigger runs(g, at, e, im)]
            runs(g, at, e, im) && im.vulnerabilities@.contains(v) && (v.exploited_in_wild
                || v.severity == Severity::Critical);
        let x = g.edges()[e];
        assert(g.edges().contains(x));
        assert(x == (at, x.1, x.2));
        lemma_leaving(g.edges(), at, x.1, x.2);
        let k = out.index_of((x.1, x.2));
        assert(out[k] == (x.1, x.2));
        assert(image_run(g.nodes(), out[k]) == Some(im));
    }
}

proof fn lemma_leaving_push(edges: Seq<(u32, u32, Edge)>, x: (u32, u32, Edge), source: u32)
    ensures
        leaving(edges.push(x), source) == (if x.0 == source {
            seq![(x.1, x.2)] + leaving(edges, source)
        } else {
            leaving(edges, source)
        }),
{
    assert(edges.push(x).drop_last() =~= edges);
}

proof fn lemma_cve_facts_front(nodes: Map<u32, Node>, x: (u32, Edge), out: Seq<(u32, Edge)>)
    ensures
        cve_facts(nodes, seq![x] + out) == cve_facts(nodes, seq![x]) + cve_facts(nodes, out),
        secret_facts(nodes, seq![x] + out) == secret_facts(nodes, seq![x]) + secret_facts(
            nodes,
            out,
        ),
    decreases out.len(),
{
    let s = seq![x] + out;
    if out.len() == 0 {
        assert(s =~= seq![x]);
        assert(cve_facts(nodes, seq![x]) + cve_facts(nodes, out) =~= cve_facts(nodes, seq![x]));
        assert(secret_facts(nodes, seq![x]) + secret_facts(nodes, out) =~= secret_facts(
            nodes,
            seq![x],
        ));
    } else {
        lemma_cve_facts_front(nodes, x, out.drop_last());
        assert(s.drop_last() =~= seq![x] + out.drop_last());
        assert(s.last() == out.last());
        assert(cve_facts(nodes, s) =~= cve_facts(nodes, seq![x]) + cve_facts(nodes, out));
        assert(secret_facts(nodes, s) =~= secret_facts(nodes, seq![x]) + secret_facts(nodes, out));
    }
}

/// Running one more image puts what it brings in front and keeps the rest: its CVEs that clear the
/// bar and all its exposed secrets, each in the image's order and none left out. An edge of another
/// node, or another relation, changes nothing.
pub proof fn one_more_image_adds_its_facts(
    nodes: Map<u32, Node>,
    edges: Seq<(u32, u32, Edge)>,
    source: u32,
    x: (u32, u32, Edge),
)
    ensures
        x.0 == source && x.2.relation == Relation::RunsImage && nodes.contains_key(x.1)
            && nodes[x.1] is Image ==> ({
            let im = nodes[x.1]->Image_0;
            &&& cve_facts(nodes, leaving(edges.push(x), source)) == im.vulnerabilities@.filter(
                |v: Vulnerability| v.exploited_in_wild || v.severity == Severity::Critical,
            ) + cve_facts(nodes, leaving(edges, source))
            &&& secret_facts(nodes, leaving(edges.push(x), source)) == im.exposed_secrets@
                + secret_facts(nodes, leaving(edges, source))
        }),
        x.0 != source || x.2.relation != Relation::RunsImage || !nodes.contains_key(x.1)
            || !(nodes[x.1] is Image) ==> cve_facts(nodes, leaving(edges.push(x), source))
            == cve_facts(nodes, leaving(edges, source)) && secret_facts(
            nodes,
            leaving(edges.push(x), source),
        ) == secret_facts(nodes, leaving(edges, source)),
        cve_facts(nodes, leaving(Seq::empty(), source)).len() == 0,
        secret_facts(nodes, leaving(Seq::empty(), source)).len() == 0,
{
    let y = (x.1, x.2);
    let out = leaving(edges, source);
    lemma_leaving_push(edges, x, source);
    lemma_cve_facts_front(nodes, y, out);
    assert((|v: Vulnerability| v.exploited_in_wild || v.severity == Severity::Critical)
        =~= (|v: Vulnerability| v.clears_bar()));
    let one = seq![y];
    assert(one.drop_last() =~= Seq::empty());
    assert(one.last() == y);
    assert(cve_facts(nodes, Seq::empty()) =~= Seq::empty());
    assert(secret_facts(nodes, Seq::empty()) =~= Seq::empty());
    match image_run(nodes, y) {
        Some(im) => {
            assert(cve_facts(nodes, one) =~= im.vulnerabilities@.filter(
                |v: Vulnerability| v.clears_bar(),
            ));
            assert(secret_facts(nodes, one) =~= im.exposed_secrets@);
        },
        None => {
            assert(cve_facts(nodes, one) =~= Seq::empty());
            assert(secret_facts(nodes, one) =~= Seq::empty());
            assert(Seq::<Vulnerability>::empty() + cve_facts(nodes, out) =~= cve_facts(nodes, out));
            assert(Seq::<ScanFinding>::empty() + secret_facts(nodes, out) =~= secret_facts(
                nodes,
                out,
            ));
        },
    }
}

/// The evidence on an entry is what the edges of its node bring, and the workload's own facts are
/// its own.
pub proof fn entry_reads_its_own_node(g: SecurityGraph, key: Seq<char>, at: u32, w: Workload)
    requires
        leads_to(g, key, at, w),
    ensures
        g.entry_workload(key) == Some(w),
        g.entry_cves(key) == cve_facts(g.nodes(), leaving(g.edges(), at)),
{
}

/// The keys of a graph are those of its nodes, and an edge reads as its source's key, its relation's
/// label and its target's key, in that order.
pub proof fn keys_and_edges_are_read_off(g: SecurityGraph, i: u32, k: int)
    requires
        g.wf(),
        g.nodes().contains_key(i),
        0 <= k < g.edges().len(),
    ensures
        g.node_keys().contains(g.nodes()[i].key_text()),
        g.edge_texts().contains(
            g.nodes()[g.edges()[k].0].key_text() + " -["@ + g.edges()[k].2.relation.label_text()
                + "]-> "@ + g.nodes()[g.edges()[k].1].key_text(),
        ),
{
    let f = |i: u32| g.nodes()[i].key_text();
    assert(g.nodes().dom().contains(i));
    assert(g.nodes().dom().map(f).contains(f(i)));
    let h = |e: (u32, u32, Edge)| g.edge_text(e);
    assert(g.edges().to_set().contains(g.edges()[k]));
    assert(g.edges().to_set().map(h).contains(h(g.edges()[k])));
}

/// A graph has no key but those of its nodes, and no edge but its own.
pub proof fn nothing_else_is_read(g: SecurityGraph, key: Seq<char>, sig: Seq<char>)
    requires
        g.wf(),
    ensures
        g.node_keys().contains(key) ==> exists|i: u32| #[trigger]
            g.nodes().contains_key(i) && g.nodes()[i].key_text() == key,
        g.edge_texts().contains(sig) ==> exists|k: int|
            0 <= k < g.edges().len() && sig == g.nodes()[(#[trigger] g.edges()[k]).0].key_text()
                + " -["@ + g.edges()[k].2.relation.label_text() + "]-> "@
                + g.nodes()[g.edges()[k].1].key_text(),
{
    if g.node_keys().contains(key) {
        let i = choose|i: u32| g.nodes().dom().contains(i) && g.nodes()[i].key_text() == key;
        assert(g.nodes().contains_key(i));
    }
    if g.edge_texts().contains(sig) {
        let e = choose|e: (u32, u32, Edge)| g.edges().to_set().contains(e) && g.edge_text(e) == sig;
        let k = g.edges().index_of(e);
        assert(g.edges()[k] == e);
    }
}

/// What is given is what the graph holds, in full: as many vulnerabilities, each with the same facts
/// in the same place.
pub proof fn given_vulnerabilities_are_those_held(
    a: Seq<Vulnerability>,
    b: Seq<Vulnerability>,
    i: int,
)
    requires
        same_vulnerabilities(a, b),
        0 <= i < b.len(),
    ensures
        a.len() == b.len(),
        a[i].id == b[i].id,
        a[i].severity == b[i].severity,
        a[i].exploited_in_wild == b[i].exploited_in_wild,
        a[i].epss == b[i].epss,
        a[i].reachability == b[i].reachability,
        a[i].sources@ == b[i].sources@,
{
    assert(a[i].same_as(b[i]));
}

/// The scanner findings on an entry are given under their own heading, in full and in order: the
/// failed checks of the workload as it carries them, and the secrets of the images it runs.
pub proof fn findings_are_given_under_their_heading(
    g: SecurityGraph,
    key: Seq<char>,
    at: u32,
    w: Workload,
    secrets: Seq<ScanFinding>,
    misconfigs: Seq<ScanFinding>,
    rbac: Seq<ScanFinding>,
    i: int,
)
    requires
        leads_to(g, key, at, w),
        g.gives_findings(key, secrets, misconfigs, rbac),
    ensures
        misconfigs.len() == w.misconfigs@.len(),
        0 <= i < misconfigs.len() ==> misconfigs[i].id == w.misconfigs@[i].id
            && misconfigs[i].severity == w.misconfigs@[i].severity && misconfigs[i].title
            == w.misconfigs@[i].title,
        rbac.len() == w.rbac_findings@.len(),
        0 <= i < rbac.len() ==> rbac[i].id == w.rbac_findings@[i].id && rbac[i].severity
            == w.rbac_findings@[i].severity && rbac[i].title == w.rbac_findings@[i].title,
        secrets.len() == secret_facts(g.nodes(), leaving(g.edges(), at)).len(),
        0 <= i < secrets.len() ==> secrets[i].id == secret_facts(
            g.nodes(),
            leaving(g.edges(), at),
        )[i].id,
{
    if 0 <= i < misconfigs.len() {
        assert(misconfigs[i].same_as(w.misconfigs@[i]));
    }
    if 0 <= i < rbac.len() {
        assert(rbac[i].same_as(w.rbac_findings@[i]));
    }
    if 0 <= i < secrets.len() {
        assert(secrets[i].same_as(secret_facts(g.nodes(), leaving(g.edges(), at))[i]));
    }
}

} // verus!
