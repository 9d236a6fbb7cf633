//! What the picture of an entry's reach holds, in terms of the steps of its findings.

use crate::graph::{kind_text, short_text};
use crate::order;
use crate::seqs::{lemma_filter_member, lemma_sorted_member};
use crate::state::{EndpointFinding, PathStep};
use crate::text;
use crate::view_model::endpoints::table::{
    arriving_steps, drawing, drawn_group, drawn_hop, drawn_step, edges_shown, fan_of, fans,
    fans_shown, fresh, group_of, groups, has_step, members, passing_steps, shows_graph,
    shows_remediation, step_key, steps, GraphProps, RemediationProps,
};
use crate::view_model::endpoints::words::relation_text;
use crate::view_model::triples::{lemma_ordered, Key};
use vstd::prelude::*;

verus! {

/// One more finding adds its steps, in the order of its path: those that land on its objective to
/// the arriving ones, all others to the passing ones.
pub proof fn one_more_finding_adds_its_steps(fs: Seq<&EndpointFinding>, f: &EndpointFinding)
    ensures
        arriving_steps(Seq::empty()).len() == 0,
        passing_steps(Seq::empty()).len() == 0,
        arriving_steps(fs.push(f)) == arriving_steps(fs) + f.path@.filter(
            |s: PathStep| (s.to@ == f.objective@) == true,
        ),
        passing_steps(fs.push(f)) == passing_steps(fs) + f.path@.filter(
            |s: PathStep| (s.to@ == f.objective@) == false,
        ),
{
    let t = fs.push(f);
    let n = fs.len() as int;
    lemma_steps_prefix(fs, f, true, n);
    lemma_steps_prefix(fs, f, false, n);
    lemma_last_steps(t, true);
    lemma_last_steps(t, false);
}

proof fn lemma_last_steps(t: Seq<&EndpointFinding>, arrives: bool)
    requires
        t.len() > 0,
    ensures
        steps(t, arrives, t.len() as int) == steps(t, arrives, t.len() - 1) + t[t.len()
            - 1].path@.filter(|s: PathStep| (s.to@ == t[t.len() - 1].objective@) == arrives),
{
}

proof fn lemma_steps_prefix(fs: Seq<&EndpointFinding>, f: &EndpointFinding, arrives: bool, n: int)
    requires
        0 <= n <= fs.len(),
    ensures
        steps(fs.push(f), arrives, n) == steps(fs, arrives, n),
    decreases n,
{
    if n > 0 {
        lemma_steps_prefix(fs, f, arrives, n - 1);
        assert(fs.push(f)[n - 1] == fs[n - 1]);
    }
}

/// The step stands in the path of the finding at `m`, and lands on its objective or passes.
pub open spec fn stands(fs: Seq<&EndpointFinding>, arrives: bool, m: int, k: int, s: PathStep) -> bool {
    &&& 0 <= m < fs.len()
    &&& 0 <= k < fs[m].path@.len()
    &&& fs[m].path@[k] == s
    &&& (s.to@ == fs[m].objective@) == arrives
}

proof fn lemma_steps_member(fs: Seq<&EndpointFinding>, arrives: bool, n: int, s: PathStep)
    requires
        0 <= n <= fs.len(),
    ensures
        steps(fs, arrives, n).contains(s) <==> exists|m: int, k: int|
            m < n && #[trigger] stands(fs, arrives, m, k, s),
    decreases n,
{
    if n > 0 {
        lemma_steps_member(fs, arrives, n - 1, s);
        let path = fs[n - 1].path@;
        let p = |s: PathStep| (s.to@ == fs[n - 1].objective@) == arrives;
        let before = steps(fs, arrives, n - 1);
        let more = path.filter(p);
        let all = steps(fs, arrives, n);
        assert(all == before + more);
        lemma_filter_member(path, p, s);
        if all.contains(s) {
            let i = all.index_of(s);
            if i < before.len() {
                assert(before[i] == s);
                let (m, k) = choose|m: int, k: int|
                    m < n - 1 && #[trigger] stands(fs, arrives, m, k, s);
                assert(m < n && stands(fs, arrives, m, k, s));
            } else {
                assert(more[i - before.len()] == s);
                let k = path.index_of(s);
                assert(stands(fs, arrives, n - 1, k, s));
            }
        }
        if exists|m: int, k: int| m < n && #[trigger] stands(fs, arrives, m, k, s) {
            let (m, k) = choose|m: int, k: int| m < n && #[trigger] stands(fs, arrives, m, k, s);
            if m < n - 1 {
                let i = before.index_of(s);
                assert(all[i] == s);
            } else {
                assert(path.contains(path[k]));
                let i = more.index_of(s);
                assert(all[before.len() + i] == s);
            }
        }
    } else {
        assert(!steps(fs, arrives, n).contains(s));
    }
}

/// Each passing step is kept once, by what it says: every step has a kept one that says the same,
/// every kept one is a step, and no two kept ones say the same.
proof fn lemma_fresh(v: Seq<PathStep>)
    ensures
        forall|i: int| 0 <= i < v.len() ==> has_step(fresh(v), step_key(#[trigger] v[i])),
        forall|i: int| 0 <= i < fresh(v).len() ==> v.contains(#[trigger] fresh(v)[i]),
        forall|i: int, j: int|
            0 <= i < j < fresh(v).len() ==> step_key(#[trigger] fresh(v)[i]) != step_key(
                #[trigger] fresh(v)[j],
            ),
    decreases v.len(),
{
    if v.len() > 0 {
        let d = v.drop_last();
        let rest = fresh(d);
        let all = fresh(v);
        let l = v.last();
        lemma_fresh(d);
        assert forall|i: int| 0 <= i < v.len() implies has_step(all, step_key(#[trigger] v[i])) by {
            if i < d.len() {
                assert(d[i] == v[i]);
                let j = choose|j: int|
                    0 <= j < rest.len() && step_key(#[trigger] rest[j]) == step_key(v[i]);
                assert(all[j] == rest[j]);
            } else if has_step(rest, step_key(l)) {
            } else {
                assert(all[rest.len() as int] == l);
            }
        }
        assert forall|i: int| 0 <= i < all.len() implies v.contains(#[trigger] all[i]) by {
            if i < rest.len() {
                assert(all[i] == rest[i]);
                let j = d.index_of(rest[i]);
                assert(v[j] == rest[i]);
            } else {
                assert(v[v.len() - 1] == l);
            }
        }
        assert forall|i: int, j: int| 0 <= i < j < all.len() implies step_key(#[trigger] all[i])
            != step_key(#[trigger] all[j]) by {
            assert(all[i] == rest[i]);
            if j < rest.len() {
                assert(all[j] == rest[j]);
            }
        }
    }
}

/// No bar stands in the texts of a step, as in none that the graph's keys and relations give.
pub open spec fn has_no_bar(s: PathStep) -> bool {
    !s.from@.contains('|') && !s.to@.contains('|') && !s.relation@.contains('|')
}

proof fn lemma_step_key(s: PathStep, t: PathStep)
    requires
        has_no_bar(s),
        step_key(s) == step_key(t),
    ensures
        s.from@ == t.from@,
        s.to@ == t.to@,
        s.relation@ == t.relation@,
{
    reveal_strlit("|");
    assert("|"@ =~= seq!['|']);
    let key = step_key(s);
    let a = s.from@.len() as int;
    let b = a + 1 + s.to@.len();
    let c = t.from@.len() as int;
    let d = c + 1 + t.to@.len();
    assert forall|i: int| 0 <= i < key.len() && #[trigger] key[i] == '|' implies i == a || i == b by {
        if i < a {
            assert(key[i] == s.from@[i]);
            assert(s.from@.contains(s.from@[i]));
        } else if a < i < b {
            assert(key[i] == s.to@[i - a - 1]);
            assert(s.to@.contains(s.to@[i - a - 1]));
        } else if i > b {
            assert(key[i] == s.relation@[i - b - 1]);
            assert(s.relation@.contains(s.relation@[i - b - 1]));
        }
    }
    assert(step_key(t)[c] == '|');
    assert(step_key(t)[d] == '|');
    assert(c == a && d == b);
    assert(s.from@ =~= key.take(a) && t.from@ =~= key.take(a));
    assert(s.to@ =~= key.subrange(a + 1, b) && t.to@ =~= key.subrange(a + 1, b));
    assert(s.relation@ =~= key.skip(b + 1) && t.relation@ =~= key.skip(b + 1));
}

/// Every step of a path that does not land on the objective is drawn, from where it starts to where
/// it leads, under its own relation.
pub proof fn every_passing_step_is_drawn(
    entry: Seq<char>,
    fs: Seq<&EndpointFinding>,
    g: GraphProps,
    m: int,
    k: int,
)
    requires
        shows_graph(entry, fs, g),
        0 <= m < fs.len(),
        0 <= k < fs[m].path@.len(),
        fs[m].path@[k].to@ != fs[m].objective@,
        has_no_bar(fs[m].path@[k]),
    ensures
        exists|e: int|
            0 <= e < g.edges@.len() && (#[trigger] g.edges@[e]).from@ == fs[m].path@[k].from@
                && g.edges@[e].to@ == fs[m].path@[k].to@ && g.edges@[e].edge_label@ == relation_text(
                fs[m].path@[k].relation@,
            ) && g.edges@[e].to_label is None,
{
    let s = fs[m].path@[k];
    let v = passing_steps(fs);
    assert(stands(fs, false, m, k, s));
    lemma_steps_member(fs, false, fs.len() as int, s);
    let i = v.index_of(s);
    lemma_fresh(v);
    assert(has_step(fresh(v), step_key(v[i])));
    let e = choose|j: int| 0 <= j < fresh(v).len() && step_key(#[trigger] fresh(v)[j]) == step_key(s);
    lemma_step_key(s, fresh(v)[e]);
    assert(drawing(fs)[e] == drawn_step(fresh(v)[e]));
    assert(edges_shown(g.edges@)[e] == g.edges@[e]@);
    assert(g.edges@[e].from@ == s.from@);
}

proof fn lemma_members(v: Seq<PathStep>, k: Key, t: Seq<char>)
    ensures
        members(v, k).contains(t) <==> exists|i: int|
            0 <= i < v.len() && group_of(#[trigger] v[i]) == k && v[i].to@ == t,
{
    let p = |s: PathStep| group_of(s) == k;
    let f = |s: PathStep| s.to@;
    let w = v.filter(p);
    let all = members(v, k);
    if all.contains(t) {
        let i = all.index_of(t);
        assert(w.contains(w[i]));
        lemma_filter_member(v, p, w[i]);
        let j = v.index_of(w[i]);
        assert(group_of(v[j]) == k && v[j].to@ == t);
    }
    if exists|i: int| 0 <= i < v.len() && group_of(#[trigger] v[i]) == k && v[i].to@ == t {
        let i = choose|i: int| 0 <= i < v.len() && group_of(#[trigger] v[i]) == k && v[i].to@ == t;
        assert(v.contains(v[i]));
        lemma_filter_member(v, p, v[i]);
        let j = w.index_of(v[i]);
        assert(all[j] == t);
    }
}

/// Every step that lands on its objective is drawn, from where it starts and under its own relation:
/// to the objective itself, or to a node that stands for it and others of its kind, which says how
/// many.
pub proof fn every_arriving_step_is_drawn(
    entry: Seq<char>,
    fs: Seq<&EndpointFinding>,
    g: GraphProps,
    m: int,
    k: int,
)
    requires
        shows_graph(entry, fs, g),
        0 <= m < fs.len(),
        0 <= k < fs[m].path@.len(),
        fs[m].path@[k].to@ == fs[m].objective@,
    ensures
        exists|e: int|
            0 <= e < g.edges@.len() && (#[trigger] g.edges@[e]).from@ == fs[m].path@[k].from@
                && g.edges@[e].edge_label@ == relation_text(fs[m].path@[k].relation@) && (
            if g.edges@[e].to_label is None {
                g.edges@[e].to@ == fs[m].objective@
            } else {
                g.edges@[e].to@ == kind_text(fs[m].objective@) + "/__agg/"@ + fs[m].path@[k].from@
                    + "/"@ + fs[m].path@[k].relation@
            }),
{
    let s = fs[m].path@[k];
    let v = arriving_steps(fs);
    assert(stands(fs, true, m, k, s));
    lemma_steps_member(fs, true, fs.len() as int, s);
    let i = v.index_of(s);
    let f = |s: PathStep| group_of(s);
    let key = group_of(s);
    lemma_ordered(v.map_values(f));
    assert(v.map_values(f)[i] == key);
    assert(v.map_values(f).contains(key));
    assert(groups(v).contains(key));
    let q = groups(v).index_of(key);
    lemma_members(v, key, s.to@);
    assert(group_of(v[i]) == key);
    let e = fresh(passing_steps(fs)).len() + q;
    assert(drawing(fs)[e] == drawn_group(v, key));
    assert(edges_shown(g.edges@)[e] == g.edges@[e]@);
    let mem = members(v, key);
    if mem.len() == 1 {
        let x = mem.index_of(s.to@);
        assert(mem[0] == s.to@);
    }
    assert(g.edges@[e].from@ == s.from@);
}

/// Nothing else is drawn: every edge starts where some step starts, under its relation, and leads to
/// where that step leads or to a node that stands for it.
pub proof fn only_steps_are_drawn(
    entry: Seq<char>,
    fs: Seq<&EndpointFinding>,
    g: GraphProps,
    e: int,
)
    requires
        shows_graph(entry, fs, g),
        0 <= e < g.edges@.len(),
    ensures
        g.hops == g.edges@.len(),
        !g.edges@[e].cut,
        exists|m: int, k: int|
            0 <= m < fs.len() && 0 <= k < fs[m].path@.len() && ({
                let s = #[trigger] fs[m].path@[k];
                &&& g.edges@[e].from@ == s.from@
                &&& g.edges@[e].edge_label@ == relation_text(s.relation@)
                &&& g.edges@[e].to_label is None ==> g.edges@[e].to@ == s.to@
                &&& g.edges@[e].to_label is Some ==> s.to@ == fs[m].objective@
            }),
{
    let v = passing_steps(fs);
    let a = arriving_steps(fs);
    let kept = fresh(v);
    assert(edges_shown(g.edges@).len() == g.edges@.len());
    assert(edges_shown(g.edges@)[e] == g.edges@[e]@);
    lemma_fresh(v);
    if e < kept.len() {
        let s = kept[e];
        assert(drawing(fs)[e] == drawn_step(s));
        lemma_steps_member(fs, false, fs.len() as int, s);
        let (m, k) = choose|m: int, k: int| m < fs.len() && #[trigger] stands(fs, false, m, k, s);
        assert(fs[m].path@[k] == s);
    } else {
        let q = e - kept.len();
        let key = groups(a)[q];
        let f = |s: PathStep| group_of(s);
        assert(drawing(fs)[e] == drawn_group(a, key));
        lemma_ordered(a.map_values(f));
        assert(groups(a).contains(key));
        let i = a.map_values(f).index_of(key);
        let mem = members(a, key);
        assert(group_of(a[i]) == key);
        lemma_members(a, key, a[i].to@);
        let x = mem.index_of(a[i].to@);
        assert(mem.len() > 0);
        let s = a[i];
        if mem.len() == 1 {
            assert(mem[0] == s.to@);
        }
        assert(a.contains(s));
        lemma_steps_member(fs, true, fs.len() as int, s);
        let (m, k) = choose|m: int, k: int| m < fs.len() && #[trigger] stands(fs, true, m, k, s);
        assert(fs[m].path@[k] == s);
    }
}

/// The picture leads on: where a step does not land on the objective and the next one starts where
/// it ends, there are two edges of which the second starts where the first ends.
pub proof fn edges_lead_on(
    entry: Seq<char>,
    fs: Seq<&EndpointFinding>,
    g: GraphProps,
    m: int,
    k: int,
)
    requires
        shows_graph(entry, fs, g),
        0 <= m < fs.len(),
        0 <= k < fs[m].path@.len() - 1,
        fs[m].path@[k].to@ == fs[m].path@[k + 1].from@,
        fs[m].path@[k].to@ != fs[m].objective@,
        has_no_bar(fs[m].path@[k]),
        has_no_bar(fs[m].path@[k + 1]),
    ensures
        exists|a: int, b: int|
            0 <= a < g.edges@.len() && 0 <= b < g.edges@.len() && (#[trigger] g.edges@[a]).to@ == (
            #[trigger] g.edges@[b]).from@ && g.edges@[a].from@ == fs[m].path@[k].from@
                && g.edges@[b].from@ == fs[m].path@[k + 1].from@,
{
    every_passing_step_is_drawn(entry, fs, g, m, k);
    let a = choose|e: int|
        0 <= e < g.edges@.len() && (#[trigger] g.edges@[e]).from@ == fs[m].path@[k].from@
            && g.edges@[e].to@ == fs[m].path@[k].to@;
    let next = fs[m].path@[k + 1];
    let b = if next.to@ == fs[m].objective@ {
        every_arriving_step_is_drawn(entry, fs, g, m, k + 1);
        choose|e: int| 0 <= e < g.edges@.len() && (#[trigger] g.edges@[e]).from@ == next.from@
    } else {
        every_passing_step_is_drawn(entry, fs, g, m, k + 1);
        choose|e: int| 0 <= e < g.edges@.len() && (#[trigger] g.edges@[e]).from@ == next.from@
    };
    assert(g.edges@[a].to@ == g.edges@[b].from@);
}

/// A group of several objectives is listed with all of them by their short names, as many as it
/// says, and a group is listed exactly where it has more than one.
pub proof fn groups_list_all_their_objectives(v: Seq<PathStep>, q: int)
    requires
        0 <= q < fans(v).len(),
    ensures
        fans(v)[q].count > 1,
        fans(v)[q].members.len() == fans(v)[q].count,
        exists|key: Key|
            {
                &&& #[trigger] groups(v).contains(key)
                &&& fans(v)[q].relation == key.second
                &&& fans(v)[q].count == v.filter(|s: PathStep| group_of(s) == key).len()
                &&& forall|i: int|
                    0 <= i < v.len() && group_of(#[trigger] v[i]) == key ==> fans(
                        v,
                    )[q].members.contains(short_text(v[i].to@))
            },
{
    let many = |k: Key| members(v, k).len() > 1;
    let some = groups(v).filter(many);
    let key = some[q];
    assert(fans(v)[q] == fan_of(v, key));
    groups(v).lemma_filter_pred(many, q);
    assert(some.contains(key));
    lemma_filter_member(groups(v), many, key);
    let short = |t: Seq<char>| short_text(t);
    let le = |a: Seq<char>, b: Seq<char>| text::text_le(a, b);
    let m = members(v, key);
    let names = m.map_values(short);
    order::sorting_permutes(names, le);
    assert forall|i: int| 0 <= i < v.len() && group_of(#[trigger] v[i]) == key implies fans(
        v,
    )[q].members.contains(short_text(v[i].to@)) by {
        lemma_members(v, key, v[i].to@);
        let x = m.index_of(v[i].to@);
        assert(names[x] == short_text(v[i].to@));
        assert(names.contains(names[x]));
        lemma_sorted_member(names, le, short_text(v[i].to@));
    }
    assert(groups(v).contains(key));
}

/// The picture counts the steps that land on their objective, and a reach is broad from twenty on.
pub proof fn reach_is_counted(entry: Seq<char>, fs: Seq<&EndpointFinding>, g: GraphProps)
    requires
        shows_graph(entry, fs, g),
    ensures
        g.objectives == arriving_steps(fs).len(),
        g.broad <==> g.objectives >= 20,
        g.entry@ == entry,
        g.entry_short@ == short_text(entry),
        g.fanouts@.len() == groups(arriving_steps(fs)).filter(
            |k: Key| members(arriving_steps(fs), k).len() > 1,
        ).len(),
{
    assert(fans_shown(g.fanouts@).len() == g.fanouts@.len());
}

/// The card of a cut draws the finding's one chain, each step in its place and direction, and marks
/// as severed exactly the edge that was recorded as cut.
pub proof fn card_draws_the_chain(f: EndpointFinding, armed: bool, r: RemediationProps, i: int)
    requires
        shows_remediation(f, armed, r),
        0 <= i < f.path@.len(),
    ensures
        r.graph.edges@.len() == f.path@.len(),
        r.graph.edges@[i].from@ == f.path@[i].from@,
        r.graph.edges@[i].to@ == f.path@[i].to@,
        r.graph.edges@[i].to_label is None,
        r.graph.edges@[i].cut <==> (f.cut matches Some(c) && c@ == f.path@[i].from@ + " -["@
            + f.path@[i].relation@ + "]-> "@ + f.path@[i].to@),
        r.graph.edges@[i].edge_label@ == (if r.graph.edges@[i].cut {
            "\u{2702} NetworkPolicy cut"@
        } else {
            relation_text(f.path@[i].relation@)
        }),
        r.graph.entry@ == f.entry@,
        r.graph.hops == f.path@.len(),
        r.graph.objectives == 1,
        r.verdict == f.verdict,
        r.killchain.foothold == f.foothold,
        r.killchain.technique == f.technique,
        r.killchain.technique_name == f.technique_name,
        r.armed == armed,
{
    let d = |s: PathStep| drawn_hop(s, text::opt_text(f.cut));
    assert(edges_shown(r.graph.edges@).len() == r.graph.edges@.len());
    assert(edges_shown(r.graph.edges@)[i] == r.graph.edges@[i]@);
    assert(f.path@.map_values(d)[i] == drawn_hop(f.path@[i], text::opt_text(f.cut)));
}

} // verus!
