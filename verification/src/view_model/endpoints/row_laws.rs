//! What a row of the endpoint table and its evidence say, in terms of the findings behind it.

use crate::graph::{kind_text, short_text, Behavior};
use crate::order;
use crate::seqs::{
    lemma_filter_map_member, lemma_filter_map_push, lemma_filter_member, lemma_filter_parts, lemma_filter_push,
    lemma_sorted_member,
};
use crate::state::{CveEvidence, Delta, EndpointFinding, EntryEvidence, PathStep, RecencyInfo};
use crate::text;
use crate::text_laws::trimmed_of_whitespace_only;
use crate::text_set::{ascending, listed};
use crate::view_model::endpoints::advice::{
    advice_text, durable_text, escape_hop, last_hop_to, manual_text,
};
use crate::view_model::endpoints::attention::{
    changed, noteworthy, priority_of, row_id_text, tier_for, weight, worst_priority,
};
use crate::view_model::endpoints::evidence::{
    cve_le, exploited, has_severity, is_fact, of_severity, rank_of, shows_block, shows_cve,
    shows_glyphs, shows_runtime, worst_first, CveBlockProps, CveFact, GlyphProps,
    RuntimeBlockProps,
};
use crate::view_model::endpoints::reach::{
    arrival_of, arrivals, arriving, breadth, commonest, decisive, hop_to, is_decisive, is_objective,
    kinds, led_to, main_kind, main_relation, objectives_of, relations_of, shows_rail, targets, uses,
    widest, RailProps,
};
use crate::view_model::endpoints::table::{first_verdict, shows_detail, DetailProps};
use crate::view_model::endpoints::words::{
    clause_from, first_clause_text, flags, is_break, reach_text, relation_text, truncated, Posture, Tier,
};
use crate::view_model::triples::Key;
use vstd::prelude::*;

verus! {

// ---------------------------------------------------------------------------
// Attention
// ---------------------------------------------------------------------------

/// A breach asks for the most attention, then a latent foothold with a CVE that the model cites,
/// then a chain that a live signal corroborates, then the rest.
pub proof fn attention_in_order(f: EndpointFinding)
    ensures
        priority_of(f) == 0 <==> flags(text::opt_text(f.verdict)),
        priority_of(f) == 3 ==> !f.corroborated && !flags(text::opt_text(f.verdict)),
        priority_of(f) == 2 ==> f.corroborated,
        f.corroborated ==> priority_of(f) <= 2,
        priority_of(f) == 1 ==> text::contains(f.disposition@, "latent foothold"@),
        0 <= priority_of(f) <= 3,
        tier_for(priority_of(f)) == Tier::Watch <==> priority_of(f) == 1 || priority_of(f) == 2,
        tier_for(priority_of(f)) == Tier::Context <==> priority_of(f) == 3,
{
}

/// A row asks for as much attention as some finding of it does, and for the least where it has none.
pub proof fn row_takes_one_of_its_findings(fs: Seq<&EndpointFinding>)
    ensures
        fs.len() == 0 ==> worst_priority(fs) == 3,
        fs.len() > 0 ==> exists|i: int|
            0 <= i < fs.len() && worst_priority(fs) == priority_of(*#[trigger] fs[i]),
    decreases fs.len(),
{
    if fs.len() > 0 {
        let d = fs.drop_last();
        row_takes_one_of_its_findings(d);
        let n = fs.len() - 1;
        if worst_priority(fs) == priority_of(*fs[n]) {
        } else {
            if d.len() == 0 {
                assert(worst_priority(d) == 3);
                attention_in_order(*fs[n]);
            } else {
                let i = choose|i: int|
                    0 <= i < d.len() && worst_priority(d) == priority_of(*#[trigger] d[i]);
                assert(fs[i] == d[i]);
            }
        }
    }
}

/// What escalated is the most noteworthy, then what is new, what de-escalated, what is back, and
/// least what did not change.
pub proof fn deltas_weigh_in_this_order()
    ensures
        weight(Delta::Escalated) < weight(Delta::New),
        weight(Delta::New) < weight(Delta::DeEscalated),
        weight(Delta::DeEscalated) < weight(Delta::Restored),
        weight(Delta::Restored) < weight(Delta::Unchanged),
{
}

/// The recency is at least as noteworthy as the other, if there is another.
pub open spec fn weighs_up(r: RecencyInfo, other: Option<RecencyInfo>) -> bool {
    other matches Some(o) ==> weight(r.delta) <= weight(o.delta)
}

/// The recency is more noteworthy than the other, if there is another.
pub open spec fn outweighs(r: RecencyInfo, other: Option<RecencyInfo>) -> bool {
    other matches Some(o) ==> weight(r.delta) < weight(o.delta)
}

proof fn lemma_noteworthy(fs: Seq<&EndpointFinding>) -> (i: int)
    ensures
        noteworthy(fs) matches Some(r) ==> {
            &&& 0 <= i < fs.len()
            &&& fs[i].recency == Some(r)
            &&& forall|j: int| 0 <= j < i ==> outweighs(r, (#[trigger] fs[j]).recency)
            &&& forall|j: int| 0 <= j < fs.len() ==> weighs_up(r, (#[trigger] fs[j]).recency)
        },
        noteworthy(fs) is None ==> forall|j: int|
            0 <= j < fs.len() ==> (#[trigger] fs[j]).recency is None,
    decreases fs.len(),
{
    if fs.len() == 0 {
        0
    } else {
        let d = fs.drop_last();
        let n = fs.len() - 1;
        let i = lemma_noteworthy(d);
        assert forall|j: int| 0 <= j < fs.len() implies #[trigger] fs[j] == (if j < n {
            d[j]
        } else {
            fs.last()
        }) by {}
        match (noteworthy(d), fs.last().recency) {
            (Some(a), Some(b)) => if weight(b.delta) < weight(a.delta) {
                n
            } else {
                i
            },
            (None, b) => n,
            (a, None) => i,
        }
    }
}

/// The recency of a row is that of one of its findings, and no finding has a more noteworthy one;
/// among equals it is the first. A row has none exactly where no finding of it has.
pub proof fn row_shows_the_most_noteworthy(fs: Seq<&EndpointFinding>)
    ensures
        noteworthy(fs) is None <==> forall|i: int|
            0 <= i < fs.len() ==> (#[trigger] fs[i]).recency is None,
        noteworthy(fs) matches Some(r) ==> exists|i: int|
            0 <= i < fs.len() && (#[trigger] fs[i]).recency == Some(r) && (forall|j: int|
                0 <= j < i ==> outweighs(r, (#[trigger] fs[j]).recency)),
        noteworthy(fs) matches Some(r) ==> forall|j: int|
            0 <= j < fs.len() ==> weighs_up(r, (#[trigger] fs[j]).recency),
{
    let i = lemma_noteworthy(fs);
    match noteworthy(fs) {
        Some(r) => {
            assert(fs[i].recency == Some(r));
        },
        None => {},
    }
}

/// A tally counts each row once, by its most noteworthy change.
pub proof fn one_more_row_is_tallied(
    groups: Seq<&[&EndpointFinding]>,
    g: &[&EndpointFinding],
    d: Delta,
)
    ensures
        changed(Seq::empty(), d) == 0,
        changed(groups.push(g), d) == changed(groups, d) + (if noteworthy(g@) matches Some(r)
            && r.delta == d {
            1int
        } else {
            0int
        }),
{
    assert(groups.push(g).drop_last() =~= groups);
}

// ---------------------------------------------------------------------------
// CVEs
// ---------------------------------------------------------------------------

/// CVEs from the worst: critical, high, known to be exploited, medium, then the rest.
pub proof fn cves_rank_in_this_order(c: CveEvidence)
    ensures
        rank_of(c) == 0 <==> c.severity@ == "critical"@,
        rank_of(c) == 1 <==> c.severity@ == "high"@,
        rank_of(c) == 2 ==> c.kev,
        c.kev ==> rank_of(c) <= 2,
        rank_of(c) == 3 ==> c.severity@ == "medium"@,
        0 <= rank_of(c) <= 4,
{
    reveal_strlit("critical");
    reveal_strlit("high");
    assert("critical"@.len() != "high"@.len());
}

/// The CVE that decides is one of the entry's that is exploited or critical, none such is worse, and
/// among equals it is the first. There is one exactly where some CVE is exploited or critical.
pub proof fn worst_decisive_cve_decides(cves: Seq<CveEvidence>, n: int)
    requires
        0 <= n <= cves.len(),
    ensures
        decisive(cves, n) is None <==> forall|i: int|
            0 <= i < n ==> !((#[trigger] cves[i]).kev || cves[i].severity@ == "critical"@),
        decisive(cves, n) matches Some(c) ==> exists|i: int|
            0 <= i < n && #[trigger] cves[i] == c && (forall|j: int|
                0 <= j < i && is_decisive(#[trigger] cves[j]) ==> rank_of(c) < rank_of(cves[j])),
        decisive(cves, n) matches Some(c) ==> (c.kev || c.severity@ == "critical"@) && forall|j: int|
            0 <= j < n && is_decisive(#[trigger] cves[j]) ==> rank_of(c) <= rank_of(cves[j]),
    decreases n,
{
    if n > 0 {
        worst_decisive_cve_decides(cves, n - 1);
        let l = cves[n - 1];
        match decisive(cves, n - 1) {
            Some(best) => {
                let k = choose|i: int|
                    0 <= i < n - 1 && #[trigger] cves[i] == best && (forall|j: int|
                        0 <= j < i && is_decisive(#[trigger] cves[j]) ==> rank_of(best) < rank_of(
                            cves[j],
                        ));
                assert(is_decisive(cves[k]));
                if is_decisive(l) && rank_of(l) < rank_of(best) {
                    assert(cves[n - 1] == l);
                } else {
                    assert(cves[k] == best);
                }
            },
            None => {
                if is_decisive(l) {
                    assert(cves[n - 1] == l);
                    assert forall|j: int| 0 <= j < n - 1 && is_decisive(#[trigger] cves[j]) implies rank_of(
                        l,
                    ) < rank_of(cves[j]) by {}
                }
            },
        }
    }
}

/// One more CVE is one more of its severity, and one more that is exploited exactly where it is.
pub proof fn one_more_cve_is_counted(cves: Seq<CveEvidence>, c: CveEvidence, severity: Seq<char>)
    ensures
        of_severity(Seq::empty(), severity) == 0,
        exploited(Seq::empty()) == 0,
        of_severity(cves.push(c), severity) == of_severity(cves, severity) + (if c.severity@
            == severity {
            1int
        } else {
            0int
        }),
        exploited(cves.push(c)) == exploited(cves) + (if c.kev {
            1int
        } else {
            0int
        }),
{
    lemma_filter_push(cves, |c: CveEvidence| has_severity(c, severity), c);
    lemma_filter_push(cves, |c: CveEvidence| c.kev, c);
}

/// The facts and glyphs of an entry give the numbers of its CVEs, and it is live exactly where the
/// chain is corroborated or a sensor alerted.
pub proof fn glyphs_give_the_numbers(
    ev: EntryEvidence,
    corroborated: bool,
    awaiting: bool,
    g: GlyphProps,
    f: CveFact,
)
    requires
        shows_glyphs(ev, corroborated, awaiting, g),
        is_fact(ev, f),
    ensures
        g.cves == ev.cves@.len(),
        g.awaiting == awaiting,
        g.live <==> corroborated || exists|i: int|
            0 <= i < ev.runtime@.len() && (#[trigger] ev.runtime@[i]).signal is Alert,
        f is Absent <==> ev.cves@.len() == 0,
        f matches CveFact::Present { n, critical, kev } ==> n == g.cves && critical == g.crit && kev
            == g.kev,
{
    if exists|i: int| 0 <= i < ev.runtime@.len() && (#[trigger] ev.runtime@[i]).signal is Alert {
        let i = choose|i: int| 0 <= i < ev.runtime@.len() && (#[trigger] ev.runtime@[i]).signal is Alert;
        assert(ev.runtime@[i].alerts());
    }
}

/// Every CVE shows, by its own id, severity and mark: in the open part where it is among the three
/// that come first, else in the rest.
pub proof fn every_cve_shows(cves: Seq<CveEvidence>, b: CveBlockProps, c: CveEvidence)
    requires
        shows_block(cves, b),
        cves.contains(c),
    ensures
        b.n == cves.len(),
        b.inline@.len() <= 3,
        b.rest@.len() > 0 ==> b.inline@.len() == 3,
        b.inline@.len() + b.rest@.len() == cves.len(),
        (exists|i: int|
            0 <= i < b.inline@.len() && (#[trigger] b.inline@[i]).id == c.id && b.inline@[i].severity
                == c.severity && b.inline@[i].kev == c.kev && b.inline@[i].fix == c.fix
                && b.inline@[i].reachability == c.reachability && b.inline@[i].title == c.title) || (
        exists|i: int|
            0 <= i < b.rest@.len() && (#[trigger] b.rest@[i]).id == c.id && b.rest@[i].severity
                == c.severity && b.rest@[i].kev == c.kev && b.rest@[i].fix == c.fix
                && b.rest@[i].reachability == c.reachability && b.rest@[i].title == c.title),
{
    let le = |a: CveEvidence, b: CveEvidence| cve_le(a, b);
    let all = worst_first(cves);
    lemma_sorted_member(cves, le, c);
    let k = all.index_of(c);
    let n = b.inline@.len();
    if k < n {
        assert(shows_cve(all[k], b.inline@[k]));
        assert(b.inline@[k].id == c.id);
    } else {
        assert(shows_cve(all[n + (k - n)], b.rest@[k - n]));
        assert(b.rest@[k - n].id == c.id);
    }
}

/// No CVE is folded away while a less bad one shows: by severity, whatever shows in the open part is
/// at least as bad as whatever is in the rest.
pub proof fn worst_cves_show_openly(cves: Seq<CveEvidence>, b: CveBlockProps, i: int, j: int)
    requires
        shows_block(cves, b),
        0 <= i < b.inline@.len(),
        0 <= j < b.rest@.len(),
    ensures
        b.rest@[j].severity@ == "critical"@ ==> b.inline@[i].severity@ == "critical"@,
        b.rest@[j].severity@ == "high"@ ==> b.inline@[i].severity@ == "critical"@
            || b.inline@[i].severity@ == "high"@,
        b.rest@[j].kev ==> b.inline@[i].severity@ == "critical"@ || b.inline@[i].severity@ == "high"@
            || b.inline@[i].kev,
{
    let all = worst_first(cves);
    let n = b.inline@.len();
    order::sorting_permutes(cves, |a: CveEvidence, b: CveEvidence| cve_le(a, b));
    assert(shows_cve(all[i], b.inline@[i]));
    assert(shows_cve(all[n + j], b.rest@[j]));
    crate::view_model::endpoints::evidence::bad_cves_come_first(cves, i, n + j);
    cves_rank_in_this_order(all[i]);
    cves_rank_in_this_order(all[n + j]);
}

/// A behavior shows in its own words: among the corroborating where a sensor alerted, else as
/// context, and none is lost.
pub proof fn runtime_shows_by_what_it_is(ev: EntryEvidence, b: RuntimeBlockProps, x: Behavior)
    requires
        shows_runtime(ev, b),
        ev.runtime@.contains(x),
    ensures
        b.corroborating@.len() + b.context@.len() == ev.runtime@.len(),
        x.signal is Alert ==> b.corroborating@.contains(x.summary),
        !(x.signal is Alert) ==> b.context@.contains((x.variant, x.summary)),
{
    let yes = |x: Behavior| x.alerts();
    let no = |x: Behavior| !x.alerts();
    let run = ev.runtime@;
    lemma_filter_member(run, yes, x);
    lemma_filter_member(run, no, x);
    lemma_filter_parts(run, yes, no);
    if x.alerts() {
        let k = run.filter(yes).index_of(x);
        assert(b.corroborating@[k] == x.summary);
    } else {
        let k = run.filter(no).index_of(x);
        assert(b.context@[k] == (x.variant, x.summary));
    }
}

// ---------------------------------------------------------------------------
// Reach
// ---------------------------------------------------------------------------

proof fn lemma_hop_to(path: Seq<PathStep>, to: Seq<char>, i: int)
    requires
        0 <= i <= path.len(),
    ensures
        hop_to(path, to, i) matches Some(s) ==> exists|k: int|
            i <= k < path.len() && #[trigger] path[k] == s && path[k].to@ == to && forall|j: int|
                i <= j < k ==> (#[trigger] path[j]).to@ != to,
        hop_to(path, to, i) is None ==> forall|j: int|
            i <= j < path.len() ==> (#[trigger] path[j]).to@ != to,
    decreases path.len() - i,
{
    if i < path.len() {
        if path[i].to@ == to {
            assert(path[i] == path[i]);
        } else {
            lemma_hop_to(path, to, i + 1);
            match hop_to(path, to, i) {
                Some(s) => {
                    let k = choose|k: int|
                        i + 1 <= k < path.len() && #[trigger] path[k] == s && path[k].to@ == to
                            && forall|j: int| i + 1 <= j < k ==> (#[trigger] path[j]).to@ != to;
                    assert(path[k] == s);
                },
                None => {},
            }
        }
    }
}

/// A finding arrives by the first step of its path that leads to its objective: that step's kind of
/// target and relation count. One whose path never leads there does not arrive.
pub proof fn arrival_is_the_first_landing(f: EndpointFinding)
    ensures
        arrival_of(f) matches Some(k) ==> k.second == f.objective@ && k.first == kind_text(
            f.objective@,
        ) && exists|i: int|
            0 <= i < f.path@.len() && (#[trigger] f.path@[i]).to@ == f.objective@
                && f.path@[i].relation@ == k.third && forall|j: int|
                0 <= j < i ==> (#[trigger] f.path@[j]).to@ != f.objective@,
        arrival_of(f) is None <==> forall|i: int|
            0 <= i < f.path@.len() ==> (#[trigger] f.path@[i]).to@ != f.objective@,
{
    lemma_hop_to(f.path@, f.objective@, 0);
    match hop_to(f.path@, f.objective@, 0) {
        Some(s) => {
            let k = choose|k: int|
                0 <= k < f.path@.len() && #[trigger] f.path@[k] == s && f.path@[k].to@ == f.objective@
                    && forall|j: int| 0 <= j < k ==> (#[trigger] f.path@[j]).to@ != f.objective@;
            assert(f.path@[k].to@ == f.objective@);
        },
        None => {},
    }
}

proof fn lemma_arriving(fs: Seq<&EndpointFinding>, n: int)
    requires
        0 <= n <= fs.len(),
    ensures
        arriving(fs, n) == arrivals(fs.take(n)).map_values(
            |k: Key| relation_text(k.third),
        ).to_set(),
    decreases n,
{
    let f = |f: &EndpointFinding| arrival_of(*f);
    let rel = |k: Key| relation_text(k.third);
    if n > 0 {
        lemma_arriving(fs, n - 1);
        let d = fs.take(n - 1);
        let x = fs[n - 1];
        assert(fs.take(n) =~= d.push(x));
        lemma_filter_map_push(d, f, x);
        match arrival_of(*x) {
            Some(k) => {
                let a = arrivals(d).map_values(rel);
                let b = arrivals(d).push(k).map_values(rel);
                let r = relation_text(k.third);
                assert(b =~= a.push(r));
                assert(b.to_set() =~= a.to_set().insert(r)) by {
                    assert forall|y: Seq<char>| b.contains(y) <==> a.contains(y) || y == r by {
                        vstd::seq_lib::lemma_seq_contains_after_push(a, r, y);
                    }
                }
            },
            None => {},
        }
    } else {
        assert(fs.take(0) =~= Seq::empty());
        assert(arrivals(fs.take(0)).map_values(rel).to_set() =~= Set::empty());
    }
}

/// The rail lists, in words and each once, the relations by which the entry's findings arrive, and
/// no other.
pub proof fn rail_lists_how_it_arrives(
    entry: Seq<char>,
    fs: Seq<&EndpointFinding>,
    ev: EntryEvidence,
    r: RailProps,
    x: Seq<char>,
)
    requires
        shows_rail(entry, fs, ev, r),
    ensures
        r.entry_short@ == short_text(entry),
        ascending(text::texts(r.relations@)),
        text::texts(r.relations@).contains(x) <==> exists|m: int|
            0 <= m < fs.len() && (arrival_of(*#[trigger] fs[m]) matches Some(k) && relation_text(
                k.third,
            ) == x),
{
    let n = fs.len() as int;
    let f = |f: &EndpointFinding| arrival_of(*f);
    let rel = |k: Key| relation_text(k.third);
    lemma_arriving(fs, n);
    assert(fs.take(n) =~= fs);
    let v = arrivals(fs).map_values(rel);
    crate::text_set::lemma_listable(v);
    let shown = text::texts(r.relations@);
    assert(shown.contains(x) <==> shown.to_set().contains(x));
    assert(v.contains(x) <==> v.to_set().contains(x));
    if v.contains(x) {
        let i = v.index_of(x);
        let k = arrivals(fs)[i];
        assert(arrivals(fs).contains(k));
        lemma_filter_map_member(fs, f, k);
        let m = choose|m: int| 0 <= m < fs.len() && f(#[trigger] fs[m]) == Some(k);
        assert(arrival_of(*fs[m]) == Some(k));
    }
    if exists|m: int|
        0 <= m < fs.len() && (arrival_of(*#[trigger] fs[m]) matches Some(k) && relation_text(k.third)
            == x) {
        let m = choose|m: int|
            0 <= m < fs.len() && (arrival_of(*#[trigger] fs[m]) matches Some(k) && relation_text(
                k.third,
            ) == x);
        let k = arrival_of(*fs[m])->0;
        assert(f(fs[m]) == Some(k));
        lemma_filter_map_member(fs, f, k);
        let i = arrivals(fs).index_of(k);
        assert(v[i] == x);
    }
}

proof fn lemma_led_to(fs: Seq<&EndpointFinding>, path: Seq<PathStep>, n: int, t: Seq<char>)
    requires
        0 <= n <= path.len(),
    ensures
        led_to(fs, path, n).contains(t) <==> is_objective(fs, t) && exists|k: int|
            0 <= k < n && (#[trigger] path[k]).to@ == t,
    decreases n,
{
    if n > 0 {
        lemma_led_to(fs, path, n - 1, t);
        if led_to(fs, path, n - 1).contains(t) {
            let k = choose|k: int| 0 <= k < n - 1 && (#[trigger] path[k]).to@ == t;
            assert(path[k].to@ == t);
        }
        if is_objective(fs, t) && path[n - 1].to@ == t {
            assert(led_to(fs, path, n).contains(t));
        }
    }
}

/// The targets that are counted aloud are the objectives of the entry's findings that some path of
/// them leads to.
pub proof fn targets_are_reached_objectives(fs: Seq<&EndpointFinding>, n: int, t: Seq<char>)
    requires
        0 <= n <= fs.len(),
    ensures
        targets(fs, n).contains(t) <==> (exists|i: int|
            0 <= i < fs.len() && (#[trigger] fs[i]).objective@ == t) && exists|m: int, k: int|
            0 <= m < n && 0 <= k < fs[m].path@.len() && (#[trigger] fs[m].path@[k]).to@ == t,
    decreases n,
{
    if n > 0 {
        targets_are_reached_objectives(fs, n - 1, t);
        let path = fs[n - 1].path@;
        lemma_led_to(fs, path, path.len() as int, t);
        if targets(fs, n - 1).contains(t) {
            let (m, k) = choose|m: int, k: int|
                0 <= m < n - 1 && 0 <= k < fs[m].path@.len() && (#[trigger] fs[m].path@[k]).to@ == t;
            assert(0 <= m < n && fs[m].path@[k].to@ == t);
        }
        if led_to(fs, path, path.len() as int).contains(t) {
            let k = choose|k: int| 0 <= k < path.len() && (#[trigger] path[k]).to@ == t;
            assert(fs[n - 1].path@[k].to@ == t);
        }
        if exists|m: int, k: int|
            0 <= m < n && 0 <= k < fs[m].path@.len() && (#[trigger] fs[m].path@[k]).to@ == t {
            let (m, k) = choose|m: int, k: int|
                0 <= m < n && 0 <= k < fs[m].path@.len() && (#[trigger] fs[m].path@[k]).to@ == t;
            if m == n - 1 {
                assert(path[k].to@ == t);
            }
        }
    }
}

proof fn lemma_kinds(v: Seq<Key>, n: int, kind: Seq<char>)
    requires
        0 <= n <= v.len(),
    ensures
        kinds(v, n).contains(kind) <==> exists|i: int| 0 <= i < n && (#[trigger] v[i]).first == kind,
        kinds(v, n) == v.take(n).map_values(|k: Key| k.first).to_set(),
    decreases n,
{
    let f = |k: Key| k.first;
    if n > 0 {
        lemma_kinds(v, n - 1, kind);
        if kinds(v, n - 1).contains(kind) {
            let i = choose|i: int| 0 <= i < n - 1 && (#[trigger] v[i]).first == kind;
            assert(v[i].first == kind);
        }
        if v[n - 1].first == kind {
            assert(kinds(v, n).contains(kind));
        }
        let a = v.take(n - 1).map_values(f);
        let b = v.take(n).map_values(f);
        assert(b =~= a.push(v[n - 1].first));
        assert(b.to_set() =~= a.to_set().insert(v[n - 1].first)) by {
            assert forall|x: Seq<char>| b.contains(x) <==> a.contains(x) || x == v[n - 1].first by {
                vstd::seq_lib::lemma_seq_contains_after_push(a, v[n - 1].first, x);
            }
        }
    } else {
        assert(v.take(0).map_values(f).to_set() =~= Set::empty());
    }
}

proof fn lemma_widest(v: Seq<Key>, ks: Seq<Seq<char>>, n: int) -> (i: int)
    requires
        0 < n <= ks.len(),
    ensures
        0 <= i < n,
        widest(v, ks, n) == Some(ks[i]),
        forall|j: int| 0 <= j < i ==> breadth(v, #[trigger] ks[j]) < breadth(v, ks[i]),
        forall|j: int| 0 <= j < n ==> breadth(v, #[trigger] ks[j]) <= breadth(v, ks[i]),
    decreases n,
{
    if n == 1 {
        assert(widest(v, ks, 0) is None);
        0
    } else {
        let i = lemma_widest(v, ks, n - 1);
        if breadth(v, ks[n - 1]) > breadth(v, ks[i]) {
            n - 1
        } else {
            i
        }
    }
}

/// The kind that a row names is one that is reached, and no kind is reached more broadly; among
/// equals it is the first by name. There is one exactly where anything is reached.
pub proof fn broadest_kind_is_named(v: Seq<Key>)
    ensures
        main_kind(v) is None <==> v.len() == 0,
        main_kind(v) matches Some(k) ==> exists|i: int| 0 <= i < v.len() && (#[trigger] v[i]).first == k,
        main_kind(v) matches Some(k) ==> forall|i: int|
            0 <= i < v.len() ==> breadth(v, (#[trigger] v[i]).first) <= breadth(v, k) && (breadth(
                v,
                v[i].first,
            ) == breadth(v, k) ==> text::text_le(k, v[i].first)),
{
    let n = v.len() as int;
    let f = |k: Key| k.first;
    lemma_kinds(v, n, arbitrary());
    assert(v.take(n) =~= v);
    let names = v.map_values(f);
    crate::text_set::lemma_listable(names);
    let ks = listed(kinds(v, n));
    assert(widest(v, ks, 0) is None);
    if v.len() > 0 {
        lemma_kinds(v, n, v[0].first);
        assert(v[0].first == names[0]);
        assert(ks.to_set().contains(v[0].first));
        assert(ks.contains(v[0].first));
    } else if ks.len() > 0 {
        assert(ks.contains(ks[0]));
        assert(ks.to_set().contains(ks[0]));
        lemma_kinds(v, n, ks[0]);
    }
    match main_kind(v) {
        Some(b) => {
            let i = lemma_widest(v, ks, ks.len() as int);
            assert(ks.contains(ks[i]));
            assert(ks.to_set().contains(b));
            lemma_kinds(v, n, b);
            assert forall|m: int| 0 <= m < v.len() implies breadth(v, (#[trigger] v[m]).first)
                <= breadth(v, b) && (breadth(v, v[m].first) == breadth(v, b) ==> text::text_le(
                b,
                v[m].first,
            )) by {
                lemma_kinds(v, n, v[m].first);
                assert(ks.to_set().contains(v[m].first));
                let j = ks.index_of(v[m].first);
                assert(ks[j] == v[m].first);
                if i < j {
                    assert(text::text_lt(ks[i], ks[j]));
                } else if i == j {
                    text::lemma_text_le_total(b, b);
                }
            }
        },
        None => {},
    }
}

/// Breadth counts distinct objectives: one more arrival of the kind widens it by one exactly where
/// its objective is not among them yet.
pub proof fn breadth_counts_distinct_objectives(v: Seq<Key>, x: Key, kind: Seq<char>)
    ensures
        breadth(Seq::empty(), kind) == 0,
        breadth(v.push(x), kind) == breadth(v, kind) + (if x.first == kind && !exists|i: int|
            0 <= i < v.len() && (#[trigger] v[i]).first == kind && v[i].second == x.second {
            1int
        } else {
            0int
        }),
{
    let n = v.len() as int;
    let w = v.push(x);
    lemma_objectives_prefix(v, x, kind, n);
    lemma_objectives(v, kind, n, x.second);
    let a = objectives_of(v, kind, n);
    if x.first == kind {
        if a.contains(x.second) {
            assert(a.insert(x.second) =~= a);
        }
    }
}

proof fn lemma_objectives_prefix(v: Seq<Key>, x: Key, kind: Seq<char>, n: int)
    requires
        0 <= n <= v.len(),
    ensures
        objectives_of(v.push(x), kind, n) == objectives_of(v, kind, n),
    decreases n,
{
    if n > 0 {
        lemma_objectives_prefix(v, x, kind, n - 1);
        assert(v.push(x)[n - 1] == v[n - 1]);
    }
}

proof fn lemma_objectives(v: Seq<Key>, kind: Seq<char>, n: int, t: Seq<char>)
    requires
        0 <= n <= v.len(),
    ensures
        objectives_of(v, kind, n).contains(t) <==> exists|i: int|
            0 <= i < n && (#[trigger] v[i]).first == kind && v[i].second == t,
        objectives_of(v, kind, n).finite(),
    decreases n,
{
    if n > 0 {
        lemma_objectives(v, kind, n - 1, t);
        if objectives_of(v, kind, n - 1).contains(t) {
            let i = choose|i: int| 0 <= i < n - 1 && (#[trigger] v[i]).first == kind && v[i].second == t;
            assert(v[i].first == kind);
        }
        if v[n - 1].first == kind && v[n - 1].second == t {
            assert(objectives_of(v, kind, n).contains(t));
        }
    }
}

/// The relation that a row names is used as often as any other.
proof fn lemma_commonest(v: Seq<Key>, kind: Seq<char>, rs: Seq<Seq<char>>, n: int)
    requires
        0 <= n <= rs.len(),
    ensures
        commonest(v, kind, rs, n) is None <==> n == 0,
        commonest(v, kind, rs, n) matches Some(b) ==> (forall|j: int|
            0 <= j < n ==> uses(v, kind, #[trigger] rs[j], v.len() as int) <= uses(
                v,
                kind,
                b,
                v.len() as int,
            )) && exists|i: int| 0 <= i < n && #[trigger] rs[i] == b,
    decreases n,
{
    if n > 0 {
        lemma_commonest(v, kind, rs, n - 1);
        assert(rs[n - 1] == rs[n - 1]);
    }
}

/// Among the relations by which a kind is reached, the one that is named is used most.
pub proof fn commonest_relation_is_used_most(v: Seq<Key>, kind: Seq<char>, rs: Seq<Seq<char>>, j: int)
    requires
        0 <= j < rs.len(),
    ensures
        commonest(v, kind, rs, rs.len() as int) matches Some(b) && rs.contains(b) && uses(
            v,
            kind,
            rs[j],
            v.len() as int,
        ) <= uses(v, kind, b, v.len() as int),
{
    lemma_commonest(v, kind, rs, rs.len() as int);
}

/// Among relations that are used alike, the last one is named: every one behind it is used less.
pub proof fn last_of_the_commonest_is_named(v: Seq<Key>, kind: Seq<char>, rs: Seq<Seq<char>>, n: int) -> (i:
    int)
    requires
        0 < n <= rs.len(),
    ensures
        0 <= i < n,
        commonest(v, kind, rs, n) == Some(rs[i]),
        forall|j: int|
            i < j < n ==> uses(v, kind, #[trigger] rs[j], v.len() as int) < uses(
                v,
                kind,
                rs[i],
                v.len() as int,
            ),
    decreases n,
{
    if n == 1 {
        assert(commonest(v, kind, rs, 0) is None);
        0
    } else {
        let i = last_of_the_commonest_is_named(v, kind, rs, n - 1);
        if uses(v, kind, rs[n - 1], v.len() as int) >= uses(v, kind, rs[i], v.len() as int) {
            n - 1
        } else {
            i
        }
    }
}

/// The relations of a kind, with repetitions.
proof fn lemma_relations(v: Seq<Key>, kind: Seq<char>, n: int) -> (w: Seq<Seq<char>>)
    requires
        0 <= n <= v.len(),
    ensures
        w.to_set() == relations_of(v, kind, n),
        forall|i: int| 0 <= i < n && (#[trigger] v[i]).first == kind ==> w.contains(v[i].third),
        forall|x: Seq<char>| #[trigger]
            w.contains(x) ==> exists|i: int|
                0 <= i < n && (#[trigger] v[i]).first == kind && v[i].third == x,
    decreases n,
{
    if n == 0 {
        let w = Seq::<Seq<char>>::empty();
        assert(w.to_set() =~= relations_of(v, kind, 0));
        w
    } else {
        let a = lemma_relations(v, kind, n - 1);
        if v[n - 1].first == kind {
            let w = a.push(v[n - 1].third);
            assert forall|x: Seq<char>| w.contains(x) <==> a.contains(x) || x == v[n - 1].third by {
                vstd::seq_lib::lemma_seq_contains_after_push(a, v[n - 1].third, x);
            }
            assert(w.to_set() =~= a.to_set().insert(v[n - 1].third));
            assert(v[n - 1].third == w.last());
            w
        } else {
            a
        }
    }
}

/// The relation that a row names is one by which the kind is reached, none is used more, and among
/// equals it is the last by name.
pub proof fn main_relation_is_the_commonest(v: Seq<Key>, kind: Seq<char>, j: int) -> (i: int)
    requires
        0 <= j < v.len(),
        v[j].first == kind,
    ensures
        0 <= i < v.len(),
        v[i].first == kind,
        main_relation(v, kind) == reach_text(v[i].third),
        uses(v, kind, v[j].third, v.len() as int) <= uses(v, kind, v[i].third, v.len() as int),
        uses(v, kind, v[j].third, v.len() as int) == uses(v, kind, v[i].third, v.len() as int)
            ==> text::text_le(v[j].third, v[i].third),
{
    let n = v.len() as int;
    let w = lemma_relations(v, kind, n);
    crate::text_set::lemma_listable(w);
    let rs = listed(relations_of(v, kind, n));
    assert(w.contains(v[j].third));
    assert(rs.to_set().contains(v[j].third));
    let m = rs.index_of(v[j].third);
    assert(rs[m] == v[j].third);
    let k = last_of_the_commonest_is_named(v, kind, rs, rs.len() as int);
    lemma_commonest(v, kind, rs, rs.len() as int);
    assert(rs.contains(rs[k]));
    assert(rs.to_set().contains(rs[k]));
    assert(w.to_set().contains(rs[k]));
    assert(w.contains(rs[k]));
    if m < k {
        assert(text::text_lt(rs[m], rs[k]));
    } else {
        text::lemma_text_le_total(rs[k], rs[k]);
    }
    choose|i: int| 0 <= i < n && (#[trigger] v[i]).first == kind && v[i].third == rs[k]
}

/// One more arrival is one more use of its relation, for its kind.
pub proof fn one_more_use(v: Seq<Key>, x: Key, kind: Seq<char>, relation: Seq<char>)
    ensures
        uses(Seq::empty(), kind, relation, 0) == 0,
        uses(v.push(x), kind, relation, (v.len() + 1) as int) == uses(
            v,
            kind,
            relation,
            v.len() as int,
        ) + (if x.first == kind && x.third == relation {
            1int
        } else {
            0int
        }),
{
    lemma_uses_prefix(v, x, kind, relation, v.len() as int);
    assert(v.push(x)[v.len() as int] == x);
}

proof fn lemma_uses_prefix(v: Seq<Key>, x: Key, kind: Seq<char>, relation: Seq<char>, n: int)
    requires
        0 <= n <= v.len(),
    ensures
        uses(v.push(x), kind, relation, n) == uses(v, kind, relation, n),
    decreases n,
{
    if n > 0 {
        lemma_uses_prefix(v, x, kind, relation, n - 1);
        assert(v.push(x)[n - 1] == v[n - 1]);
    }
}

// ---------------------------------------------------------------------------
// Advice
// ---------------------------------------------------------------------------

proof fn lemma_last_hop_to(path: Seq<PathStep>, to: Seq<char>, n: int, k: int)
    requires
        0 <= k < n <= path.len(),
        path[k].to@ == to,
        forall|j: int| k < j < n ==> (#[trigger] path[j]).to@ != to,
    ensures
        last_hop_to(path, to, n) == Some(path[k]),
    decreases n,
{
    if k < n - 1 {
        assert(path[n - 1].to@ != to);
        lemma_last_hop_to(path, to, n - 1, k);
    }
}

/// Advice speaks of the last hop that leads to the objective.
pub proof fn advice_speaks_of_the_last_landing(f: EndpointFinding, k: int)
    requires
        0 <= k < f.path@.len(),
        f.path@[k].to@ == f.objective@,
        forall|j: int| k < j < f.path@.len() ==> (#[trigger] f.path@[j]).to@ != f.objective@,
    ensures
        ("No automatic fix \u{2014} change the `"@ + short_text(f.path@[k].from@) + "` \u{2192} `"@
            + short_text(f.objective@) + "` hop ("@ + relation_text(
            f.path@[k].relation@,
        )).is_prefix_of(manual_text(f)),
        "can-do/"@.is_prefix_of(f.path@[k].relation@) ==> ("Permanent fix: revoke the `"@
            + f.path@[k].relation@.skip("can-do/"@.len() as int) + "` RBAC grant from `"@ + short_text(
            f.path@[k].from@,
        ) + "` (it reaches `"@ + short_text(f.objective@)).is_prefix_of(durable_text(f)),
        !"can-do/"@.is_prefix_of(f.path@[k].relation@) ==> (
        "Permanent fix: remove the secret mount `"@ + short_text(f.objective@) + "` from `"@
            + short_text(f.path@[k].from@)).is_prefix_of(durable_text(f)),
{
    lemma_last_hop_to(f.path@, f.objective@, f.path@.len() as int, k);
    let a = "No automatic fix \u{2014} change the `"@ + short_text(f.path@[k].from@)
        + "` \u{2192} `"@ + short_text(f.objective@) + "` hop ("@ + relation_text(
        f.path@[k].relation@,
    );
    assert(manual_text(f).take(a.len() as int) =~= a);
    if "can-do/"@.is_prefix_of(f.path@[k].relation@) {
        let b = "Permanent fix: revoke the `"@ + f.path@[k].relation@.skip("can-do/"@.len() as int)
            + "` RBAC grant from `"@ + short_text(f.path@[k].from@) + "` (it reaches `"@ + short_text(
            f.objective@,
        );
        assert(durable_text(f).take(b.len() as int) =~= b);
    } else {
        let b = "Permanent fix: remove the secret mount `"@ + short_text(f.objective@) + "` from `"@
            + short_text(f.path@[k].from@);
        assert(durable_text(f).take(b.len() as int) =~= b);
    }
}

/// The escape that advice names is the first of the path.
pub proof fn first_escape_is_named(path: Seq<PathStep>, i: int, k: int)
    requires
        0 <= i <= k < path.len(),
        "escapes-to/"@.is_prefix_of(path[k].relation@),
        forall|j: int| i <= j < k ==> !"escapes-to/"@.is_prefix_of((#[trigger] path[j]).relation@),
    ensures
        escape_hop(path, i) == Some(path[k]),
    decreases k - i,
{
    if i < k {
        assert(!"escapes-to/"@.is_prefix_of(path[i].relation@));
        first_escape_is_named(path, i + 1, k);
    }
}

/// What is advised follows the disposition: arming where the cut is automatic or proposed, a
/// permanent fix where one is due, and handwork otherwise.
pub proof fn advice_follows_the_disposition(f: EndpointFinding)
    ensures
        f.disposition@ == "auto-eligible"@ ==> advice_text(f, Posture::Breach) == Some(
            "would cut in shadow; arm `network` to act"@,
        ),
        f.disposition@ == "durable-fix PR"@ ==> advice_text(f, Posture::Breach) == Some(
            durable_text(f),
        ),
{
    reveal_strlit("auto-eligible");
    reveal_strlit("durable-fix PR");
    reveal_strlit("latent foothold \u{2014} propose");
    reveal_strlit("structural \u{2014} propose");
    reveal_strlit("vetoed \u{2014} propose");
    assert("durable-fix PR"@[0] == 'd');
    assert("auto-eligible"@[0] == 'a');
    assert("latent foothold \u{2014} propose"@[0] == 'l');
    assert("structural \u{2014} propose"@[0] == 's');
    assert("vetoed \u{2014} propose"@[0] == 'v');
}

// ---------------------------------------------------------------------------
// The row
// ---------------------------------------------------------------------------

proof fn lemma_first_verdict(fs: Seq<&EndpointFinding>, i: int, k: int)
    requires
        0 <= i <= k < fs.len(),
        fs[k].verdict is Some,
        forall|j: int| i <= j < k ==> (#[trigger] fs[j]).verdict is None,
    ensures
        first_verdict(fs, i) == Some(fs[k].verdict->0@),
    decreases k - i,
{
    if i < k {
        assert(fs[i].verdict is None);
        lemma_first_verdict(fs, i + 1, k);
    }
}

/// The first verdict of an entry's findings is the one that stands: it shows as it is, and decides
/// the posture.
pub proof fn first_verdict_stands(
    entry: Seq<char>,
    fs: Seq<&EndpointFinding>,
    d: DetailProps,
    k: int,
)
    requires
        shows_detail(entry, fs, d),
        0 <= k < fs.len(),
        fs[k].verdict is Some,
        forall|j: int| 0 <= j < k ==> (#[trigger] fs[j]).verdict is None,
    ensures
        d.verdict matches Some(v) && v@ == fs[k].verdict->0@,
        d.posture == Posture::Breach <==> flags(Some(fs[k].verdict->0@)),
        d.posture != Posture::Awaiting,
{
    lemma_first_verdict(fs, 0, k);
}

/// An entry none of whose findings has a verdict awaits judgement.
pub proof fn no_verdict_awaits(entry: Seq<char>, fs: Seq<&EndpointFinding>, d: DetailProps)
    requires
        shows_detail(entry, fs, d),
        forall|j: int| 0 <= j < fs.len() ==> (#[trigger] fs[j]).verdict is None,
    ensures
        d.verdict is None,
        d.posture == Posture::Awaiting,
{
    lemma_no_verdict(fs, 0);
}

proof fn lemma_no_verdict(fs: Seq<&EndpointFinding>, i: int)
    requires
        0 <= i <= fs.len(),
        forall|j: int| i <= j < fs.len() ==> (#[trigger] fs[j]).verdict is None,
    ensures
        first_verdict(fs, i) is None,
    decreases fs.len() - i,
{
    if i < fs.len() {
        assert(fs[i].verdict is None);
        lemma_no_verdict(fs, i + 1);
    }
}

/// A row's id keeps letters, digits, hyphens and underscores of its entry in their places.
pub proof fn row_id_keeps_plain_characters(entry: Seq<char>, i: int)
    requires
        0 <= i < entry.len(),
    ensures
        row_id_text(entry).len() == entry.len() + 4,
        text::is_alnum(entry[i]) || entry[i] == '-' || entry[i] == '_' ==> row_id_text(entry)[i + 4]
            == entry[i],
        !(text::is_alnum(entry[i]) || entry[i] == '-' || entry[i] == '_') ==> row_id_text(entry)[i + 4]
            == '-',
{
    reveal_strlit("row-");
    assert("row-"@.len() == 4);
}

/// A clause that is too long is cut behind its ninetieth character, and any other stays.
pub proof fn long_clauses_are_cut(s: Seq<char>)
    ensures
        s.len() <= 90 ==> truncated(s) == s,
        s.len() > 90 ==> truncated(s) == s.take(90).push('\u{2026}'),
{
}

/// The first clause of a text runs to the first break.
pub proof fn first_clause_runs_to_the_first_break(s: Seq<char>, i: int)
    requires
        0 <= i <= s.len(),
        forall|j: int| 0 <= j < i ==> !is_break(#[trigger] s[j]),
    ensures
        exists|k: int|
            i <= k <= s.len() && clause_from(s, i) == #[trigger] s.take(k) && (k < s.len() ==> is_break(
                s[k],
            )) && forall|j: int| 0 <= j < k ==> !is_break(#[trigger] s[j]),
    decreases s.len() - i,
{
    if i >= s.len() || is_break(s[i]) {
        assert(clause_from(s, i) == s.take(i));
    } else {
        first_clause_runs_to_the_first_break(s, i + 1);
        let k = choose|k: int|
            i + 1 <= k <= s.len() && clause_from(s, i + 1) == #[trigger] s.take(k) && (k < s.len()
                ==> is_break(s[k])) && forall|j: int| 0 <= j < k ==> !is_break(#[trigger] s[j]);
        assert(clause_from(s, i) == s.take(k));
    }
}

/// A first clause holds no break and ends in no blank.
pub proof fn first_clause_is_clean(v: Seq<char>, j: int)
    ensures
        0 <= j < first_clause_text(v).len() ==> !is_break(first_clause_text(v)[j]),
        first_clause_text(v).len() > 0 ==> !text::is_space(first_clause_text(v).last()),
{
    let s = text::trim(v);
    let c = clause_from(s, 0);
    first_clause_runs_to_the_first_break(s, 0);
    let k = choose|k: int|
        0 <= k <= s.len() && c == #[trigger] s.take(k) && (k < s.len() ==> is_break(s[k]))
            && forall|j: int| 0 <= j < k ==> !is_break(#[trigger] s[j]);
    trimmed_of_whitespace_only(c);
    let m = choose|m: int|
        0 <= m <= c.len() && text::trim_end(c) == #[trigger] c.take(m) && forall|j: int|
            m <= j < c.len() ==> text::is_space(#[trigger] c[j]);
    if 0 <= j < first_clause_text(v).len() {
        assert(first_clause_text(v)[j] == s[j]);
    }
}

} // verus!
