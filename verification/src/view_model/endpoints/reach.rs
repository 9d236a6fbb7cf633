//! What an entry reaches and by what, in a clause: the facts that the proof establishes.

use crate::graph::{kind_text, short_text, NodeKey};
use crate::state::{CveEvidence, EndpointFinding, EntryEvidence, PathStep};
use crate::text;
use crate::text_set::{lemma_listed, listed, TextSet};
use crate::view_model::endpoints::evidence::{
    cve_fact, has_alert, is_corroborated, is_fact, rank_of, severity_rank, CveFact,
};
use crate::view_model::endpoints::words::{
    cve_id, cve_text, first_clause, first_clause_text, humanize_relation, plural, plural_text, reach_relation_phrase,
    reach_text, relation_text, truncate_clause, truncated, Posture,
};
use crate::view_model::triples::{keys, Key, Triple};
use vstd::prelude::*;
use vstd::string::*;

verus! {

/// The first step at or behind `i` that leads to the node.
pub open spec fn hop_to(path: Seq<PathStep>, to: Seq<char>, i: int) -> Option<PathStep>
    decreases path.len() - i,
{
    if i < 0 || i >= path.len() {
        None
    } else if path[i].to@ == to {
        Some(path[i])
    } else {
        hop_to(path, to, i + 1)
    }
}

/// The first step that leads to the node.
pub fn find_hop<'a>(path: &'a Vec<PathStep>, to: &str) -> (r: Option<&'a PathStep>)
    ensures
        r matches Some(s) ==> hop_to(path@, to@, 0) == Some(*s),
        r is None ==> hop_to(path@, to@, 0) is None,
{
    let mut i: usize = 0;
    while i < path.len()
        invariant
            i <= path.len(),
            hop_to(path@, to@, 0) == hop_to(path@, to@, i as int),
        decreases path.len() - i,
    {
        if text::same(path[i].to.as_str(), to) {
            return Some(&path[i]);
        }
        i += 1;
    }
    None
}

// ---------------------------------------------------------------------------
// The rail
// ---------------------------------------------------------------------------

/// The relations by which the first `n` findings arrive at their objectives, as edge labels.
pub open spec fn arriving(fs: Seq<&EndpointFinding>, n: int) -> Set<Seq<char>>
    decreases n,
{
    if n <= 0 || n > fs.len() {
        Set::empty()
    } else {
        let rest = arriving(fs, n - 1);
        match hop_to(fs[n - 1].path@, fs[n - 1].objective@, 0) {
            Some(step) => rest.insert(relation_text(step.relation@)),
            None => rest,
        }
    }
}

/// What is proven about an entry.
#[derive(Debug, Clone, PartialEq, Eq)]
pub struct RailProps {
    pub entry_short: String,
    pub relations: Vec<String>,
    pub cve: CveFact,
}

/// `r` says what is proven: the relations in ascending order, and the CVEs in numbers.
pub open spec fn shows_rail(
    entry: Seq<char>,
    fs: Seq<&EndpointFinding>,
    ev: EntryEvidence,
    r: RailProps,
) -> bool {
    &&& r.entry_short@ == short_text(entry)
    &&& text::texts(r.relations@) == listed(arriving(fs, fs.len() as int))
    &&& is_fact(ev, r.cve)
}

/// What is proven about an entry.
pub fn rail_facts(entry: &str, fs: &[&EndpointFinding], ev: &EntryEvidence) -> (r: RailProps)
    ensures
        shows_rail(entry@, fs@, *ev, r),
{
    let mut relations = TextSet::new();
    let mut i: usize = 0;
    while i < fs.len()
        invariant
            i <= fs@.len(),
            relations.wf(),
            relations@ == arriving(fs@, i as int),
        decreases fs@.len() - i,
    {
        match find_hop(&fs[i].path, fs[i].objective.as_str()) {
            Some(step) => {
                relations.insert(humanize_relation(step.relation.as_str()));
            },
            None => {},
        }
        i += 1;
    }
    proof {
        lemma_listed(text::texts(relations.items@));
    }
    RailProps {
        entry_short: NodeKey::short_of(entry).to_string(),
        relations: relations.items,
        cve: cve_fact(ev),
    }
}

// ---------------------------------------------------------------------------
// The reaches clause
// ---------------------------------------------------------------------------

/// An arrival at an objective: the objective's kind, its key, and the relation that arrives.
pub open spec fn arrival_of(f: EndpointFinding) -> Option<Key> {
    match hop_to(f.path@, f.objective@, 0) {
        Some(step) => Some(
            Key { first: kind_text(step.to@), second: step.to@, third: step.relation@ },
        ),
        None => None,
    }
}

/// The arrivals of the findings.
pub open spec fn arrivals(fs: Seq<&EndpointFinding>) -> Seq<Key> {
    fs.filter_map(|f: &EndpointFinding| arrival_of(*f))
}

/// The kinds that are arrived at, among the first `n`.
pub open spec fn kinds(v: Seq<Key>, n: int) -> Set<Seq<char>>
    decreases n,
{
    if n <= 0 || n > v.len() {
        Set::empty()
    } else {
        kinds(v, n - 1).insert(v[n - 1].first)
    }
}

/// The objectives of a kind, among the first `n`.
pub open spec fn objectives_of(v: Seq<Key>, kind: Seq<char>, n: int) -> Set<Seq<char>>
    decreases n,
{
    if n <= 0 || n > v.len() {
        Set::empty()
    } else if v[n - 1].first == kind {
        objectives_of(v, kind, n - 1).insert(v[n - 1].second)
    } else {
        objectives_of(v, kind, n - 1)
    }
}

/// How many distinct objectives of a kind there are.
pub open spec fn breadth(v: Seq<Key>, kind: Seq<char>) -> int {
    objectives_of(v, kind, v.len() as int).len() as int
}

/// The relations that arrive at a kind, among the first `n`.
pub open spec fn relations_of(v: Seq<Key>, kind: Seq<char>, n: int) -> Set<Seq<char>>
    decreases n,
{
    if n <= 0 || n > v.len() {
        Set::empty()
    } else if v[n - 1].first == kind {
        relations_of(v, kind, n - 1).insert(v[n - 1].third)
    } else {
        relations_of(v, kind, n - 1)
    }
}

/// How often a relation arrives at a kind, among the first `n`.
pub open spec fn uses(v: Seq<Key>, kind: Seq<char>, relation: Seq<char>, n: int) -> int
    decreases n,
{
    if n <= 0 || n > v.len() {
        0
    } else {
        uses(v, kind, relation, n - 1) + (if v[n - 1].first == kind && v[n - 1].third == relation {
            1int
        } else {
            0int
        })
    }
}

/// Of the first `n` kinds, the one with the most objectives; the first of those that tie.
pub open spec fn widest(v: Seq<Key>, ks: Seq<Seq<char>>, n: int) -> Option<Seq<char>>
    decreases n,
{
    if n <= 0 || n > ks.len() {
        None
    } else {
        match widest(v, ks, n - 1) {
            Some(best) => if breadth(v, ks[n - 1]) > breadth(v, best) {
                Some(ks[n - 1])
            } else {
                Some(best)
            },
            None => Some(ks[n - 1]),
        }
    }
}

/// Of the first `n` relations, the one used most for the kind; the last of those that tie.
pub open spec fn commonest(v: Seq<Key>, kind: Seq<char>, rs: Seq<Seq<char>>, n: int) -> Option<Seq<char>>
    decreases n,
{
    if n <= 0 || n > rs.len() {
        None
    } else {
        match commonest(v, kind, rs, n - 1) {
            Some(best) => if uses(v, kind, rs[n - 1], v.len() as int) >= uses(
                v,
                kind,
                best,
                v.len() as int,
            ) {
                Some(rs[n - 1])
            } else {
                Some(best)
            },
            None => Some(rs[n - 1]),
        }
    }
}

/// The kind that is reached most broadly.
pub open spec fn main_kind(v: Seq<Key>) -> Option<Seq<char>> {
    let ks = listed(kinds(v, v.len() as int));
    widest(v, ks, ks.len() as int)
}

/// The relation that mostly reaches a kind, in words.
pub open spec fn main_relation(v: Seq<Key>, kind: Seq<char>) -> Seq<char> {
    let rs = listed(relations_of(v, kind, v.len() as int));
    match commonest(v, kind, rs, rs.len() as int) {
        Some(r) => reach_text(r),
        None => Seq::empty(),
    }
}

/// `reaches <n> <kind> via <relation>`, of the kind that is reached most broadly.
pub open spec fn clause_of(v: Seq<Key>) -> Option<Seq<char>> {
    match main_kind(v) {
        Some(kind) => {
            let n = breadth(v, kind);
            let rel = main_relation(v, kind);
            Some(
                "reaches "@ + text::decimal(n as nat) + " "@ + plural_text(kind, n) + (if rel.len()
                    == 0 {
                    Seq::empty()
                } else {
                    " via "@ + rel
                }),
            )
        },
        None => None,
    }
}

/// The arrivals of the findings.
fn collect_arrivals(fs: &[&EndpointFinding]) -> (r: Vec<Triple>)
    ensures
        keys(r@) == arrivals(fs@),
{
    let ghost p = |f: &EndpointFinding| arrival_of(*f);
    let mut r: Vec<Triple> = Vec::new();
    let mut i: usize = 0;
    assert(keys(r@) =~= fs@.take(0).filter_map(p));
    while i < fs.len()
        invariant
            i <= fs@.len(),
            p == |f: &EndpointFinding| arrival_of(*f),
            keys(r@) == fs@.take(i as int).filter_map(p),
        decreases fs@.len() - i,
    {
        let ghost so_far = fs@.take(i as int).filter_map(p);
        proof {
            fs@.lemma_filter_map_take_succ(p, i as int);
        }
        match find_hop(&fs[i].path, fs[i].objective.as_str()) {
            Some(step) => {
                let ghost before = r@;
                let t = Triple {
                    first: NodeKey::kind_of(step.to.as_str()).to_string(),
                    second: step.to.clone(),
                    third: step.relation.clone(),
                };
                let ghost k = t@;
                r.push(t);
                assert(keys(r@) =~= keys(before).push(k));
                assert(fs@.take(i + 1).filter_map(p) =~= so_far.push(k));
            },
            None => {
                assert(fs@.take(i + 1).filter_map(p) =~= so_far);
            },
        }
        i += 1;
    }
    assert(fs@.take(fs@.len() as int) =~= fs@);
    r
}

/// How many distinct objectives of a kind there are.
fn count_objectives(v: &Vec<Triple>, kind: &str) -> (r: usize)
    ensures
        r == breadth(keys(v@), kind@),
{
    let mut s = TextSet::new();
    let mut i: usize = 0;
    while i < v.len()
        invariant
            i <= v.len(),
            s.wf(),
            s@ == objectives_of(keys(v@), kind@, i as int),
        decreases v.len() - i,
    {
        assert(keys(v@)[i as int] == v@[i as int]@);
        if text::same(v[i].first.as_str(), kind) {
            s.insert(v[i].second.clone());
        }
        i += 1;
    }
    s.len()
}

/// How often a relation arrives at a kind.
fn count_uses(v: &Vec<Triple>, kind: &str, relation: &str) -> (r: usize)
    ensures
        r == uses(keys(v@), kind@, relation@, v@.len() as int),
{
    let mut n: usize = 0;
    let mut i: usize = 0;
    while i < v.len()
        invariant
            i <= v.len(),
            n <= i,
            n == uses(keys(v@), kind@, relation@, i as int),
        decreases v.len() - i,
    {
        assert(keys(v@)[i as int] == v@[i as int]@);
        if text::same(v[i].first.as_str(), kind) && text::same(v[i].third.as_str(), relation) {
            n += 1;
        }
        i += 1;
    }
    n
}

/// The kinds that are arrived at.
fn arrived_kinds(v: &Vec<Triple>) -> (r: TextSet)
    ensures
        r.wf(),
        r@ == kinds(keys(v@), v@.len() as int),
{
    let mut r = TextSet::new();
    let mut i: usize = 0;
    while i < v.len()
        invariant
            i <= v.len(),
            r.wf(),
            r@ == kinds(keys(v@), i as int),
        decreases v.len() - i,
    {
        assert(keys(v@)[i as int] == v@[i as int]@);
        r.insert(v[i].first.clone());
        i += 1;
    }
    r
}

/// The relations that arrive at a kind.
fn arriving_relations(v: &Vec<Triple>, kind: &str) -> (r: TextSet)
    ensures
        r.wf(),
        r@ == relations_of(keys(v@), kind@, v@.len() as int),
{
    let mut r = TextSet::new();
    let mut i: usize = 0;
    while i < v.len()
        invariant
            i <= v.len(),
            r.wf(),
            r@ == relations_of(keys(v@), kind@, i as int),
        decreases v.len() - i,
    {
        assert(keys(v@)[i as int] == v@[i as int]@);
        if text::same(v[i].first.as_str(), kind) {
            r.insert(v[i].third.clone());
        }
        i += 1;
    }
    r
}

/// The kind that is reached most broadly.
fn find_main_kind(v: &Vec<Triple>) -> (r: Option<String>)
    ensures
        text::opt_text(r) == main_kind(keys(v@)),
{
    let ks = arrived_kinds(v);
    let ghost names = text::texts(ks.items@);
    proof {
        lemma_listed(names);
    }
    let mut best: Option<String> = None;
    let mut i: usize = 0;
    while i < ks.items.len()
        invariant
            i <= ks.items.len(),
            names == text::texts(ks.items@),
            text::opt_text(best) == widest(keys(v@), names, i as int),
        decreases ks.items.len() - i,
    {
        assert(names[i as int] == ks.items@[i as int]@);
        let better = match &best {
            Some(b) => count_objectives(v, ks.items[i].as_str()) > count_objectives(v, b.as_str()),
            None => true,
        };
        if better {
            best = Some(ks.items[i].clone());
        }
        i += 1;
    }
    best
}

/// The relation that mostly reaches a kind, in words.
fn find_main_relation(v: &Vec<Triple>, kind: &str) -> (r: String)
    ensures
        r@ == main_relation(keys(v@), kind@),
{
    let rs = arriving_relations(v, kind);
    let ghost names = text::texts(rs.items@);
    proof {
        lemma_listed(names);
    }
    let mut best: Option<String> = None;
    let mut i: usize = 0;
    while i < rs.items.len()
        invariant
            i <= rs.items.len(),
            names == text::texts(rs.items@),
            text::opt_text(best) == commonest(keys(v@), kind@, names, i as int),
        decreases rs.items.len() - i,
    {
        assert(names[i as int] == rs.items@[i as int]@);
        let better = match &best {
            Some(b) => count_uses(v, kind, rs.items[i].as_str()) >= count_uses(
                v,
                kind,
                b.as_str(),
            ),
            None => true,
        };
        if better {
            best = Some(rs.items[i].clone());
        }
        i += 1;
    }
    match best {
        Some(b) => reach_relation_phrase(b.as_str()),
        None => String::new(),
    }
}

/// What the findings reach, in a clause; nothing where no path arrives.
pub fn terminal_reach_clause(fs: &[&EndpointFinding]) -> (r: Option<String>)
    ensures
        text::opt_text(r) == clause_of(arrivals(fs@)),
{
    let v = collect_arrivals(fs);
    match find_main_kind(&v) {
        Some(kind) => {
            let n = count_objectives(&v, kind.as_str());
            let rel = find_main_relation(&v, kind.as_str());
            let head = "reaches ".to_string().concat(text::number(n as u64).as_str()).concat(
                " ",
            ).concat(plural(kind.as_str(), n).as_str());
            if rel.as_str().is_empty() {
                assert(head@ + Seq::<char>::empty() =~= head@);
                Some(head)
            } else {
                let r = head.concat(" via ").concat(rel.as_str());
                assert(r@ =~= head@ + (" via "@ + rel@));
                Some(r)
            }
        },
        None => None,
    }
}

// ---------------------------------------------------------------------------
// The gist of a verdict
// ---------------------------------------------------------------------------

/// A CVE that decides: known to be exploited, or critical.
pub open spec fn is_decisive(c: CveEvidence) -> bool {
    c.kev || c.severity@ == "critical"@
}

/// The worst of the first `n` CVEs that decide; the first of those that tie.
pub open spec fn decisive(cves: Seq<CveEvidence>, n: int) -> Option<CveEvidence>
    decreases n,
{
    if n <= 0 || n > cves.len() {
        None
    } else {
        let c = cves[n - 1];
        match decisive(cves, n - 1) {
            Some(best) => if is_decisive(c) && rank_of(c) < rank_of(best) {
                Some(c)
            } else {
                Some(best)
            },
            None => if is_decisive(c) {
                Some(c)
            } else {
                None
            },
        }
    }
}

/// Some finding is corroborated.
pub open spec fn any_corroborated(fs: Seq<&EndpointFinding>) -> bool {
    exists|i: int| 0 <= i < fs.len() && (#[trigger] fs[i]).corroborated
}

/// The one clause that decides: a CVE, a live signal, what is reached, or the first words of the
/// verdict.
pub open spec fn gist_text(
    verdict: Option<Seq<char>>,
    ev: EntryEvidence,
    fs: Seq<&EndpointFinding>,
) -> Seq<char> {
    let cited = match verdict {
        Some(v) => cve_text(v),
        None => None,
    };
    match decisive(ev.cves@, ev.cves@.len() as int) {
        Some(c) => c.id@ + " ("@ + (if c.kev {
            "KEV"@
        } else {
            "critical CVE"@
        }) + ")"@,
        None => match cited {
            Some(id) => "cites "@ + id,
            None => if any_corroborated(fs) || has_alert(ev) {
                "runtime-corroborated"@
            } else {
                match clause_of(arrivals(fs)) {
                    Some(clause) => clause,
                    None => match verdict {
                        Some(v) => truncated(first_clause_text(v)),
                        None => Seq::empty(),
                    },
                }
            },
        },
    }
}

fn find_decisive<'a>(cves: &'a Vec<CveEvidence>) -> (r: Option<&'a CveEvidence>)
    ensures
        r matches Some(c) ==> decisive(cves@, cves@.len() as int) == Some(*c),
        r is None ==> decisive(cves@, cves@.len() as int) is None,
{
    let mut best: Option<&'a CveEvidence> = None;
    let mut i: usize = 0;
    while i < cves.len()
        invariant
            i <= cves.len(),
            best matches Some(c) ==> decisive(cves@, i as int) == Some(*c),
            best is None ==> decisive(cves@, i as int) is None,
        decreases cves.len() - i,
    {
        let c = &cves[i];
        if c.kev || text::same(c.severity.as_str(), "critical") {
            let better = match best {
                Some(b) => severity_rank(c) < severity_rank(b),
                None => true,
            };
            if better {
                best = Some(c);
            }
        }
        i += 1;
    }
    best
}

/// Whether some finding is corroborated.
pub fn has_corroborated(fs: &[&EndpointFinding]) -> (r: bool)
    ensures
        r == any_corroborated(fs@),
{
    let mut i: usize = 0;
    while i < fs.len()
        invariant
            i <= fs@.len(),
            forall|k: int| 0 <= k < i ==> !(#[trigger] fs@[k]).corroborated,
        decreases fs@.len() - i,
    {
        if fs[i].corroborated {
            assert(fs@[i as int].corroborated);
            return true;
        }
        i += 1;
    }
    false
}

/// The posture and the one clause that decides.
pub fn verdict_gist(verdict: Option<&str>, ev: &EntryEvidence, fs: &[&EndpointFinding]) -> (r: (
    &'static str,
    String,
))
    ensures
        r.0@ == Posture::of_words(text::opt_str(verdict)).label_text(),
        r.1@ == gist_text(text::opt_str(verdict), *ev, fs@),
{
    let tag = Posture::of(verdict).label();
    match find_decisive(&ev.cves) {
        Some(c) => {
            let kind = if c.kev {
                "KEV"
            } else {
                "critical CVE"
            };
            return (tag, c.id.clone().concat(" (").concat(kind).concat(")"));
        },
        None => {},
    }
    match verdict {
        Some(v) => match cve_id(v) {
            Some(id) => {
                return (tag, "cites ".to_string().concat(id));
            },
            None => {},
        },
        None => {},
    }
    if has_corroborated(fs) || is_corroborated(ev) {
        return (tag, "runtime-corroborated".to_string());
    }
    match terminal_reach_clause(fs) {
        Some(clause) => {
            return (tag, clause);
        },
        None => {},
    }
    match verdict {
        Some(v) => (tag, truncate_clause(first_clause(v).as_str())),
        None => (tag, String::new()),
    }
}

// ---------------------------------------------------------------------------
// The picture in words
// ---------------------------------------------------------------------------

/// The node is the objective of some finding.
pub open spec fn is_objective(fs: Seq<&EndpointFinding>, key: Seq<char>) -> bool {
    exists|i: int| 0 <= i < fs.len() && (#[trigger] fs[i]).objective@ == key
}

/// The objectives that the first `n` steps of a path lead to.
pub open spec fn led_to(fs: Seq<&EndpointFinding>, path: Seq<PathStep>, n: int) -> Set<Seq<char>>
    decreases n,
{
    if n <= 0 || n > path.len() {
        Set::empty()
    } else if is_objective(fs, path[n - 1].to@) {
        led_to(fs, path, n - 1).insert(path[n - 1].to@)
    } else {
        led_to(fs, path, n - 1)
    }
}

/// The objectives that the paths of the first `n` findings lead to.
pub open spec fn targets(fs: Seq<&EndpointFinding>, n: int) -> Set<Seq<char>>
    decreases n,
{
    if n <= 0 || n > fs.len() {
        Set::empty()
    } else {
        targets(fs, n - 1).union(led_to(fs, fs[n - 1].path@, fs[n - 1].path@.len() as int))
    }
}

/// The attack path in words.
pub open spec fn aria_text(entry: Seq<char>, fs: Seq<&EndpointFinding>) -> Seq<char> {
    let n = targets(fs, fs.len() as int).len();
    "Attack-path graph: the internet reaches "@ + short_text(entry) + ", which reaches "@
        + text::decimal(n) + " target"@ + (if n == 1 {
        ""@
    } else {
        "s"@
    }) + " it can get to."@
}

fn objective_among(fs: &[&EndpointFinding], key: &str) -> (r: bool)
    ensures
        r == is_objective(fs@, key@),
{
    let mut i: usize = 0;
    while i < fs.len()
        invariant
            i <= fs@.len(),
            forall|k: int| 0 <= k < i ==> (#[trigger] fs@[k]).objective@ != key@,
        decreases fs@.len() - i,
    {
        if text::same(fs[i].objective.as_str(), key) {
            assert(fs@[i as int].objective@ == key@);
            return true;
        }
        i += 1;
    }
    false
}

/// The attack path in words.
pub fn path_aria_label(entry: &str, fs: &[&EndpointFinding]) -> (r: String)
    ensures
        r@ == aria_text(entry@, fs@),
{
    let mut seen = TextSet::new();
    let mut i: usize = 0;
    while i < fs.len()
        invariant
            i <= fs@.len(),
            seen.wf(),
            seen@ == targets(fs@, i as int),
        decreases fs@.len() - i,
    {
        let path = &fs[i].path;
        let ghost before = seen@;
        let mut k: usize = 0;
        assert(before.union(led_to(fs@, path@, 0)) =~= before);
        while k < path.len()
            invariant
                k <= path.len(),
                seen.wf(),
                seen@ == before.union(led_to(fs@, path@, k as int)),
            decreases path.len() - k,
        {
            if objective_among(fs, path[k].to.as_str()) {
                seen.insert(path[k].to.clone());
                assert(seen@ =~= before.union(led_to(fs@, path@, k + 1)));
            }
            k += 1;
        }
        i += 1;
    }
    let n = seen.len();
    "Attack-path graph: the internet reaches ".to_string().concat(NodeKey::short_of(entry)).concat(
        ", which reaches ",
    ).concat(text::number(n as u64).as_str()).concat(" target").concat(
        if n == 1 {
            ""
        } else {
            "s"
        },
    ).concat(" it can get to.")
}

} // verus!
