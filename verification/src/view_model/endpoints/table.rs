//! The rows of the endpoint table, what stands behind each, and the card of a cut.

use crate::graph::{kind_text, short_text, NodeKey};
use crate::order;
use crate::state::{EndpointFinding, EntryEvidence, PathStep};
use crate::text;
use crate::view_model::endpoints::advice::{advice_text, lever_text, next_lever_tag, what_to_do};
use crate::view_model::endpoints::attention::{row_id, row_id_text};
use crate::view_model::endpoints::evidence::{
    evidence_props, glyph_props, shows_evidence, shows_glyphs, EvidenceProps, GlyphProps,
};
use crate::view_model::endpoints::reach::{
    any_corroborated, aria_text, arrivals, clause_of, gist_text, has_corroborated, path_aria_label, rail_facts,
    shows_rail, terminal_reach_clause, verdict_gist, RailProps,
};
use crate::view_model::endpoints::words::{
    humanize_relation, is_broad, plural, plural_text, relation_text, Posture, Tier, BROAD_REACH,
};
use crate::view_model::posture::{relative_text, relative_time};
use crate::view_model::triples::{keys, ordered, ordered_triples, Key, Triple};
use vstd::prelude::*;
use vstd::string::*;

verus! {

// ---------------------------------------------------------------------------
// Props
// ---------------------------------------------------------------------------

/// One edge to draw.
#[derive(Debug, Clone, PartialEq, Eq)]
pub struct GraphEdge {
    pub from: String,
    pub to: String,
    /// The label of a node that stands for several.
    pub to_label: Option<String>,
    pub edge_label: String,
    pub cut: bool,
}

/// An edge, in characters.
pub struct Drawn {
    pub from: Seq<char>,
    pub to: Seq<char>,
    pub to_label: Option<Seq<char>>,
    pub edge_label: Seq<char>,
    pub cut: bool,
}

impl View for GraphEdge {
    type V = Drawn;

    open spec fn view(&self) -> Drawn {
        Drawn {
            from: self.from@,
            to: self.to@,
            to_label: text::opt_text(self.to_label),
            edge_label: self.edge_label@,
            cut: self.cut,
        }
    }
}

/// The objectives that one drawn node stands for.
#[derive(Debug, Clone, PartialEq, Eq)]
pub struct FanoutGroup {
    pub count: usize,
    pub kind_plural: String,
    pub relation: String,
    pub members: Vec<String>,
}

/// A group of objectives, in characters.
pub struct Fan {
    pub count: int,
    pub kind_plural: Seq<char>,
    pub relation: Seq<char>,
    pub members: Seq<Seq<char>>,
}

impl View for FanoutGroup {
    type V = Fan;

    open spec fn view(&self) -> Fan {
        Fan {
            count: self.count as int,
            kind_plural: self.kind_plural@,
            relation: self.relation@,
            members: text::texts(self.members@),
        }
    }
}

/// The picture of an entry's reach.
#[derive(Debug, Clone, PartialEq, Eq)]
pub struct GraphProps {
    pub entry: String,
    pub entry_short: String,
    pub edges: Vec<GraphEdge>,
    pub aria: String,
    pub objectives: usize,
    pub hops: usize,
    pub broad: bool,
    pub fanouts: Vec<FanoutGroup>,
}

/// How a broad reach is introduced.
#[derive(Debug, Clone, Copy, PartialEq, Eq, Structural)]
pub enum BroadLead {
    /// Not at all.
    Unled,
    /// Broad and safe: it works as intended.
    Calm,
    /// Broad and not judged yet.
    AwaitingNote,
}

/// What stands behind a row.
#[derive(Debug, Clone, PartialEq, Eq)]
pub struct DetailProps {
    pub posture: Posture,
    pub verdict: Option<String>,
    pub broad_lead: BroadLead,
    pub rail: RailProps,
    pub evidence: EvidenceProps,
    pub graph: GraphProps,
    /// What to do about a breach.
    pub todo: Option<String>,
}

/// What a row needs of its detail.
#[derive(Debug, Clone, Copy, PartialEq, Eq)]
pub struct RowMeta {
    pub posture: Posture,
    pub objectives: usize,
    pub calm: bool,
}

/// One row.
#[derive(Debug, Clone, PartialEq, Eq)]
pub struct RowProps {
    pub tier: Tier,
    pub row_id: String,
    pub detail_id: String,
    pub entry_short: String,
    pub reaches: String,
    pub verdict_tag: &'static str,
    pub verdict_tone: &'static str,
    pub verdict_clause: String,
    pub glyphs: GlyphProps,
    pub lever: &'static str,
    pub age: String,
    pub calm: bool,
}

/// A row and what stands behind it.
#[derive(Debug, Clone, PartialEq, Eq)]
pub struct EndpointProps {
    pub row: RowProps,
    pub detail: DetailProps,
}

/// The attack steps of a chain.
#[derive(Debug, Clone, PartialEq, Eq)]
pub struct KillchainProps {
    pub foothold: bool,
    pub technique: String,
    pub technique_name: String,
}

/// The card of a cut.
#[derive(Debug, Clone, PartialEq, Eq)]
pub struct RemediationProps {
    pub posture: Posture,
    pub verdict: Option<String>,
    pub rail: RailProps,
    pub evidence: EvidenceProps,
    pub killchain: KillchainProps,
    pub graph: GraphProps,
    pub todo: Option<String>,
    /// The cut is applied, and not just proposed.
    pub armed: bool,
}

// ---------------------------------------------------------------------------
// The picture
// ---------------------------------------------------------------------------

/// The steps of the first `n` findings that arrive at their objective, or those that pass.
pub open spec fn steps(fs: Seq<&EndpointFinding>, arrives: bool, n: int) -> Seq<PathStep>
    decreases n,
{
    if n <= 0 || n > fs.len() {
        Seq::empty()
    } else {
        steps(fs, arrives, n - 1) + fs[n - 1].path@.filter(
            |s: PathStep| (s.to@ == fs[n - 1].objective@) == arrives,
        )
    }
}

/// All steps that arrive.
pub open spec fn arriving_steps(fs: Seq<&EndpointFinding>) -> Seq<PathStep> {
    steps(fs, true, fs.len() as int)
}

/// All steps that pass.
pub open spec fn passing_steps(fs: Seq<&EndpointFinding>) -> Seq<PathStep> {
    steps(fs, false, fs.len() as int)
}

/// By what two passing steps count as one.
pub open spec fn step_key(s: PathStep) -> Seq<char> {
    s.from@ + "|"@ + s.to@ + "|"@ + s.relation@
}

/// A step with this key is among these.
pub open spec fn has_step(v: Seq<PathStep>, key: Seq<char>) -> bool {
    exists|i: int| 0 <= i < v.len() && step_key(#[trigger] v[i]) == key
}

/// Each passing step once, where it comes first.
pub open spec fn fresh(v: Seq<PathStep>) -> Seq<PathStep>
    decreases v.len(),
{
    if v.len() == 0 {
        Seq::empty()
    } else {
        let rest = fresh(v.drop_last());
        if has_step(rest, step_key(v.last())) {
            rest
        } else {
            rest.push(v.last())
        }
    }
}

/// A passing step as it is drawn.
pub open spec fn drawn_step(s: PathStep) -> Drawn {
    Drawn {
        from: s.from@,
        to: s.to@,
        to_label: None,
        edge_label: relation_text(s.relation@),
        cut: false,
    }
}

/// By what arriving steps are drawn as one: where from, by what relation, to what kind.
pub open spec fn group_of(s: PathStep) -> Key {
    Key { first: s.from@, second: s.relation@, third: kind_text(s.to@) }
}

/// The groups of arriving steps, in order.
pub open spec fn groups(v: Seq<PathStep>) -> Seq<Key> {
    ordered(v.map_values(|s: PathStep| group_of(s)))
}

/// The objectives of a group.
pub open spec fn members(v: Seq<PathStep>, k: Key) -> Seq<Seq<char>> {
    v.filter(|s: PathStep| group_of(s) == k).map_values(|s: PathStep| s.to@)
}

/// A group as it is drawn: its one objective, or a node that stands for all of them.
pub open spec fn drawn_group(v: Seq<PathStep>, k: Key) -> Drawn {
    let m = members(v, k);
    if m.len() == 1 {
        Drawn {
            from: k.first,
            to: m[0],
            to_label: None,
            edge_label: relation_text(k.second),
            cut: false,
        }
    } else {
        Drawn {
            from: k.first,
            to: k.third + "/__agg/"@ + k.first + "/"@ + k.second,
            to_label: Some(text::decimal(m.len()) + " "@ + plural_text(k.third, m.len() as int)),
            edge_label: relation_text(k.second),
            cut: false,
        }
    }
}

/// The edges of the picture: the passing steps, then the groups.
pub open spec fn drawing(fs: Seq<&EndpointFinding>) -> Seq<Drawn> {
    fresh(passing_steps(fs)).map_values(|s: PathStep| drawn_step(s)) + groups(
        arriving_steps(fs),
    ).map_values(|k: Key| drawn_group(arriving_steps(fs), k))
}

/// A group of several objectives, by their short names in order.
pub open spec fn fan_of(v: Seq<PathStep>, k: Key) -> Fan {
    let m = members(v, k);
    Fan {
        count: m.len() as int,
        kind_plural: plural_text(k.third, m.len() as int),
        relation: k.second,
        members: order::sorted(
            m.map_values(|t: Seq<char>| short_text(t)),
            |a: Seq<char>, b: Seq<char>| text::text_le(a, b),
        ),
    }
}

/// The groups of several objectives.
pub open spec fn fans(v: Seq<PathStep>) -> Seq<Fan> {
    groups(v).filter(|k: Key| members(v, k).len() > 1).map_values(|k: Key| fan_of(v, k))
}

/// The edges that are shown.
pub open spec fn edges_shown(v: Seq<GraphEdge>) -> Seq<Drawn> {
    v.map_values(|e: GraphEdge| e@)
}

/// The groups that are shown.
pub open spec fn fans_shown(v: Seq<FanoutGroup>) -> Seq<Fan> {
    v.map_values(|f: FanoutGroup| f@)
}

/// `g` is the picture of the findings.
pub open spec fn shows_graph(entry: Seq<char>, fs: Seq<&EndpointFinding>, g: GraphProps) -> bool {
    &&& g.entry@ == entry
    &&& g.entry_short@ == short_text(entry)
    &&& edges_shown(g.edges@) == drawing(fs)
    &&& g.aria@ == aria_text(entry, fs)
    &&& g.objectives == arriving_steps(fs).len()
    &&& g.hops == drawing(fs).len()
    &&& g.broad == (arriving_steps(fs).len() >= BROAD_REACH)
    &&& fans_shown(g.fanouts@) == fans(arriving_steps(fs))
}

impl PathStep {
    /// An equal value.
    pub fn duplicate(&self) -> (r: PathStep)
        ensures
            r == *self,
    {
        PathStep { from: self.from.clone(), relation: self.relation.clone(), to: self.to.clone() }
    }
}

/// The steps that arrive at their objective, or those that pass.
fn collect_steps(fs: &[&EndpointFinding], arrives: bool) -> (r: Vec<PathStep>)
    ensures
        r@ == steps(fs@, arrives, fs@.len() as int),
{
    let mut r: Vec<PathStep> = Vec::new();
    let mut i: usize = 0;
    while i < fs.len()
        invariant
            i <= fs@.len(),
            r@ == steps(fs@, arrives, i as int),
        decreases fs@.len() - i,
    {
        let f = fs[i];
        let ghost p = |s: PathStep| (s.to@ == f.objective@) == arrives;
        let ghost before = r@;
        let mut k: usize = 0;
        assert(f.path@.take(0).filter(p) =~= Seq::empty());
        assert(before + Seq::<PathStep>::empty() =~= before);
        while k < f.path.len()
            invariant
                k <= f.path.len(),
                p == |s: PathStep| (s.to@ == f.objective@) == arrives,
                r@ == before + f.path@.take(k as int).filter(p),
            decreases f.path.len() - k,
        {
            broadcast use vstd::seq::Seq::lemma_filter_push;

            let ghost s = f.path@[k as int];
            let ghost so_far = f.path@.take(k as int).filter(p);
            assert(f.path@.take(k + 1) =~= f.path@.take(k as int).push(s));
            if text::same(f.path[k].to.as_str(), f.objective.as_str()) == arrives {
                r.push(f.path[k].duplicate());
                assert((before + so_far).push(s) =~= before + so_far.push(s));
            }
            k += 1;
        }
        assert(f.path@.take(f.path@.len() as int) =~= f.path@);
        proof {
            let q = |s: PathStep| (s.to@ == fs@[i as int].objective@) == arrives;
            assert(p =~= q);
        }
        i += 1;
    }
    r
}

fn step_key_of(s: &PathStep) -> (r: String)
    ensures
        r@ == step_key(*s),
{
    s.from.clone().concat("|").concat(s.to.as_str()).concat("|").concat(s.relation.as_str())
}

/// Each passing step once.
fn fresh_steps(v: &Vec<PathStep>) -> (r: Vec<PathStep>)
    ensures
        r@ == fresh(v@),
{
    let mut r: Vec<PathStep> = Vec::new();
    let mut i: usize = 0;
    assert(r@ =~= fresh(v@.take(0)));
    while i < v.len()
        invariant
            i <= v.len(),
            r@ == fresh(v@.take(i as int)),
        decreases v.len() - i,
    {
        let key = step_key_of(&v[i]);
        let mut known = false;
        let mut k: usize = 0;
        while k < r.len()
            invariant
                k <= r.len(),
                known == exists|j: int| 0 <= j < k && step_key(#[trigger] r@[j]) == key@,
            decreases r.len() - k,
        {
            let other = step_key_of(&r[k]);
            if text::same(other.as_str(), key.as_str()) {
                assert(step_key(r@[k as int]) == key@);
                known = true;
            }
            k += 1;
        }
        assert(known == has_step(r@, key@));
        assert(v@.take(i + 1).drop_last() =~= v@.take(i as int));
        assert(v@.take(i + 1).last() == v@[i as int]);
        if !known {
            r.push(v[i].duplicate());
        }
        i += 1;
    }
    assert(v@.take(v@.len() as int) =~= v@);
    r
}

fn group_triple(s: &PathStep) -> (r: Triple)
    ensures
        r@ == group_of(*s),
{
    Triple {
        first: s.from.clone(),
        second: s.relation.clone(),
        third: NodeKey::kind_of(s.to.as_str()).to_string(),
    }
}

/// The groups of arriving steps, in order.
fn group_triples(v: &Vec<PathStep>) -> (r: Vec<Triple>)
    ensures
        keys(r@) == groups(v@),
{
    let ghost f = |s: PathStep| group_of(s);
    let mut all: Vec<Triple> = Vec::new();
    let mut i: usize = 0;
    while i < v.len()
        invariant
            i <= v.len(),
            all@.len() == i,
            forall|k: int| 0 <= k < i ==> (#[trigger] all@[k])@ == group_of(v@[k]),
        decreases v.len() - i,
    {
        all.push(group_triple(&v[i]));
        i += 1;
    }
    assert(keys(all@) =~= v@.map_values(f));
    ordered_triples(&all)
}

/// The objectives of a group.
fn collect_members(v: &Vec<PathStep>, k: &Triple) -> (r: Vec<String>)
    ensures
        text::texts(r@) == members(v@, k@),
{
    let ghost p = |s: PathStep| group_of(s) == k@;
    let ghost f = |s: PathStep| s.to@;
    let mut r: Vec<String> = Vec::new();
    let mut i: usize = 0;
    assert(text::texts(r@) =~= v@.take(0).filter(p).map_values(f));
    while i < v.len()
        invariant
            i <= v.len(),
            p == |s: PathStep| group_of(s) == k@,
            f == |s: PathStep| s.to@,
            text::texts(r@) == v@.take(i as int).filter(p).map_values(f),
        decreases v.len() - i,
    {
        broadcast use vstd::seq::Seq::lemma_filter_push;

        let ghost so_far = v@.take(i as int).filter(p);
        let ghost s = v@[i as int];
        let ghost before = r@;
        assert(v@.take(i + 1) =~= v@.take(i as int).push(s));
        let t = group_triple(&v[i]);
        if t.is_same(k) {
            r.push(v[i].to.clone());
            assert(text::texts(r@) =~= text::texts(before).push(s.to@));
            assert(so_far.push(s).map_values(f) =~= so_far.map_values(f).push(s.to@));
        }
        i += 1;
    }
    assert(v@.take(v@.len() as int) =~= v@);
    r
}

/// A group as it is drawn.
fn group_edge(v: &Vec<PathStep>, k: &Triple, m: &Vec<String>) -> (r: GraphEdge)
    requires
        text::texts(m@) == members(v@, k@),
    ensures
        r@ == drawn_group(v@, k@),
{
    assert(m@.len() == members(v@, k@).len());
    let label = humanize_relation(k.second.as_str());
    if m.len() == 1 {
        assert(m@[0]@ == members(v@, k@)[0]);
        GraphEdge {
            from: k.first.clone(),
            to: m[0].clone(),
            to_label: None,
            edge_label: label,
            cut: false,
        }
    } else {
        GraphEdge {
            from: k.first.clone(),
            to: k.third.clone().concat("/__agg/").concat(k.first.as_str()).concat("/").concat(
                k.second.as_str(),
            ),
            to_label: Some(
                text::number(m.len() as u64).concat(" ").concat(
                    plural(k.third.as_str(), m.len()).as_str(),
                ),
            ),
            edge_label: label,
            cut: false,
        }
    }
}

/// A group of several objectives.
fn group_fan(v: &Vec<PathStep>, k: &Triple, m: &Vec<String>) -> (r: FanoutGroup)
    requires
        text::texts(m@) == members(v@, k@),
    ensures
        r@ == fan_of(v@, k@),
{
    let ghost short = |t: Seq<char>| short_text(t);
    let ghost all = members(v@, k@);
    assert(m@.len() == all.len());
    let mut names: Vec<String> = Vec::new();
    let mut i: usize = 0;
    while i < m.len()
        invariant
            i <= m.len(),
            all == text::texts(m@),
            names@.len() == i,
            forall|j: int| 0 <= j < i ==> (#[trigger] names@[j])@ == short_text(all[j]),
        decreases m.len() - i,
    {
        assert(all[i as int] == m@[i as int]@);
        names.push(NodeKey::short_of(m[i].as_str()).to_string());
        i += 1;
    }
    assert(text::texts(names@) =~= all.map_values(short));
    let ghost le = |a: String, b: String| text::text_le(a@, b@);
    let ghost tle = |a: Seq<char>, b: Seq<char>| text::text_le(a, b);
    proof {
        order::lemma_sorted_related(
            text::texts(names@),
            names@,
            |t: Seq<char>, s: String| s@ == t,
            tle,
            le,
        );
    }
    let at_most = |a: &String, b: &String| -> (o: bool)
        ensures
            o == text::text_le(a@, b@),
        { text::at_most(a.as_str(), b.as_str()) };
    let sorted = order::sort_stable(names, at_most, Ghost(le));
    assert(text::texts(sorted@) =~= order::sorted(all.map_values(short), tle));
    FanoutGroup {
        count: m.len(),
        kind_plural: plural(k.third.as_str(), m.len()),
        relation: k.second.clone(),
        members: sorted,
    }
}

/// The picture of the findings.
fn graph_props(entry: &str, fs: &[&EndpointFinding]) -> (r: GraphProps)
    ensures
        shows_graph(entry@, fs@, r),
{
    let passing = collect_steps(fs, false);
    let arriving = collect_steps(fs, true);
    let first = fresh_steps(&passing);
    let ghost sd = |s: PathStep| drawn_step(s);
    let mut edges: Vec<GraphEdge> = Vec::new();
    let mut i: usize = 0;
    while i < first.len()
        invariant
            i <= first.len(),
            edges@.len() == i,
            forall|k: int| 0 <= k < i ==> (#[trigger] edges@[k])@ == drawn_step(first@[k]),
        decreases first.len() - i,
    {
        let s = &first[i];
        edges.push(
            GraphEdge {
                from: s.from.clone(),
                to: s.to.clone(),
                to_label: None,
                edge_label: humanize_relation(s.relation.as_str()),
                cut: false,
            },
        );
        i += 1;
    }
    let ghost passed = first@.map_values(sd);
    assert(edges_shown(edges@) =~= passed);
    let triples = group_triples(&arriving);
    let ghost ks = groups(arriving@);
    let ghost gd = |k: Key| drawn_group(arriving@, k);
    let ghost many = |k: Key| members(arriving@, k).len() > 1;
    let ghost fan = |k: Key| fan_of(arriving@, k);
    let mut fanouts: Vec<FanoutGroup> = Vec::new();
    let mut g: usize = 0;
    assert(edges_shown(edges@) =~= passed + ks.take(0).map_values(gd));
    assert(fans_shown(fanouts@) =~= ks.take(0).filter(many).map_values(fan));
    while g < triples.len()
        invariant
            g <= triples.len(),
            keys(triples@) == ks,
            gd == |k: Key| drawn_group(arriving@, k),
            many == |k: Key| members(arriving@, k).len() > 1,
            fan == |k: Key| fan_of(arriving@, k),
            edges_shown(edges@) == passed + ks.take(g as int).map_values(gd),
            fans_shown(fanouts@) == ks.take(g as int).filter(many).map_values(fan),
        decreases triples.len() - g,
    {
        broadcast use vstd::seq::Seq::lemma_filter_push;

        let t = &triples[g];
        let ghost k = ks[g as int];
        assert(k == t@);
        assert(ks.take(g + 1) =~= ks.take(g as int).push(k));
        let m = collect_members(&arriving, t);
        assert(m@.len() == members(arriving@, k).len());
        let e = group_edge(&arriving, t, &m);
        let ghost was = edges@;
        let ghost seen = e@;
        edges.push(e);
        assert(edges_shown(edges@) =~= edges_shown(was).push(seen));
        assert(passed + ks.take(g + 1).map_values(gd) =~= (passed + ks.take(g as int).map_values(
            gd,
        )).push(seen));
        if m.len() > 1 {
            let f = group_fan(&arriving, t, &m);
            let ghost before = fanouts@;
            let ghost shown = f@;
            fanouts.push(f);
            assert(fans_shown(fanouts@) =~= fans_shown(before).push(shown));
            assert(ks.take(g as int).filter(many).push(k).map_values(fan) =~= ks.take(
                g as int,
            ).filter(many).map_values(fan).push(shown));
        }
        g += 1;
    }
    assert(ks.len() == triples@.len());
    assert(ks.take(ks.len() as int) =~= ks);
    assert(edges@.len() == drawing(fs@).len()) by {
        assert(edges_shown(edges@).len() == edges@.len());
    }
    let hops = edges.len();
    GraphProps {
        entry: entry.to_string(),
        entry_short: NodeKey::short_of(entry).to_string(),
        edges,
        aria: path_aria_label(entry, fs),
        objectives: arriving.len(),
        hops,
        broad: is_broad(arriving.len()),
        fanouts,
    }
}

// ---------------------------------------------------------------------------
// The detail
// ---------------------------------------------------------------------------

/// The first verdict at or behind `i`.
pub open spec fn first_verdict(fs: Seq<&EndpointFinding>, i: int) -> Option<Seq<char>>
    decreases fs.len() - i,
{
    if i < 0 || i >= fs.len() {
        None
    } else {
        match fs[i].verdict {
            Some(v) => Some(v@),
            None => first_verdict(fs, i + 1),
        }
    }
}

/// `ev` is the evidence behind the findings: that of the first, and none where there is none.
pub open spec fn is_behind(fs: Seq<&EndpointFinding>, ev: EntryEvidence) -> bool {
    if fs.len() == 0 {
        ev.none()
    } else {
        ev == fs[0].evidence
    }
}

/// How a broad reach is introduced.
pub open spec fn lead_of(broad: bool, posture: Posture) -> BroadLead {
    if broad && posture == Posture::Safe {
        BroadLead::Calm
    } else if broad && posture == Posture::Awaiting {
        BroadLead::AwaitingNote
    } else {
        BroadLead::Unled
    }
}

/// What to do about the findings of an entry.
pub open spec fn todo_of(fs: Seq<&EndpointFinding>, posture: Posture) -> Option<Seq<char>> {
    if fs.len() == 0 {
        Some("manual \u{2014} no automatic cut classified for this path"@)
    } else {
        advice_text(*fs[0], posture)
    }
}

/// The posture of an entry.
pub open spec fn posture_of(fs: Seq<&EndpointFinding>) -> Posture {
    Posture::of_words(first_verdict(fs, 0))
}

/// The reach of an entry is broad.
pub open spec fn reaches_broadly(fs: Seq<&EndpointFinding>) -> bool {
    arriving_steps(fs).len() >= BROAD_REACH
}

/// `d` is what stands behind the row of the findings.
pub open spec fn shows_detail(entry: Seq<char>, fs: Seq<&EndpointFinding>, d: DetailProps) -> bool {
    &&& d.posture == posture_of(fs)
    &&& text::opt_text(d.verdict) == first_verdict(fs, 0)
    &&& d.broad_lead == lead_of(reaches_broadly(fs), posture_of(fs))
    &&& exists|ev: EntryEvidence|
        {
            &&& #[trigger] is_behind(fs, ev)
            &&& shows_rail(entry, fs, ev, d.rail)
            &&& shows_evidence(ev, d.evidence)
        }
    &&& shows_graph(entry, fs, d.graph)
    &&& text::opt_text(d.todo) == todo_of(fs, posture_of(fs))
}

/// `m` is what the row of the findings needs.
pub open spec fn is_meta(fs: Seq<&EndpointFinding>, m: RowMeta) -> bool {
    &&& m.posture == posture_of(fs)
    &&& m.objectives == arriving_steps(fs).len()
    &&& m.calm == (lead_of(reaches_broadly(fs), posture_of(fs)) == BroadLead::Calm)
}

/// The first verdict of the findings.
fn find_verdict<'a>(fs: &'a [&'a EndpointFinding]) -> (r: Option<&'a str>)
    ensures
        text::opt_str(r) == first_verdict(fs@, 0),
{
    let mut i: usize = 0;
    while i < fs.len()
        invariant
            i <= fs@.len(),
            first_verdict(fs@, 0) == first_verdict(fs@, i as int),
        decreases fs@.len() - i,
    {
        match &fs[i].verdict {
            Some(v) => {
                return Some(v.as_str());
            },
            None => {},
        }
        i += 1;
    }
    None
}

fn broad_lead(broad: bool, posture: Posture) -> (r: BroadLead)
    ensures
        r == lead_of(broad, posture),
{
    if broad && posture == Posture::Safe {
        BroadLead::Calm
    } else if broad && posture == Posture::Awaiting {
        BroadLead::AwaitingNote
    } else {
        BroadLead::Unled
    }
}

/// What stands behind the row of an entry, and what the row needs of it.
pub fn detail_props(entry: &str, fs: &[&EndpointFinding]) -> (r: (DetailProps, RowMeta))
    ensures
        shows_detail(entry@, fs@, r.0),
        is_meta(fs@, r.1),
{
    let verdict = find_verdict(fs);
    let posture = Posture::of(verdict);
    let graph = graph_props(entry, fs);
    let lead = broad_lead(graph.broad, posture);
    let meta = RowMeta { posture, objectives: graph.objectives, calm: lead == BroadLead::Calm };
    let words = match verdict {
        Some(v) => Some(v.to_string()),
        None => None,
    };
    if fs.len() == 0 {
        let none = EntryEvidence::default();
        let rail = rail_facts(entry, fs, &none);
        let evidence = evidence_props(&none);
        assert(is_behind(fs@, none));
        let todo = Some("manual \u{2014} no automatic cut classified for this path".to_string());
        (
            DetailProps { posture, verdict: words, broad_lead: lead, rail, evidence, graph, todo },
            meta,
        )
    } else {
        let ev = &fs[0].evidence;
        let rail = rail_facts(entry, fs, ev);
        let evidence = evidence_props(ev);
        assert(is_behind(fs@, *ev));
        let todo = what_to_do(fs[0], posture);
        (
            DetailProps { posture, verdict: words, broad_lead: lead, rail, evidence, graph, todo },
            meta,
        )
    }
}

// ---------------------------------------------------------------------------
// The row
// ---------------------------------------------------------------------------

/// What a row says that its entry reaches.
pub open spec fn reaches_text(fs: Seq<&EndpointFinding>) -> Seq<char> {
    match clause_of(arrivals(fs)) {
        Some(c) => c,
        None => text::decimal(arriving_steps(fs).len()) + " target"@ + (if arriving_steps(fs).len()
            == 1 {
            ""@
        } else {
            "s"@
        }),
    }
}

/// The lever of a row.
pub open spec fn row_lever(fs: Seq<&EndpointFinding>) -> Seq<char> {
    if lead_of(reaches_broadly(fs), posture_of(fs)) == BroadLead::Calm {
        "working as intended"@
    } else if fs.len() == 0 {
        "manual"@
    } else {
        lever_text(fs[0].disposition@, posture_of(fs))
    }
}

/// `r` is the row of the findings.
pub open spec fn shows_row(
    entry: Seq<char>,
    fs: Seq<&EndpointFinding>,
    tier: Tier,
    last_pass: Option<u64>,
    r: RowProps,
) -> bool {
    &&& r.tier == tier
    &&& r.row_id@ == row_id_text(entry)
    &&& r.detail_id@ == row_id_text(entry) + "-detail"@
    &&& r.entry_short@ == short_text(entry)
    &&& r.reaches@ == reaches_text(fs)
    &&& r.verdict_tag@ == posture_of(fs).label_text()
    &&& r.verdict_tone@ == posture_of(fs).tone_text()
    &&& exists|ev: EntryEvidence|
        {
            &&& #[trigger] is_behind(fs, ev)
            &&& r.verdict_clause@ == gist_text(first_verdict(fs, 0), ev, fs)
            &&& shows_glyphs(
                ev,
                any_corroborated(fs),
                posture_of(fs) == Posture::Awaiting,
                r.glyphs,
            )
        }
    &&& r.lever@ == row_lever(fs)
    &&& r.age@ == relative_text(last_pass)
    &&& r.calm == (lead_of(reaches_broadly(fs), posture_of(fs)) == BroadLead::Calm)
}

/// The row of an entry, at the tier it was given, and what stands behind it. `last_pass` is how many
/// seconds ago the last pass was.
pub fn endpoint_props(
    entry: &str,
    fs: &[&EndpointFinding],
    tier: Tier,
    last_pass: Option<u64>,
) -> (r: EndpointProps)
    ensures
        shows_row(entry@, fs@, tier, last_pass, r.row),
        shows_detail(entry@, fs@, r.detail),
{
    let (detail, meta) = detail_props(entry, fs);
    let id = row_id(entry);
    let detail_id = row_id(entry).concat("-detail");
    let reaches = match terminal_reach_clause(fs) {
        Some(c) => c,
        None => text::number(meta.objectives as u64).concat(" target").concat(
            if meta.objectives == 1 {
                ""
            } else {
                "s"
            },
        ),
    };
    let verdict = find_verdict(fs);
    let none = EntryEvidence::default();
    let ev = if fs.len() == 0 {
        &none
    } else {
        &fs[0].evidence
    };
    assert(is_behind(fs@, *ev));
    let (tag, clause) = verdict_gist(verdict, ev, fs);
    let awaiting = meta.posture == Posture::Awaiting;
    let glyphs = glyph_props(ev, has_corroborated(fs), awaiting);
    let lever = if meta.calm {
        "working as intended"
    } else if fs.len() == 0 {
        "manual"
    } else {
        next_lever_tag(fs[0], meta.posture)
    };
    let row = RowProps {
        tier,
        row_id: id,
        detail_id,
        entry_short: NodeKey::short_of(entry).to_string(),
        reaches,
        verdict_tag: tag,
        verdict_tone: meta.posture.tone(),
        verdict_clause: clause,
        glyphs,
        lever,
        age: relative_time(last_pass),
        calm: meta.calm,
    };
    EndpointProps { row, detail }
}

// ---------------------------------------------------------------------------
// The card of a cut
// ---------------------------------------------------------------------------

/// A step of a chain as it is drawn, the severed one marked.
pub open spec fn drawn_hop(s: PathStep, cut: Option<Seq<char>>) -> Drawn {
    let severed = cut == Some(s.signature_text());
    Drawn {
        from: s.from@,
        to: s.to@,
        to_label: None,
        edge_label: if severed {
            "\u{2702} NetworkPolicy cut"@
        } else {
            relation_text(s.relation@)
        },
        cut: severed,
    }
}

/// `r` is the card of the finding's cut.
pub open spec fn shows_remediation(f: EndpointFinding, armed: bool, r: RemediationProps) -> bool {
    let one = seq![&f];
    let posture = Posture::of_words(text::opt_text(f.verdict));
    &&& r.posture == posture
    &&& r.verdict == f.verdict
    &&& shows_rail(f.entry@, one, f.evidence, r.rail)
    &&& shows_evidence(f.evidence, r.evidence)
    &&& r.killchain.foothold == f.foothold
    &&& r.killchain.technique == f.technique
    &&& r.killchain.technique_name == f.technique_name
    &&& r.graph.entry@ == f.entry@
    &&& r.graph.entry_short@ == short_text(f.entry@)
    &&& edges_shown(r.graph.edges@) == f.path@.map_values(
        |s: PathStep| drawn_hop(s, text::opt_text(f.cut)),
    )
    &&& r.graph.aria@ == aria_text(f.entry@, one)
    &&& r.graph.objectives == 1
    &&& r.graph.hops == f.path@.len()
    &&& !r.graph.broad
    &&& r.graph.fanouts@.len() == 0
    &&& text::opt_text(r.todo) == advice_text(f, posture)
    &&& r.armed == armed
}

fn hop_edge(s: &PathStep, cut: &Option<String>) -> (r: GraphEdge)
    ensures
        r@ == drawn_hop(*s, text::opt_text(*cut)),
{
    let signature = s.signature();
    let is_cut = match cut {
        Some(c) => text::same(c.as_str(), signature.as_str()),
        None => false,
    };
    GraphEdge {
        from: s.from.clone(),
        to: s.to.clone(),
        to_label: None,
        edge_label: if is_cut {
            "\u{2702} NetworkPolicy cut".to_string()
        } else {
            humanize_relation(s.relation.as_str())
        },
        cut: is_cut,
    }
}

/// The card of a finding's cut: its one chain, the severed edge marked.
pub fn remediation_props(f: &EndpointFinding, armed: bool) -> (r: RemediationProps)
    ensures
        shows_remediation(*f, armed, r),
{
    let ghost d = |s: PathStep| drawn_hop(s, text::opt_text(f.cut));
    let one: Vec<&EndpointFinding> = vec![f];
    assert(one@ =~= seq![f]);
    let mut edges: Vec<GraphEdge> = Vec::new();
    let mut i: usize = 0;
    while i < f.path.len()
        invariant
            i <= f.path.len(),
            edges@.len() == i,
            forall|k: int|
                0 <= k < i ==> (#[trigger] edges@[k])@ == drawn_hop(
                    f.path@[k],
                    text::opt_text(f.cut),
                ),
        decreases f.path.len() - i,
    {
        edges.push(hop_edge(&f.path[i], &f.cut));
        i += 1;
    }
    assert(edges_shown(edges@) =~= f.path@.map_values(d));
    let graph = GraphProps {
        entry: f.entry.clone(),
        entry_short: NodeKey::short_of(f.entry.as_str()).to_string(),
        edges,
        aria: path_aria_label(f.entry.as_str(), one.as_slice()),
        objectives: 1,
        hops: f.path.len(),
        broad: false,
        fanouts: Vec::new(),
    };
    let words = match &f.verdict {
        Some(v) => Some(v.as_str()),
        None => None,
    };
    let posture = Posture::of(words);
    RemediationProps {
        posture,
        verdict: f.verdict.clone(),
        rail: rail_facts(f.entry.as_str(), one.as_slice(), &f.evidence),
        evidence: evidence_props(&f.evidence),
        killchain: KillchainProps {
            foothold: f.foothold,
            technique: f.technique.clone(),
            technique_name: f.technique_name.clone(),
        },
        graph,
        todo: what_to_do(f, posture),
        armed,
    }
}

// ---------------------------------------------------------------------------
// Laws
// ---------------------------------------------------------------------------

/// A broad reach alone is no break-in: it reads as calm exactly where the model cleared it, and
/// never while the entry awaits judgement or is a breach.
pub proof fn broad_reach_is_calm_only_when_cleared(fs: Seq<&EndpointFinding>)
    ensures
        lead_of(reaches_broadly(fs), posture_of(fs)) == BroadLead::Calm <==> reaches_broadly(fs)
            && posture_of(fs) == Posture::Safe,
{
}

/// A row that is no breach gives no advice, but for the one of an entry without findings.
pub proof fn no_breach_no_advice(entry: Seq<char>, fs: Seq<&EndpointFinding>, d: DetailProps)
    requires
        shows_detail(entry, fs, d),
        fs.len() > 0,
    ensures
        d.todo is Some <==> d.posture == Posture::Breach,
{
}

proof fn lemma_members_len(v: Seq<PathStep>, k: Key)
    requires
        groups(v).contains(k),
    ensures
        members(v, k).len() > 0,
{
    let f = |s: PathStep| group_of(s);
    let p = |s: PathStep| group_of(s) == k;
    crate::view_model::triples::lemma_ordered(v.map_values(f));
    assert(v.map_values(f).contains(k));
    let i = v.map_values(f).index_of(k);
    assert(group_of(v[i]) == k);
    v.lemma_filter_contains(p, i);
    let w = v.filter(p);
    assert(w.contains(v[i]));
}

/// Every group that is drawn has an objective, and each group is drawn once.
pub proof fn groups_are_not_empty(v: Seq<PathStep>)
    ensures
        groups(v).no_duplicates(),
        forall|i: int| 0 <= i < groups(v).len() ==> members(v, #[trigger] groups(v)[i]).len() > 0,
{
    crate::view_model::triples::lemma_ordered(v.map_values(|s: PathStep| group_of(s)));
    assert forall|i: int| 0 <= i < groups(v).len() implies members(v, #[trigger] groups(v)[i]).len()
        > 0 by {
        assert(groups(v).contains(groups(v)[i]));
        lemma_members_len(v, groups(v)[i]);
    }
}

} // verus!
