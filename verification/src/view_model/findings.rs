//! The rows of the Findings view: each breach-relevant finding with its posture, evidence and
//! proven paths, replicas and fan-outs folded, the most urgent first.

use crate::graph::{kind_text, short_text, Behavior, NodeKey, Relation};
use crate::props::findings::{
    BehaviorProps, CveProps, EvidenceProps, EvidenceSummary, FindingProps, HopProps, JudgementProps,
    ScanProps,
};
use crate::state::{CveEvidence, EntryEvidence, Finding, FindingEvidence, Judgement, PathStep};
use crate::text;
use crate::text_set::TextSet;
use crate::view_model::alerts::{alarming_signals_of, alarms_of, shown};
use crate::view_model::ids;
use crate::view_model::posture::{
    delta_of, live_tag_for, live_tag_of, posture_for, posture_of, shows_delta,
};
use vstd::prelude::*;
use vstd::string::*;

verus! {

// ---------------------------------------------------------------------------
// Glyphs
// ---------------------------------------------------------------------------

/// The glyph of a node's kind.
pub open spec fn glyph_text(key: Seq<char>) -> Seq<char> {
    let kind = kind_text(key);
    if kind == "workload"@ {
        "\u{25a2}"@
    } else if kind == "secret"@ {
        "\u{1f511}"@
    } else if kind == "identity"@ {
        "\u{1f464}"@
    } else if kind == "endpoint"@ {
        "\u{2192}"@
    } else if kind == "image"@ {
        "\u{25a3}"@
    } else if kind == "host"@ {
        "\u{1f5a5}"@
    } else if kind == "capability"@ {
        "\u{26a1}"@
    } else {
        "\u{2022}"@
    }
}

/// The glyph of an entry: the globe for an internet foothold, else its kind.
pub open spec fn entry_glyph_text(key: Seq<char>, foothold: bool) -> Seq<char> {
    if foothold {
        "\u{1f310}"@
    } else {
        glyph_text(key)
    }
}

/// The glyph of a node's kind.
pub fn node_kind_glyph(key: &str) -> (r: &'static str)
    ensures
        r@ == glyph_text(key@),
{
    let kind = NodeKey::kind_of(key);
    if text::same(kind, "workload") {
        "\u{25a2}"
    } else if text::same(kind, "secret") {
        "\u{1f511}"
    } else if text::same(kind, "identity") {
        "\u{1f464}"
    } else if text::same(kind, "endpoint") {
        "\u{2192}"
    } else if text::same(kind, "image") {
        "\u{25a3}"
    } else if text::same(kind, "host") {
        "\u{1f5a5}"
    } else if text::same(kind, "capability") {
        "\u{26a1}"
    } else {
        "\u{2022}"
    }
}

/// The glyph of an entry.
pub fn entry_glyph(key: &str, foothold: bool) -> (r: String)
    ensures
        r@ == entry_glyph_text(key@, foothold),
{
    if foothold {
        return "\u{1f310}".to_string();
    }
    node_kind_glyph(key).to_string()
}

// ---------------------------------------------------------------------------
// Evidence
// ---------------------------------------------------------------------------

/// The CVE as it shows.
pub open spec fn cve_shown(c: CveEvidence) -> CveProps {
    CveProps {
        id: c.id,
        severity: c.severity,
        score: c.score,
        kev: c.kev,
        epss: c.epss,
        reachability: c.reachability,
        fix: c.fix,
        title: c.title,
    }
}

/// The scanner finding as it shows.
pub open spec fn scan_shown(f: FindingEvidence) -> ScanProps {
    ScanProps { id: f.id, severity: f.severity, category: f.category, title: f.title }
}

/// The behavior as it shows.
pub open spec fn behavior_shown(b: Behavior) -> BehaviorProps {
    BehaviorProps { variant: b.variant, summary: b.summary, corroborating: b.alerts() }
}

/// `p` shows the evidence: the alerts corroborate, every other behavior is context.
pub open spec fn shows_evidence(ev: EntryEvidence, p: EvidenceProps) -> bool {
    &&& p.cves@ == ev.cves@.map_values(|c: CveEvidence| cve_shown(c))
    &&& p.corroborating@ == ev.runtime@.filter(|b: Behavior| b.alerts()).map_values(
        |b: Behavior| behavior_shown(b),
    )
    &&& p.context@ == ev.runtime@.filter(|b: Behavior| !b.alerts()).map_values(
        |b: Behavior| behavior_shown(b),
    )
    &&& p.exposed_secrets@ == ev.exposed_secrets@.map_values(|f: FindingEvidence| scan_shown(f))
    &&& p.misconfigs@ == ev.misconfigs@.map_values(|f: FindingEvidence| scan_shown(f))
    &&& p.rbac_findings@ == ev.rbac_findings@.map_values(|f: FindingEvidence| scan_shown(f))
}

/// The evidence in numbers.
pub open spec fn summary_of(ev: EntryEvidence, s: EvidenceSummary) -> bool {
    &&& s.cve_count == ev.cves@.len()
    &&& s.kev == exists|i: int| 0 <= i < ev.cves@.len() && (#[trigger] ev.cves@[i]).kev
    &&& s.runtime_alerts == ev.runtime@.filter(|b: Behavior| b.alerts()).len()
    &&& s.exposed_secrets == ev.exposed_secrets@.len()
}

fn cve_props(c: &CveEvidence) -> (r: CveProps)
    ensures
        r == cve_shown(*c),
{
    CveProps {
        id: c.id.clone(),
        severity: c.severity.clone(),
        score: c.score.clone(),
        kev: c.kev,
        epss: c.epss.clone(),
        reachability: c.reachability.clone(),
        fix: c.fix.clone(),
        title: c.title.clone(),
    }
}

fn scan_props(f: &FindingEvidence) -> (r: ScanProps)
    ensures
        r == scan_shown(*f),
{
    ScanProps {
        id: f.id.clone(),
        severity: f.severity.clone(),
        category: f.category.clone(),
        title: f.title.clone(),
    }
}

fn behavior_props(b: &Behavior) -> (r: BehaviorProps)
    ensures
        r == behavior_shown(*b),
{
    BehaviorProps {
        variant: b.variant.clone(),
        summary: b.summary.clone(),
        corroborating: b.is_alert(),
    }
}

fn all_cve_props(v: &Vec<CveEvidence>) -> (r: Vec<CveProps>)
    ensures
        r@ == v@.map_values(|c: CveEvidence| cve_shown(c)),
{
    let mut r: Vec<CveProps> = Vec::new();
    let mut i: usize = 0;
    while i < v.len()
        invariant
            i <= v.len(),
            r@.len() == i,
            forall|k: int| 0 <= k < i ==> #[trigger] r@[k] == cve_shown(v@[k]),
        decreases v.len() - i,
    {
        r.push(cve_props(&v[i]));
        i += 1;
    }
    assert(r@ =~= v@.map_values(|c: CveEvidence| cve_shown(c)));
    r
}

fn all_scan_props(v: &Vec<FindingEvidence>) -> (r: Vec<ScanProps>)
    ensures
        r@ == v@.map_values(|f: FindingEvidence| scan_shown(f)),
{
    let mut r: Vec<ScanProps> = Vec::new();
    let mut i: usize = 0;
    while i < v.len()
        invariant
            i <= v.len(),
            r@.len() == i,
            forall|k: int| 0 <= k < i ==> #[trigger] r@[k] == scan_shown(v@[k]),
        decreases v.len() - i,
    {
        r.push(scan_props(&v[i]));
        i += 1;
    }
    assert(r@ =~= v@.map_values(|f: FindingEvidence| scan_shown(f)));
    r
}

/// The behaviors that are alerts, or those that are not.
fn some_behavior_props(v: &Vec<Behavior>, alerts: bool) -> (r: Vec<BehaviorProps>)
    ensures
        r@ == v@.filter(|b: Behavior| b.alerts() == alerts).map_values(
            |b: Behavior| behavior_shown(b),
        ),
{
    let ghost p = |b: Behavior| b.alerts() == alerts;
    let ghost f = |b: Behavior| behavior_shown(b);
    let mut r: Vec<BehaviorProps> = Vec::new();
    let mut i: usize = 0;
    assert(r@ =~= v@.take(0).filter(p).map_values(f));
    while i < v.len()
        invariant
            i <= v.len(),
            p == |b: Behavior| b.alerts() == alerts,
            f == |b: Behavior| behavior_shown(b),
            r@ == v@.take(i as int).filter(p).map_values(f),
        decreases v.len() - i,
    {
        broadcast use vstd::seq::Seq::lemma_filter_push;

        let ghost so_far = v@.take(i as int).filter(p);
        assert(v@.take(i + 1) =~= v@.take(i as int).push(v@[i as int]));
        if v[i].is_alert() == alerts {
            r.push(behavior_props(&v[i]));
            assert(so_far.push(v@[i as int]).map_values(f) =~= so_far.map_values(f).push(
                f(v@[i as int]),
            ));
        }
        i += 1;
    }
    assert(v@.take(v@.len() as int) =~= v@);
    r
}

/// All the evidence on an entry.
pub fn evidence_props(ev: &EntryEvidence) -> (r: EvidenceProps)
    ensures
        shows_evidence(*ev, r),
{
    proof {
        assert((|b: Behavior| b.alerts() == true) =~= (|b: Behavior| b.alerts()));
        assert((|b: Behavior| b.alerts() == false) =~= (|b: Behavior| !b.alerts()));
    }
    EvidenceProps {
        cves: all_cve_props(&ev.cves),
        corroborating: some_behavior_props(&ev.runtime, true),
        context: some_behavior_props(&ev.runtime, false),
        exposed_secrets: all_scan_props(&ev.exposed_secrets),
        misconfigs: all_scan_props(&ev.misconfigs),
        rbac_findings: all_scan_props(&ev.rbac_findings),
    }
}

/// The evidence in numbers.
pub fn evidence_summary(ev: &EntryEvidence) -> (r: EvidenceSummary)
    ensures
        summary_of(*ev, r),
{
    let ghost p = |b: Behavior| b.alerts();
    let mut kev = false;
    let mut i: usize = 0;
    while i < ev.cves.len()
        invariant
            i <= ev.cves.len(),
            kev == exists|k: int| 0 <= k < i && (#[trigger] ev.cves@[k]).kev,
        decreases ev.cves.len() - i,
    {
        if ev.cves[i].kev {
            assert(ev.cves@[i as int].kev);
            kev = true;
        }
        i += 1;
    }
    let mut alerts: usize = 0;
    let mut k: usize = 0;
    assert(ev.runtime@.take(0).filter(p) =~= Seq::empty());
    while k < ev.runtime.len()
        invariant
            k <= ev.runtime.len(),
            p == |b: Behavior| b.alerts(),
            alerts == ev.runtime@.take(k as int).filter(p).len(),
            alerts <= k,
        decreases ev.runtime.len() - k,
    {
        broadcast use vstd::seq::Seq::lemma_filter_push;

        assert(ev.runtime@.take(k + 1) =~= ev.runtime@.take(k as int).push(ev.runtime@[k as int]));
        if ev.runtime[k].is_alert() {
            alerts += 1;
        }
        k += 1;
    }
    assert(ev.runtime@.take(ev.runtime@.len() as int) =~= ev.runtime@);
    EvidenceSummary {
        cve_count: ev.cves.len(),
        kev,
        runtime_alerts: alerts,
        exposed_secrets: ev.exposed_secrets.len(),
    }
}

// ---------------------------------------------------------------------------
// Paths
// ---------------------------------------------------------------------------

/// A relation that only connects a workload to its identity, image or host.
pub open spec fn is_substrate(relation: Seq<char>) -> bool {
    relation == "runs-as"@ || relation == "runs-image"@ || relation == "scheduled-on"@
}

/// `h` shows the step. The first step of a foothold's path starts at the internet.
pub open spec fn shows_hop(
    step: PathStep,
    first: bool,
    cut: Option<Seq<char>>,
    foothold: bool,
    shared: bool,
    h: HopProps,
) -> bool {
    &&& h.from@ == short_text(step.from@)
    &&& h.from_glyph@ == entry_glyph_text(step.from@, first && foothold)
    &&& h.relation@ == step.relation@
    &&& h.to@ == short_text(step.to@)
    &&& h.to_glyph@ == glyph_text(step.to@)
    &&& h.structural == is_substrate(step.relation@)
    &&& h.is_cut == (cut == Some(step.signature_text()))
    &&& h.shared == shared
}

/// `v` shows the path, no edge of it shared.
pub open spec fn shows_path(
    path: Seq<PathStep>,
    cut: Option<Seq<char>>,
    foothold: bool,
    v: Seq<HopProps>,
) -> bool {
    &&& v.len() == path.len()
    &&& forall|i: int|
        0 <= i < v.len() ==> shows_hop(path[i], i == 0, cut, foothold, false, #[trigger] v[i])
}

/// The edge stands in the path.
pub open spec fn has_edge(path: Seq<PathStep>, signature: Seq<char>) -> bool {
    exists|i: int| 0 <= i < path.len() && (#[trigger] path[i]).signature_text() == signature
}

/// The edge stands in every one of several paths.
pub open spec fn is_shared(paths: Seq<Seq<PathStep>>, signature: Seq<char>) -> bool {
    paths.len() >= 2 && forall|p: int|
        0 <= p < paths.len() ==> has_edge(#[trigger] paths[p], signature)
}

/// The paths that show: all proven ones, or the representative where the complete set is empty.
pub open spec fn paths_of(paths: Seq<Vec<PathStep>>, representative: Seq<PathStep>) -> Seq<
    Seq<PathStep>,
> {
    if paths.len() == 0 {
        seq![representative]
    } else {
        paths.map_values(|p: Vec<PathStep>| p@)
    }
}

/// `v` shows the paths, with the edges marked that stand in every one of several.
pub open spec fn shows_paths(
    paths: Seq<Seq<PathStep>>,
    cut: Option<Seq<char>>,
    foothold: bool,
    v: Seq<Vec<HopProps>>,
) -> bool {
    &&& v.len() == paths.len()
    &&& forall|p: int|
        #![trigger v[p]]
        0 <= p < v.len() ==> {
            &&& v[p]@.len() == paths[p].len()
            &&& forall|i: int|
                0 <= i < paths[p].len() ==> shows_hop(
                    paths[p][i],
                    i == 0,
                    cut,
                    foothold,
                    is_shared(paths, paths[p][i].signature_text()),
                    #[trigger] v[p]@[i],
                )
        }
}

/// Whether a relation is substrate.
pub fn is_structural_relation(relation: &str) -> (r: bool)
    ensures
        r == is_substrate(relation@),
{
    text::same(relation, "runs-as") || text::same(relation, "runs-image") || text::same(
        relation,
        "scheduled-on",
    )
}

/// One hop of a path.
fn hop_props(step: &PathStep, first: bool, cut: &Option<String>, foothold: bool, shared: bool) -> (r: HopProps)
    ensures
        shows_hop(*step, first, text::opt_text(*cut), foothold, shared, r),
{
    let signature = step.signature();
    let is_cut = match cut {
        Some(c) => text::same(c.as_str(), signature.as_str()),
        None => false,
    };
    HopProps {
        from: NodeKey::short_of(step.from.as_str()).to_string(),
        from_glyph: entry_glyph(step.from.as_str(), first && foothold),
        relation: step.relation.clone(),
        to: NodeKey::short_of(step.to.as_str()).to_string(),
        to_glyph: node_kind_glyph(step.to.as_str()).to_string(),
        structural: is_structural_relation(step.relation.as_str()),
        is_cut,
        shared,
    }
}

/// The hops of a path.
pub fn path_props(path: &Vec<PathStep>, cut: &Option<String>, foothold: bool) -> (r: Vec<HopProps>)
    ensures
        shows_path(path@, text::opt_text(*cut), foothold, r@),
{
    let mut r: Vec<HopProps> = Vec::new();
    let mut i: usize = 0;
    while i < path.len()
        invariant
            i <= path.len(),
            r@.len() == i,
            forall|k: int|
                0 <= k < i ==> shows_hop(
                    path@[k],
                    k == 0,
                    text::opt_text(*cut),
                    foothold,
                    false,
                    #[trigger] r@[k],
                ),
        decreases path.len() - i,
    {
        r.push(hop_props(&path[i], i == 0, cut, foothold, false));
        i += 1;
    }
    r
}

/// Whether an edge stands in a path.
fn path_has(path: &Vec<PathStep>, signature: &str) -> (r: bool)
    ensures
        r == has_edge(path@, signature@),
{
    let mut i: usize = 0;
    while i < path.len()
        invariant
            i <= path.len(),
            forall|k: int| 0 <= k < i ==> (#[trigger] path@[k]).signature_text() != signature@,
        decreases path.len() - i,
    {
        let s = path[i].signature();
        if text::same(s.as_str(), signature) {
            assert(path@[i as int].signature_text() == signature@);
            return true;
        }
        i += 1;
    }
    false
}

/// Whether an edge stands in every one of several paths.
fn all_paths_have(paths: &Vec<Vec<PathStep>>, signature: &str) -> (r: bool)
    ensures
        r == is_shared(paths@.map_values(|p: Vec<PathStep>| p@), signature@),
{
    let ghost all = paths@.map_values(|p: Vec<PathStep>| p@);
    if paths.len() < 2 {
        return false;
    }
    let mut i: usize = 0;
    while i < paths.len()
        invariant
            i <= paths.len(),
            all == paths@.map_values(|p: Vec<PathStep>| p@),
            forall|p: int| 0 <= p < i ==> has_edge(#[trigger] all[p], signature@),
        decreases paths.len() - i,
    {
        assert(all[i as int] == paths@[i as int]@);
        if !path_has(&paths[i], signature) {
            assert(!has_edge(all[i as int], signature@));
            return false;
        }
        i += 1;
    }
    true
}

/// The hops of all proven paths, with the edges marked that stand in every one of several.
pub fn multi_path_props(
    paths: &Vec<Vec<PathStep>>,
    representative: &Vec<PathStep>,
    cut: &Option<String>,
    foothold: bool,
) -> (r: Vec<Vec<HopProps>>)
    ensures
        shows_paths(paths_of(paths@, representative@), text::opt_text(*cut), foothold, r@),
{
    let mut r: Vec<Vec<HopProps>> = Vec::new();
    if paths.len() == 0 {
        r.push(path_props(representative, cut, foothold));
        return r;
    }
    let ghost all = paths_of(paths@, representative@);
    let ghost c = text::opt_text(*cut);
    let mut p: usize = 0;
    while p < paths.len()
        invariant
            p <= paths.len(),
            paths.len() > 0,
            all == paths_of(paths@, representative@),
            c == text::opt_text(*cut),
            r@.len() == p,
            forall|q: int|
                #![trigger r@[q]]
                0 <= q < p ==> {
                    &&& r@[q]@.len() == all[q].len()
                    &&& forall|i: int|
                        0 <= i < all[q].len() ==> shows_hop(
                            all[q][i],
                            i == 0,
                            c,
                            foothold,
                            is_shared(all, all[q][i].signature_text()),
                            #[trigger] r@[q]@[i],
                        )
                },
        decreases paths.len() - p,
    {
        let path = &paths[p];
        assert(all[p as int] == path@);
        let mut hops: Vec<HopProps> = Vec::new();
        let mut i: usize = 0;
        while i < path.len()
            invariant
                i <= path.len(),
                paths.len() > 0,
                all == paths_of(paths@, representative@),
                c == text::opt_text(*cut),
                hops@.len() == i,
                forall|k: int|
                    0 <= k < i ==> shows_hop(
                        path@[k],
                        k == 0,
                        c,
                        foothold,
                        is_shared(all, path@[k].signature_text()),
                        #[trigger] hops@[k],
                    ),
            decreases path.len() - i,
        {
            let s = path[i].signature();
            let shared = all_paths_have(paths, s.as_str());
            hops.push(hop_props(&path[i], i == 0, cut, foothold, shared));
            i += 1;
        }
        r.push(hops);
        p += 1;
    }
    r
}

// ---------------------------------------------------------------------------
// One finding
// ---------------------------------------------------------------------------

/// The first judgement at or behind `i` on the entry.
pub open spec fn judgement_on(judgements: Seq<Judgement>, entry: Seq<char>, i: int) -> Option<Judgement>
    decreases judgements.len() - i,
{
    if i < 0 || i >= judgements.len() {
        None
    } else if judgements[i].entry@ == entry {
        Some(judgements[i])
    } else {
        judgement_on(judgements, entry, i + 1)
    }
}

/// The judgement as it shows: nothing where there is none.
pub open spec fn judgement_shown(j: Option<Judgement>) -> JudgementProps {
    match j {
        Some(j) => JudgementProps { prompt: j.prompt, reply: j.reply, verdict: Some(j.verdict) },
        None => JudgementProps { prompt: None, reply: None, verdict: None },
    }
}

/// The caveat on a finding that no live signal corroborates and that sits on a blind node.
pub open spec fn caveat_text(f: Finding, blind: Set<Seq<char>>) -> Option<Seq<char>> {
    match f.node {
        Some(node) => if !f.corroborated && blind.contains(node@) {
            Some(
                "runtime-blind on "@ + node@
                    + " \u{2014} no live sensor here, so absence of a signal is not evidence of safety"@,
            )
        } else {
            None
        },
        None => None,
    }
}

/// `p` shows the finding.
pub open spec fn shows_finding(
    f: Finding,
    judgements: Seq<Judgement>,
    blind: Set<Seq<char>>,
    p: FindingProps,
) -> bool {
    &&& p.id@ == ids::id_text("f"@, f.entry@)
    &&& p.posture == posture_for(f.verdict)
    &&& p.live_tag == live_tag_for(f.verdict)
    &&& shows_delta(f.recency, p.delta)
    &&& p.entry_glyph@ == entry_glyph_text(f.entry@, f.foothold)
    &&& p.entry@ == short_text(f.entry@)
    &&& p.foothold == f.foothold
    &&& p.objective@ == short_text(f.objective@)
    &&& p.fanout is None
    &&& p.replicas is None
    &&& summary_of(f.evidence, p.evidence_summary)
    &&& p.disposition@ == f.disposition@
    &&& text::opt_text(p.verdict_summary) == (match f.verdict {
        Some(v) => Some(v.summary_text()),
        None => None,
    })
    &&& shows_path(f.path@, text::opt_text(f.cut), f.foothold, p.path@)
    &&& shows_paths(paths_of(f.paths@, f.path@), text::opt_text(f.cut), f.foothold, p.paths@)
    &&& p.paths_truncated == f.paths_truncated
    &&& p.cut == f.cut
    &&& shows_evidence(f.evidence, p.evidence)
    &&& p.judgement == judgement_shown(judgement_on(judgements, f.entry@, 0))
    &&& text::opt_text(p.blind_node_caveat) == caveat_text(f, blind)
    &&& shown(p.alerts@) == alarms_of(f)
}

/// A stable id for a finding, by its entry.
pub fn finding_id(entry: &str) -> (r: String)
    ensures
        r@ == ids::id_text("f"@, entry@),
{
    ids::row_id("f", entry)
}

/// The newest judgement on an entry.
pub fn judgement_props(entry: &str, judgements: &[Judgement]) -> (r: JudgementProps)
    ensures
        r == judgement_shown(judgement_on(judgements@, entry@, 0)),
{
    let mut i: usize = 0;
    while i < judgements.len()
        invariant
            i <= judgements.len(),
            judgement_on(judgements@, entry@, 0) == judgement_on(judgements@, entry@, i as int),
        decreases judgements.len() - i,
    {
        let j = &judgements[i];
        if text::same(j.entry.as_str(), entry) {
            return JudgementProps {
                prompt: j.prompt.clone(),
                reply: j.reply.clone(),
                verdict: Some(j.verdict.clone()),
            };
        }
        i += 1;
    }
    JudgementProps::default()
}

/// The caveat on a finding that no live signal corroborates and that sits on a blind node.
pub fn blind_node_caveat(f: &Finding, blind_nodes: &TextSet) -> (r: Option<String>)
    ensures
        text::opt_text(r) == caveat_text(*f, blind_nodes@),
{
    if f.corroborated {
        return None;
    }
    match &f.node {
        Some(node) => if blind_nodes.contains(node.as_str()) {
            Some(
                "runtime-blind on ".to_string().concat(node.as_str()).concat(
                    " \u{2014} no live sensor here, so absence of a signal is not evidence of safety",
                ),
            )
        } else {
            None
        },
        None => None,
    }
}

/// The row of one finding.
pub fn finding_props(f: &Finding, judgements: &[Judgement], blind_nodes: &TextSet) -> (r: FindingProps)
    ensures
        shows_finding(*f, judgements@, blind_nodes@, r),
{
    let entry = f.entry.as_str();
    let verdict_summary = match &f.verdict {
        Some(v) => Some(v.summary()),
        None => None,
    };
    FindingProps {
        id: finding_id(entry),
        posture: posture_of(f.verdict.as_ref()),
        live_tag: live_tag_of(f.verdict.as_ref()),
        delta: delta_of(f.recency.as_ref()),
        entry_glyph: entry_glyph(entry, f.foothold),
        entry: NodeKey::short_of(entry).to_string(),
        foothold: f.foothold,
        objective: NodeKey::short_of(f.objective.as_str()).to_string(),
        fanout: None,
        replicas: None,
        evidence_summary: evidence_summary(&f.evidence),
        disposition: f.disposition.clone(),
        verdict_summary,
        path: path_props(&f.path, &f.cut, f.foothold),
        paths: multi_path_props(&f.paths, &f.path, &f.cut, f.foothold),
        paths_truncated: f.paths_truncated,
        cut: f.cut.clone(),
        evidence: evidence_props(&f.evidence),
        judgement: judgement_props(entry, judgements),
        blind_node_caveat: blind_node_caveat(f, blind_nodes),
        alerts: alarming_signals_of(f),
    }
}

// ---------------------------------------------------------------------------
// Laws
// ---------------------------------------------------------------------------

/// A finding always shows at least one path, and a lone path has no shared edge.
pub proof fn some_path_always_shows(
    f: Finding,
    judgements: Seq<Judgement>,
    blind: Set<Seq<char>>,
    p: FindingProps,
)
    requires
        shows_finding(f, judgements, blind, p),
    ensures
        p.paths@.len() > 0,
        p.paths@.len() == 1 ==> forall|i: int|
            0 <= i < p.paths@[0]@.len() ==> !(#[trigger] p.paths@[0]@[i]).shared,
{
}

/// An edge that is marked shared stands in every path that shows.
pub proof fn shared_edges_are_in_every_path(
    f: Finding,
    judgements: Seq<Judgement>,
    blind: Set<Seq<char>>,
    p: FindingProps,
    q: int,
    i: int,
    other: int,
)
    requires
        shows_finding(f, judgements, blind, p),
        0 <= q < p.paths@.len(),
        0 <= i < p.paths@[q]@.len(),
        p.paths@[q]@[i].shared,
        0 <= other < p.paths@.len(),
    ensures
        has_edge(
            paths_of(f.paths@, f.path@)[other],
            paths_of(f.paths@, f.path@)[q][i].signature_text(),
        ),
{
    let all = paths_of(f.paths@, f.path@);
    assert(p.paths@[q]@.len() == all[q].len());
    assert(is_shared(all, all[q][i].signature_text()));
}

/// What is known of blind nodes changes the caveat of a finding and nothing else that is shown.
pub proof fn blindness_never_touches_the_verdict(
    f: Finding,
    judgements: Seq<Judgement>,
    a: Set<Seq<char>>,
    b: Set<Seq<char>>,
    p: FindingProps,
    q: FindingProps,
)
    requires
        shows_finding(f, judgements, a, p),
        shows_finding(f, judgements, b, q),
    ensures
        p.posture == q.posture,
        p.live_tag == q.live_tag,
        p.disposition@ == q.disposition@,
        text::opt_text(p.verdict_summary) == text::opt_text(q.verdict_summary),
{
}

/// A relation is shown as substrate exactly where the graph holds it to be.
pub proof fn substrate_is_structural(r: Relation)
    ensures
        is_substrate(r.label_text()) == r.structural(),
{
    reveal_strlit("runs-as");
    reveal_strlit("runs-image");
    reveal_strlit("scheduled-on");
    reveal_strlit("reaches/");
    reveal_strlit("can-do/");
    reveal_strlit("can-read");
    reveal_strlit("escapes-to/");
    reveal_strlit("can-egress/");
    let l = r.label_text();
    assert("runs-as"@[0] == 'r' && "runs-as"@[1] == 'u');
    assert("runs-image"@[0] == 'r' && "runs-image"@[1] == 'u');
    assert("scheduled-on"@[0] == 's');
    match r {
        Relation::Reaches { port, protocol } => {
            assert("reaches/"@[1] == 'e' && "reaches/"@[0] == 'r');
            assert(l[1] == "reaches/"@[1] && l[0] == "reaches/"@[0]);
        },
        Relation::CanDo { verb, resource } => {
            assert("can-do/"@[0] == 'c');
            assert(l[0] == "can-do/"@[0]);
        },
        Relation::CanRead => {
            assert("can-read"@[0] == 'c');
        },
        Relation::EscapesTo { via } => {
            assert("escapes-to/"@[0] == 'e');
            assert(l[0] == "escapes-to/"@[0]);
        },
        Relation::CanEgress { via } => {
            assert("can-egress/"@[0] == 'c');
            assert(l[0] == "can-egress/"@[0]);
        },
        _ => {},
    }
}

} // verus!
