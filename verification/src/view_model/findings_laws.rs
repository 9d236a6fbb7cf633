//! What a finding's row shows, in terms of the finding.

use crate::graph::{kind_text, short_text, Behavior};
use crate::props::findings::{BehaviorProps, EvidenceProps, FindingProps, HopProps};
use crate::seqs::{lemma_filter_member, lemma_filter_push};
use crate::state::{Delta, EntryEvidence, Finding, Judgement, PathStep};
use crate::text;
use crate::view_model::alerts::{alarms_of, shown};
use crate::view_model::findings::{
    behavior_shown, glyph_text, has_edge, judgement_on, judgement_shown, paths_of, shows_evidence,
    shows_finding, shows_hop, shows_path,
};
use crate::view_model::ids::hash_text;
use vstd::prelude::*;

verus! {

proof fn lemma_judgement_on(judgements: Seq<Judgement>, entry: Seq<char>, i: int, k: int)
    requires
        0 <= i <= k < judgements.len(),
        judgements[k].entry@ == entry,
        forall|j: int| i <= j < k ==> (#[trigger] judgements[j]).entry@ != entry,
    ensures
        judgement_on(judgements, entry, i) == Some(judgements[k]),
    decreases k - i,
{
    if i < k {
        assert(judgements[i].entry@ != entry);
        lemma_judgement_on(judgements, entry, i + 1, k);
    }
}

proof fn lemma_no_judgement_on(judgements: Seq<Judgement>, entry: Seq<char>, i: int)
    requires
        0 <= i <= judgements.len(),
        forall|j: int| i <= j < judgements.len() ==> (#[trigger] judgements[j]).entry@ != entry,
    ensures
        judgement_on(judgements, entry, i) is None,
    decreases judgements.len() - i,
{
    if i < judgements.len() {
        assert(judgements[i].entry@ != entry);
        lemma_no_judgement_on(judgements, entry, i + 1);
    }
}

/// The newest judgement on an entry is the one that shows: the first of the list, whatever older
/// ones say.
pub proof fn newest_judgement_stands(judgements: Seq<Judgement>, entry: Seq<char>, k: int)
    requires
        0 <= k < judgements.len(),
        judgements[k].entry@ == entry,
        forall|j: int| 0 <= j < k ==> (#[trigger] judgements[j]).entry@ != entry,
    ensures
        ({
            let p = judgement_shown(judgement_on(judgements, entry, 0));
            &&& p.prompt == judgements[k].prompt
            &&& p.reply == judgements[k].reply
            &&& p.verdict == Some(judgements[k].verdict)
        }),
{
    lemma_judgement_on(judgements, entry, 0, k);
}

/// A finding's row carries the newest judgement on its entry.
pub proof fn row_carries_the_newest_judgement(
    f: Finding,
    judgements: Seq<Judgement>,
    blind: Set<Seq<char>>,
    p: FindingProps,
    k: int,
)
    requires
        shows_finding(f, judgements, blind, p),
        0 <= k < judgements.len(),
        judgements[k].entry@ == f.entry@,
        forall|j: int| 0 <= j < k ==> (#[trigger] judgements[j]).entry@ != f.entry@,
    ensures
        p.judgement.prompt == judgements[k].prompt,
        p.judgement.reply == judgements[k].reply,
        p.judgement.verdict == Some(judgements[k].verdict),
{
    newest_judgement_stands(judgements, f.entry@, k);
}

/// Without a judgement on its entry a finding's row shows none.
pub proof fn no_judgement_shows_none(
    f: Finding,
    judgements: Seq<Judgement>,
    blind: Set<Seq<char>>,
    p: FindingProps,
)
    requires
        shows_finding(f, judgements, blind, p),
        forall|j: int| 0 <= j < judgements.len() ==> (#[trigger] judgements[j]).entry@ != f.entry@,
    ensures
        p.judgement.prompt is None,
        p.judgement.reply is None,
        p.judgement.verdict is None,
{
    lemma_no_judgement_on(judgements, f.entry@, 0);
}

/// Every CVE and every scanner finding shows under its own heading, in its place, with its own
/// facts.
pub proof fn scanner_facts_show_in_place(ev: EntryEvidence, p: EvidenceProps, i: int)
    requires
        shows_evidence(ev, p),
    ensures
        p.cves@.len() == ev.cves@.len(),
        p.exposed_secrets@.len() == ev.exposed_secrets@.len(),
        p.misconfigs@.len() == ev.misconfigs@.len(),
        p.rbac_findings@.len() == ev.rbac_findings@.len(),
        0 <= i < ev.cves@.len() ==> ({
            let (c, s) = (ev.cves@[i], p.cves@[i]);
            &&& s.id == c.id && s.severity == c.severity && s.score == c.score && s.kev == c.kev
            &&& s.epss == c.epss && s.reachability == c.reachability && s.fix == c.fix
            &&& s.title == c.title
        }),
        0 <= i < ev.exposed_secrets@.len() ==> ({
            let (c, s) = (ev.exposed_secrets@[i], p.exposed_secrets@[i]);
            s.id == c.id && s.severity == c.severity && s.category == c.category && s.title == c.title
        }),
        0 <= i < ev.misconfigs@.len() ==> ({
            let (c, s) = (ev.misconfigs@[i], p.misconfigs@[i]);
            s.id == c.id && s.severity == c.severity && s.category == c.category && s.title == c.title
        }),
        0 <= i < ev.rbac_findings@.len() ==> ({
            let (c, s) = (ev.rbac_findings@[i], p.rbac_findings@[i]);
            s.id == c.id && s.severity == c.severity && s.category == c.category && s.title == c.title
        }),
{
}

/// A behavior shows once: among the corroborating where a sensor alerted, else as context. It keeps
/// its words, and only an alert is marked as corroborating.
pub proof fn behaviors_show_by_what_they_are(ev: EntryEvidence, p: EvidenceProps, b: Behavior)
    requires
        shows_evidence(ev, p),
        ev.runtime@.contains(b),
    ensures
        b.signal is Alert ==> p.corroborating@.contains(
            (BehaviorProps { variant: b.variant, summary: b.summary, corroborating: true }),
        ),
        !(b.signal is Alert) ==> p.context@.contains(
            (BehaviorProps { variant: b.variant, summary: b.summary, corroborating: false }),
        ),
        forall|i: int|
            0 <= i < p.corroborating@.len() ==> (#[trigger] p.corroborating@[i]).corroborating,
        forall|i: int| 0 <= i < p.context@.len() ==> !(#[trigger] p.context@[i]).corroborating,
{
    let yes = |b: Behavior| b.alerts();
    let no = |b: Behavior| !b.alerts();
    let f = |b: Behavior| behavior_shown(b);
    let run = ev.runtime@;
    lemma_filter_member(run, yes, b);
    lemma_filter_member(run, no, b);
    if b.alerts() {
        let k = run.filter(yes).index_of(b);
        assert(p.corroborating@[k] == behavior_shown(b));
    } else {
        let k = run.filter(no).index_of(b);
        assert(p.context@[k] == behavior_shown(b));
    }
    assert forall|i: int| 0 <= i < p.corroborating@.len() implies (
    #[trigger] p.corroborating@[i]).corroborating by {
        run.lemma_filter_pred(yes, i);
        assert(p.corroborating@[i] == behavior_shown(run.filter(yes)[i]));
    }
    assert forall|i: int| 0 <= i < p.context@.len() implies !(
    #[trigger] p.context@[i]).corroborating by {
        run.lemma_filter_pred(no, i);
        assert(p.context@[i] == behavior_shown(run.filter(no)[i]));
    }
}

proof fn lemma_split_len(s: Seq<Behavior>)
    ensures
        s.filter(|b: Behavior| b.alerts()).len() + s.filter(|b: Behavior| !b.alerts()).len()
            == s.len(),
    decreases s.len(),
{
    let yes = |b: Behavior| b.alerts();
    let no = |b: Behavior| !b.alerts();
    if s.len() == 0 {
        lemma_filter_push(s, yes, arbitrary());
        lemma_filter_push(s, no, arbitrary());
        assert(s =~= Seq::empty());
    } else {
        let d = s.drop_last();
        lemma_split_len(d);
        lemma_filter_push(d, yes, s.last());
        lemma_filter_push(d, no, s.last());
        assert(s =~= d.push(s.last()));
    }
}

/// No behavior is lost or counted twice, and the numbers of the summary are those of the lists.
pub proof fn summary_counts_what_shows(
    f: Finding,
    judgements: Seq<Judgement>,
    blind: Set<Seq<char>>,
    p: FindingProps,
)
    requires
        shows_finding(f, judgements, blind, p),
    ensures
        p.evidence.corroborating@.len() + p.evidence.context@.len() == f.evidence.runtime@.len(),
        p.evidence_summary.cve_count == p.evidence.cves@.len(),
        p.evidence_summary.runtime_alerts == p.evidence.corroborating@.len(),
        p.evidence_summary.exposed_secrets == p.evidence.exposed_secrets@.len(),
        p.evidence_summary.kev <==> exists|i: int|
            0 <= i < p.evidence.cves@.len() && (#[trigger] p.evidence.cves@[i]).kev,
{
    lemma_split_len(f.evidence.runtime@);
    let (ev, q) = (f.evidence, p.evidence);
    assert forall|i: int| 0 <= i < ev.cves@.len() implies (#[trigger] q.cves@[i]).kev
        == ev.cves@[i].kev by {}
    if p.evidence_summary.kev {
        let i = choose|i: int| 0 <= i < ev.cves@.len() && (#[trigger] ev.cves@[i]).kev;
        assert(q.cves@[i].kev);
    }
    if exists|i: int| 0 <= i < q.cves@.len() && (#[trigger] q.cves@[i]).kev {
        let i = choose|i: int| 0 <= i < q.cves@.len() && (#[trigger] q.cves@[i]).kev;
        assert(ev.cves@[i].kev);
    }
}

/// A hop runs in the direction of its step. It is the cut exactly where it is the edge that was
/// recorded as cut, and only the first hop of an internet foothold starts at the globe.
pub proof fn hops_run_along_the_path(
    path: Seq<PathStep>,
    cut: Option<Seq<char>>,
    foothold: bool,
    v: Seq<HopProps>,
    i: int,
)
    requires
        shows_path(path, cut, foothold, v),
        0 <= i < path.len(),
    ensures
        v.len() == path.len(),
        v[i].from@ == short_text(path[i].from@),
        v[i].relation@ == path[i].relation@,
        v[i].to@ == short_text(path[i].to@),
        v[i].is_cut <==> cut == Some(
            path[i].from@ + " -["@ + path[i].relation@ + "]-> "@ + path[i].to@,
        ),
        v[i].structural <==> path[i].relation@ == "runs-as"@ || path[i].relation@ == "runs-image"@
            || path[i].relation@ == "scheduled-on"@,
        !v[i].shared,
        i == 0 && foothold ==> v[i].from_glyph@ == "\u{1f310}"@,
        i > 0 || !foothold ==> v[i].from_glyph@ == glyph_text(path[i].from@),
        v[i].to_glyph@ == glyph_text(path[i].to@),
{
    assert(shows_hop(path[i], i == 0, cut, foothold, false, v[i]));
}

/// All proven paths show, each in its place and in its direction; without any, the representative
/// alone. An edge is marked shared exactly where there are several paths and each of them holds it.
pub proof fn proven_paths_show_in_place(
    f: Finding,
    judgements: Seq<Judgement>,
    blind: Set<Seq<char>>,
    p: FindingProps,
    q: int,
    i: int,
)
    requires
        shows_finding(f, judgements, blind, p),
    ensures
        f.paths@.len() > 0 ==> p.paths@.len() == f.paths@.len(),
        f.paths@.len() == 0 ==> p.paths@.len() == 1 && p.paths@[0]@.len() == f.path@.len(),
        0 <= q < f.paths@.len() && 0 <= i < f.paths@[q]@.len() ==> ({
            let step = f.paths@[q]@[i];
            let hop = p.paths@[q]@[i];
            &&& p.paths@[q]@.len() == f.paths@[q]@.len()
            &&& hop.from@ == short_text(step.from@)
            &&& hop.to@ == short_text(step.to@)
            &&& hop.relation@ == step.relation@
            &&& hop.shared <==> f.paths@.len() >= 2 && forall|o: int|
                0 <= o < f.paths@.len() ==> has_edge(
                    (#[trigger] f.paths@[o])@,
                    step.signature_text(),
                )
        }),
        f.paths@.len() == 0 && 0 <= i < f.path@.len() ==> ({
            let hop = p.paths@[0]@[i];
            hop.from@ == short_text(f.path@[i].from@) && hop.to@ == short_text(f.path@[i].to@)
                && !hop.shared
        }),
{
    let all = paths_of(f.paths@, f.path@);
    if 0 <= q < f.paths@.len() && 0 <= i < f.paths@[q]@.len() {
        assert(all[q] == f.paths@[q]@);
        assert(p.paths@[q]@.len() == all[q].len());
        let step = f.paths@[q]@[i];
        let hop = p.paths@[q]@[i];
        assert(hop.from@ == short_text(step.from@));
        if hop.shared {
            assert forall|o: int| 0 <= o < f.paths@.len() implies has_edge(
                (#[trigger] f.paths@[o])@,
                step.signature_text(),
            ) by {
                assert(all[o] == f.paths@[o]@);
            }
        }
        if f.paths@.len() >= 2 && forall|o: int|
            0 <= o < f.paths@.len() ==> has_edge((#[trigger] f.paths@[o])@, step.signature_text()) {
            assert forall|o: int| 0 <= o < all.len() implies has_edge(
                #[trigger] all[o],
                step.signature_text(),
            ) by {
                assert(all[o] == f.paths@[o]@);
            }
        }
    }
    if f.paths@.len() == 0 {
        assert(all[0] == f.path@);
        assert(p.paths@[0]@.len() == all[0].len());
        if 0 <= i < f.path@.len() {
            let hop = p.paths@[0]@[i];
            assert(hop.from@ == short_text(f.path@[i].from@));
        }
    }
}

/// A row shows its own finding's facts: where it starts and ends, whether that is a foothold, what
/// was decided and what would be cut.
pub proof fn row_shows_its_own_finding(
    f: Finding,
    judgements: Seq<Judgement>,
    blind: Set<Seq<char>>,
    p: FindingProps,
)
    requires
        shows_finding(f, judgements, blind, p),
    ensures
        p.entry@ == short_text(f.entry@),
        p.objective@ == short_text(f.objective@),
        p.foothold == f.foothold,
        p.entry_glyph@ == (if f.foothold {
            "\u{1f310}"@
        } else {
            glyph_text(f.entry@)
        }),
        p.disposition@ == f.disposition@,
        p.paths_truncated == f.paths_truncated,
        p.cut == f.cut,
        p.fanout is None,
        p.replicas is None,
        p.verdict_summary is Some <==> f.verdict is Some,
{
}

/// A row warns of a blind node exactly where its finding sits on one and no live signal corroborates
/// it, and it names the node.
pub proof fn blind_nodes_are_named(
    f: Finding,
    judgements: Seq<Judgement>,
    blind: Set<Seq<char>>,
    p: FindingProps,
)
    requires
        shows_finding(f, judgements, blind, p),
    ensures
        p.blind_node_caveat is Some <==> !f.corroborated && (f.node matches Some(n)
            && blind.contains(n@)),
        p.blind_node_caveat matches Some(c) ==> ("runtime-blind on "@ + f.node->0@).is_prefix_of(c@),
{
    match p.blind_node_caveat {
        Some(c) => {
            let head = "runtime-blind on "@ + f.node->0@;
            assert(c@.take(head.len() as int) =~= head);
        },
        None => {},
    }
}

/// A row is found again by its entry: its id is made of the entry's letters and digits and of a hash
/// of the entry, whatever else the finding says. What changed shows as what it is, and every alarm
/// of the finding in its place.
pub proof fn row_is_found_by_its_entry(
    f: Finding,
    judgements: Seq<Judgement>,
    blind: Set<Seq<char>>,
    p: FindingProps,
    i: int,
)
    requires
        shows_finding(f, judgements, blind, p),
    ensures
        p.id@ == "f"@ + "-"@ + text::slug(f.entry@) + "-"@ + hash_text(f.entry@),
        p.delta is Escalated <==> (f.recency matches Some(r) && r.delta == Delta::Escalated),
        p.delta is New <==> (f.recency matches Some(r) && r.delta == Delta::New),
        p.delta is DeEscalated <==> (f.recency matches Some(r) && r.delta == Delta::DeEscalated),
        p.alerts@.len() == alarms_of(f).len(),
        0 <= i < p.alerts@.len() ==> p.alerts@[i].signal@ == alarms_of(f)[i].signal
            && p.alerts@[i].kind@ == alarms_of(f)[i].kind && p.alerts@[i].workload@
            == alarms_of(f)[i].workload && p.alerts@[i].recency@ == alarms_of(f)[i].recency,
{
    assert(shown(p.alerts@).len() == p.alerts@.len());
    if 0 <= i < p.alerts@.len() {
        assert(shown(p.alerts@)[i] == p.alerts@[i]@);
    }
}

/// Two findings on one entry have one id.
pub proof fn one_entry_one_id(
    f: Finding,
    g: Finding,
    judgements: Seq<Judgement>,
    blind: Set<Seq<char>>,
    p: FindingProps,
    q: FindingProps,
)
    requires
        f.entry@ == g.entry@,
        shows_finding(f, judgements, blind, p),
        shows_finding(g, judgements, blind, q),
    ensures
        p.id@ == q.id@,
        p.entry@ == q.entry@,
{
}

/// A glyph tells what a node is: two keys with one glyph are of one kind, or of kinds without a
/// glyph of their own.
pub proof fn glyphs_tell_what_a_node_is(key: Seq<char>)
    ensures
        kind_text(key) == "workload"@ ==> glyph_text(key) == "\u{25a2}"@,
        kind_text(key) == "host"@ ==> glyph_text(key) == "\u{1f5a5}"@,
        glyph_text(key) == "\u{1f511}"@ ==> kind_text(key) == "secret"@,
        glyph_text(key) == "\u{1f464}"@ ==> kind_text(key) == "identity"@,
        glyph_text(key) == "\u{2192}"@ ==> kind_text(key) == "endpoint"@,
        glyph_text(key) == "\u{25a3}"@ ==> kind_text(key) == "image"@,
        glyph_text(key) == "\u{26a1}"@ ==> kind_text(key) == "capability"@,
{
    reveal_strlit("\u{25a2}");
    reveal_strlit("\u{1f511}");
    reveal_strlit("\u{1f464}");
    reveal_strlit("\u{2192}");
    reveal_strlit("\u{25a3}");
    reveal_strlit("\u{1f5a5}");
    reveal_strlit("\u{26a1}");
    reveal_strlit("\u{2022}");
    reveal_strlit("workload");
    reveal_strlit("secret");
    reveal_strlit("identity");
    reveal_strlit("endpoint");
    reveal_strlit("image");
    reveal_strlit("host");
    assert("workload"@[0] == 'w' && "secret"@[0] == 's' && "identity"@[0] == 'i' && "endpoint"@[0]
        == 'e' && "image"@[0] == 'i' && "host"@[0] == 'h');
    assert("\u{25a2}"@[0] == '\u{25a2}' && "\u{1f511}"@[0] == '\u{1f511}' && "\u{1f464}"@[0]
        == '\u{1f464}' && "\u{2192}"@[0] == '\u{2192}' && "\u{25a3}"@[0] == '\u{25a3}'
        && "\u{1f5a5}"@[0] == '\u{1f5a5}' && "\u{26a1}"@[0] == '\u{26a1}' && "\u{2022}"@[0]
        == '\u{2022}');
}

} // verus!
