//! What an entry's row, detail and evidence say, in terms of its findings.

use crate::graph::{short_text, Behavior};
use crate::seqs::{lemma_filter_member, lemma_filter_parts};
use crate::state::{CveEvidence, Delta, EntryEvidence, Finding, RecencyInfo, Verdict};
use crate::text;
use crate::view_model::entry::{
    action_text, breadth, clause_text, lead_at, lead_of, loudest, objectives,
    louder, recency_of, shows_detail, shows_row, weight, DetailProps, Posture, RowProps,
};
use crate::view_model::evidence::{
    shows_blocks, shows_strip, top_epss, top_score, EvidenceBlocks, GlyphStrip,
};
use crate::view_model::hops::shows_step;
use crate::view_model::posture::opt_age_text;
use vstd::prelude::*;

verus! {

/// The model affirms a breach on this finding.
pub open spec fn is_affirmed(f: Finding) -> bool {
    f.verdict matches Some(v) && (v is Confirmed || v is Exploitable)
}

/// An entry is a breach exactly where the model affirms one on some finding of it, and is safe where
/// it affirms none and refutes one; else it awaits judgement.
pub proof fn posture_is_the_worst_verdict(fs: Seq<&Finding>)
    ensures
        loudest(fs) == Posture::Breach <==> exists|i: int|
            0 <= i < fs.len() && is_affirmed(*#[trigger] fs[i]),
        loudest(fs) == Posture::Awaiting <==> forall|i: int|
            0 <= i < fs.len() ==> (match (#[trigger] fs[i]).verdict {
                Some(v) => v is Uncertain,
                None => true,
            }),
    decreases fs.len(),
{
    if fs.len() > 0 {
        let d = fs.drop_last();
        let n = fs.len() - 1;
        posture_is_the_worst_verdict(d);
        if exists|i: int| 0 <= i < d.len() && is_affirmed(*#[trigger] d[i]) {
            let i = choose|i: int| 0 <= i < d.len() && is_affirmed(*#[trigger] d[i]);
            assert(fs[i] == d[i]);
        }
        if exists|i: int| 0 <= i < fs.len() && is_affirmed(*#[trigger] fs[i]) {
            let i = choose|i: int| 0 <= i < fs.len() && is_affirmed(*#[trigger] fs[i]);
            if i < n {
                assert(d[i] == fs[i]);
            }
        }
        assert(fs[n] == fs.last());
        if is_affirmed(*fs[n]) {
            assert(loudest(fs) == Posture::Breach);
        }
        if forall|i: int|
            0 <= i < d.len() ==> (match (#[trigger] d[i]).verdict {
                Some(v) => v is Uncertain,
                None => true,
            }) {
            assert forall|i: int| 0 <= i < n implies (match (#[trigger] fs[i]).verdict {
                Some(v) => v is Uncertain,
                None => true,
            }) by {
                assert(d[i] == fs[i]);
            }
        }
        if forall|i: int|
            0 <= i < fs.len() ==> (match (#[trigger] fs[i]).verdict {
                Some(v) => v is Uncertain,
                None => true,
            }) {
            assert forall|i: int| 0 <= i < d.len() implies (match (#[trigger] d[i]).verdict {
                Some(v) => v is Uncertain,
                None => true,
            }) by {
                assert(d[i] == fs[i]);
            }
        }
    }
}

proof fn lemma_lead(fs: Seq<&Finding>, n: int)
    requires
        1 <= n <= fs.len(),
    ensures
        0 <= lead_at(fs, n) < n,
        forall|j: int|
            0 <= j < n ==> Posture::of((#[trigger] fs[j]).verdict).loudness() <= Posture::of(
                fs[lead_at(fs, n)].verdict,
            ).loudness(),
        forall|j: int|
            lead_at(fs, n) < j < n ==> Posture::of((#[trigger] fs[j]).verdict).loudness()
                < Posture::of(fs[lead_at(fs, n)].verdict).loudness(),
    decreases n,
{
    if n > 1 {
        lemma_lead(fs, n - 1);
    }
}

/// The finding that speaks for an entry is the last of the loudest ones.
pub proof fn last_of_the_loudest_speaks(fs: Seq<&Finding>, k: int)
    requires
        0 <= k < fs.len(),
        forall|j: int|
            0 <= j < k ==> Posture::of((#[trigger] fs[j]).verdict).loudness() <= Posture::of(
                fs[k].verdict,
            ).loudness(),
        forall|j: int|
            k < j < fs.len() ==> Posture::of((#[trigger] fs[j]).verdict).loudness() < Posture::of(
                fs[k].verdict,
            ).loudness(),
    ensures
        lead_of(fs) == *fs[k],
{
    let n = fs.len() as int;
    lemma_lead(fs, n);
    let l = lead_at(fs, n);
    if l < k {
        assert(Posture::of(fs[k].verdict).loudness() < Posture::of(fs[l].verdict).loudness());
        assert(Posture::of(fs[l].verdict).loudness() <= Posture::of(fs[k].verdict).loudness());
    } else if l > k {
        assert(Posture::of(fs[l].verdict).loudness() < Posture::of(fs[k].verdict).loudness());
    }
}

/// Verdicts by how loud they are: an affirmation above a refutation, that above what is undecided.
pub proof fn verdicts_by_loudness(why: String)
    ensures
        Posture::of(Some(Verdict::Confirmed)) == Posture::Breach,
        Posture::of(Some(Verdict::Exploitable(why))) == Posture::Breach,
        Posture::of(Some(Verdict::Refuted(why))) == Posture::Safe,
        Posture::of(Some(Verdict::Uncertain(why))) == Posture::Awaiting,
        Posture::of(None) == Posture::Awaiting,
        Posture::Breach.loudness() > Posture::Safe.loudness(),
        Posture::Safe.loudness() > Posture::Awaiting.loudness(),
{
}

/// The recency is at least as noteworthy as the other, if there is another.
pub open spec fn weighs_up(r: RecencyInfo, other: Option<RecencyInfo>) -> bool {
    other matches Some(o) ==> weight(r.delta) <= weight(o.delta)
}

/// The recency is more noteworthy than the other, if there is another.
pub open spec fn outweighs(r: RecencyInfo, other: Option<RecencyInfo>) -> bool {
    other matches Some(o) ==> weight(r.delta) < weight(o.delta)
}

/// The recency of an entry is that of one of its findings, the first of the most noteworthy ones:
/// what escalated before what is new, that before what de-escalated, what is back and what did not
/// change.
pub proof fn entry_shows_the_most_noteworthy(fs: Seq<&Finding>) -> (i: int)
    ensures
        weight(Delta::Escalated) < weight(Delta::New),
        weight(Delta::New) < weight(Delta::DeEscalated),
        weight(Delta::DeEscalated) < weight(Delta::Restored),
        weight(Delta::Restored) < weight(Delta::Unchanged),
        recency_of(fs) matches Some(r) ==> {
            &&& 0 <= i < fs.len()
            &&& fs[i].recency == Some(r)
            &&& forall|j: int| 0 <= j < i ==> outweighs(r, (#[trigger] fs[j]).recency)
            &&& forall|j: int| 0 <= j < fs.len() ==> weighs_up(r, (#[trigger] fs[j]).recency)
        },
        recency_of(fs) is None ==> forall|j: int|
            0 <= j < fs.len() ==> (#[trigger] fs[j]).recency is None,
    decreases fs.len(),
{
    if fs.len() == 0 {
        0
    } else {
        let d = fs.drop_last();
        let n = fs.len() - 1;
        let i = entry_shows_the_most_noteworthy(d);
        assert forall|j: int| 0 <= j < fs.len() implies #[trigger] fs[j] == (if j < n {
            d[j]
        } else {
            fs.last()
        }) by {}
        match (recency_of(d), fs.last().recency) {
            (Some(a), Some(b)) => if weight(b.delta) < weight(a.delta) {
                n
            } else {
                i
            },
            (None, b) => n,
            (a, None) => i,
        }
    }
}

proof fn lemma_objectives(fs: Seq<&Finding>, n: int, t: Seq<char>)
    requires
        0 <= n <= fs.len(),
    ensures
        objectives(fs, n).contains(t) <==> exists|i: int|
            0 <= i < n && (#[trigger] fs[i]).objective@ == t,
        objectives(fs, n).finite(),
    decreases n,
{
    if n > 0 {
        lemma_objectives(fs, n - 1, t);
        if objectives(fs, n - 1).contains(t) {
            let i = choose|i: int| 0 <= i < n - 1 && (#[trigger] fs[i]).objective@ == t;
            assert(fs[i].objective@ == t);
        }
        if fs[n - 1].objective@ == t {
            assert(objectives(fs, n).contains(t));
        }
    }
}

proof fn lemma_objectives_prefix(fs: Seq<&Finding>, f: &Finding, n: int)
    requires
        0 <= n <= fs.len(),
    ensures
        objectives(fs.push(f), n) == objectives(fs, n),
    decreases n,
{
    if n > 0 {
        lemma_objectives_prefix(fs, f, n - 1);
        assert(fs.push(f)[n - 1] == fs[n - 1]);
    }
}

/// An entry's reach counts distinct objectives: one more finding widens it by one exactly where its
/// objective is not reached yet.
pub proof fn reach_counts_distinct_objectives(fs: Seq<&Finding>, f: &Finding)
    ensures
        breadth(Seq::empty()) == 0,
        breadth(fs.push(f)) == breadth(fs) + (if exists|i: int|
            0 <= i < fs.len() && (#[trigger] fs[i]).objective@ == f.objective@ {
            0int
        } else {
            1int
        }),
{
    let n = fs.len() as int;
    lemma_objectives_prefix(fs, f, n);
    lemma_objectives(fs, n, f.objective@);
    let a = objectives(fs, n);
    assert(fs.push(f)[n] == f);
    if a.contains(f.objective@) {
        assert(a.insert(f.objective@) =~= a);
    }
}

/// A row reads off its entry's findings: the posture, the finding that speaks for it, whether
/// anything corroborates it.
pub proof fn row_reads_off_its_findings(entry: Seq<char>, fs: Seq<&Finding>, r: RowProps)
    requires
        fs.len() > 0,
        shows_row(entry, fs, r),
    ensures
        r.entry@ == short_text(entry),
        r.posture == Posture::Breach <==> exists|i: int|
            0 <= i < fs.len() && is_affirmed(*#[trigger] fs[i]),
        r.delta is Some <==> exists|i: int| 0 <= i < fs.len() && (#[trigger] fs[i]).recency is Some,
        r.glyphs.secret <==> lead_of(fs).evidence.exposed_secrets@.len() > 0,
        (exists|i: int| 0 <= i < fs.len() && (#[trigger] fs[i]).corroborated) ==> r.glyphs.runtime,
{
    posture_is_the_worst_verdict(fs);
    let i = entry_shows_the_most_noteworthy(fs);
    match recency_of(fs) {
        Some(r) => {
            assert(fs[i].recency is Some);
        },
        None => {},
    }
}

/// A detail reads off its entry's findings: the model's words as they are, what stands behind the
/// entry, how many objectives it reaches, and the prompt as it was given.
pub proof fn detail_reads_off_its_findings(
    entry: Seq<char>,
    fs: Seq<&Finding>,
    raw_prompt: Option<String>,
    d: DetailProps,
)
    requires
        fs.len() > 0,
        shows_detail(entry, fs, raw_prompt, d),
    ensures
        d.raw_prompt == raw_prompt,
        d.rail.proven,
        d.rail.corroborated <==> exists|i: int| 0 <= i < fs.len() && (#[trigger] fs[i]).corroborated,
        d.rail.internet_facing <==> exists|i: int| 0 <= i < fs.len() && (#[trigger] fs[i]).foothold,
        d.rail.objectives == breadth(fs),
        lead_of(fs).verdict matches Some(v) ==> d.verdict@ == v.summary_text(),
        d.what_to_do is Some <==> exists|i: int| 0 <= i < fs.len() && is_affirmed(*#[trigger] fs[i]),
{
    posture_is_the_worst_verdict(fs);
}

/// A clause is the first line of the model's words, without the blanks around it.
pub proof fn clause_is_the_first_line(f: Finding, line: Seq<char>, rest: Seq<char>)
    requires
        f.verdict is Some,
        f.verdict->0.summary_text() == line + "\n"@ + rest,
        !line.contains('\n'),
    ensures
        clause_text(f) == text::trim(line),
{
    reveal_strlit("\n");
    assert("\n"@.len() == 1 && "\n"@[0] == '\n');
    crate::text_laws::comes_apart_in_front(line, "\n"@, rest, 0);
}

// ---------------------------------------------------------------------------
// Evidence
// ---------------------------------------------------------------------------

/// The score that a row shows is the highest one, by the number that it holds, and is that of one of
/// the CVEs; among equals the last. It shows none exactly where no CVE has one.
pub proof fn highest_score_shows(cves: Seq<CveEvidence>, n: int) -> (i: int)
    requires
        0 <= n <= cves.len(),
    ensures
        top_score(cves, n) is None <==> forall|j: int|
            0 <= j < n ==> (#[trigger] cves[j]).score is None,
        top_score(cves, n) matches Some(p) ==> {
            &&& 0 <= i < n
            &&& cves[i].score matches Some(s) && s@ == p.0
            &&& cves[i].score_rank == p.1
            &&& forall|j: int|
                0 <= j < n && (#[trigger] cves[j]).score is Some ==> cves[j].score_rank <= p.1
            &&& forall|j: int|
                i < j < n && (#[trigger] cves[j]).score is Some ==> cves[j].score_rank < p.1
        },
    decreases n,
{
    if n == 0 {
        0
    } else {
        let i = highest_score_shows(cves, n - 1);
        match (cves[n - 1].score, top_score(cves, n - 1)) {
            (Some(s), Some(best)) => if cves[n - 1].score_rank >= best.1 {
                n - 1
            } else {
                i
            },
            (Some(s), None) => n - 1,
            (None, _) => i,
        }
    }
}

/// The exploit prediction that a row shows is the highest one, and is that of one of the CVEs; among
/// equals the last.
pub proof fn highest_prediction_shows(cves: Seq<CveEvidence>, n: int) -> (i: int)
    requires
        0 <= n <= cves.len(),
    ensures
        top_epss(cves, n) is None <==> forall|j: int|
            0 <= j < n ==> (#[trigger] cves[j]).epss is None,
        top_epss(cves, n) matches Some(p) ==> {
            &&& 0 <= i < n
            &&& cves[i].epss matches Some(s) && s@ == p.0
            &&& cves[i].epss_rank == p.1
            &&& forall|j: int|
                0 <= j < n && (#[trigger] cves[j]).epss is Some ==> cves[j].epss_rank <= p.1
            &&& forall|j: int|
                i < j < n && (#[trigger] cves[j]).epss is Some ==> cves[j].epss_rank < p.1
        },
    decreases n,
{
    if n == 0 {
        0
    } else {
        let i = highest_prediction_shows(cves, n - 1);
        match (cves[n - 1].epss, top_epss(cves, n - 1)) {
            (Some(s), Some(best)) => if cves[n - 1].epss_rank >= best.1 {
                n - 1
            } else {
                i
            },
            (Some(s), None) => n - 1,
            (None, _) => i,
        }
    }
}

/// The glyphs say which evidence there is: the highest score and prediction under their labels, and
/// a mark for an exploited CVE, an exposed secret and a live signal.
pub proof fn glyphs_say_which_evidence(ev: EntryEvidence, corroborated: bool, g: GlyphStrip, i: int, k: int)
    requires
        shows_strip(ev, corroborated, g),
        0 <= i < ev.cves@.len(),
        ev.cves@[i].score is Some,
        forall|j: int|
            0 <= j < ev.cves@.len() && j != i && (#[trigger] ev.cves@[j]).score is Some
                ==> ev.cves@[j].score_rank < ev.cves@[i].score_rank,
        0 <= k < ev.cves@.len(),
        ev.cves@[k].epss is Some,
        forall|j: int|
            0 <= j < ev.cves@.len() && j != k && (#[trigger] ev.cves@[j]).epss is Some
                ==> ev.cves@[j].epss_rank < ev.cves@[k].epss_rank,
    ensures
        g.cvss matches Some(s) && s@ == "cvss "@ + ev.cves@[i].score->0@,
        g.epss matches Some(s) && s@ == "epss "@ + ev.cves@[k].epss->0@,
        g.kev <==> exists|j: int| 0 <= j < ev.cves@.len() && (#[trigger] ev.cves@[j]).kev,
        g.secret <==> ev.exposed_secrets@.len() > 0,
        g.runtime <==> corroborated || exists|j: int|
            0 <= j < ev.runtime@.len() && (#[trigger] ev.runtime@[j]).alerts(),
{
    let n = ev.cves@.len() as int;
    let a = highest_score_shows(ev.cves@, n);
    let b = highest_prediction_shows(ev.cves@, n);
    assert(ev.cves@[i].score is Some);
    assert(ev.cves@[k].epss is Some);
    assert(a == i);
    assert(b == k);
}

/// Every fact shows under its own heading, in its place, and every behavior in its own words: among
/// the alerts where a sensor alerted, else as context.
pub proof fn blocks_show_every_fact(ev: EntryEvidence, b: EvidenceBlocks, i: int, x: Behavior)
    requires
        shows_blocks(ev, b),
    ensures
        b.cves@.len() == ev.cves@.len(),
        0 <= i < ev.cves@.len() ==> ({
            let (c, l) = (ev.cves@[i], b.cves@[i]);
            l.id == c.id && l.severity == c.severity && l.kev == c.kev && l.cvss == c.score && l.epss
                == c.epss && l.fix == c.fix && l.title == c.title
        }),
        b.exposed_secrets@.len() == ev.exposed_secrets@.len(),
        0 <= i < ev.exposed_secrets@.len() ==> b.exposed_secrets@[i].id == ev.exposed_secrets@[i].id
            && b.exposed_secrets@[i].severity == ev.exposed_secrets@[i].severity
            && b.exposed_secrets@[i].title == ev.exposed_secrets@[i].title
            && b.exposed_secrets@[i].category == ev.exposed_secrets@[i].category,
        b.misconfigs@.len() == ev.misconfigs@.len(),
        0 <= i < ev.misconfigs@.len() ==> b.misconfigs@[i].id == ev.misconfigs@[i].id,
        b.rbac@.len() == ev.rbac_findings@.len(),
        0 <= i < ev.rbac_findings@.len() ==> b.rbac@[i].id == ev.rbac_findings@[i].id,
        b.alerts@.len() + b.context@.len() == ev.runtime@.len(),
        ev.runtime@.contains(x) && x.signal is Alert ==> b.alerts@.contains(x.summary),
        ev.runtime@.contains(x) && !(x.signal is Alert) ==> b.context@.contains(x.summary),
{
    let yes = |x: Behavior| x.alerts();
    let no = |x: Behavior| !x.alerts();
    let run = ev.runtime@;
    lemma_filter_member(run, yes, x);
    lemma_filter_member(run, no, x);
    lemma_filter_parts(run, yes, no);
    if run.contains(x) {
        if x.alerts() {
            let k = run.filter(yes).index_of(x);
            assert(b.alerts@[k] == x.summary);
        } else {
            let k = run.filter(no).index_of(x);
            assert(b.context@[k] == x.summary);
        }
    }
}

/// The change of an entry shows as that of its most noteworthy finding, with its age, and what it
/// reaches by name where it is one thing, else by number.
pub proof fn row_words(entry: Seq<char>, fs: Seq<&Finding>, r: RowProps, k: int)
    requires
        fs.len() > 0,
        shows_row(entry, fs, r),
        0 <= k < fs.len(),
        fs[k].recency is Some,
        forall|j: int| 0 <= j < k ==> outweighs(fs[k].recency->0, (#[trigger] fs[j]).recency),
        forall|j: int| 0 <= j < fs.len() ==> weighs_up(fs[k].recency->0, (#[trigger] fs[j]).recency),
    ensures
        r.delta matches Some(c) && c.glyph@ == fs[k].recency->0.delta.glyph_text() && c.aria@
            == fs[k].recency->0.delta.words(opt_age_text(fs[k].recency->0.age_secs)),
        text::opt_text(r.age) == opt_age_text(fs[k].recency->0.age_secs),
        breadth(fs) == 1 ==> r.reaches@ == short_text(fs[0].objective@),
        breadth(fs) != 1 ==> r.reaches@ == text::decimal(breadth(fs)) + " targets"@,
        r.clause@ == clause_text(lead_of(fs)),
        r.detail_id@ == "detail-"@ + text::slug(entry),
{
    let i = entry_shows_the_most_noteworthy(fs);
    assert(fs[k].recency is Some);
    match recency_of(fs) {
        Some(x) => {
            assert(weighs_up(x, fs[k].recency));
            assert(weighs_up(fs[k].recency->0, fs[i].recency));
            if i < k {
                assert(outweighs(fs[k].recency->0, fs[i].recency));
            } else if k < i {
                assert(outweighs(x, fs[k].recency));
            }
        },
        None => {},
    }
}

/// A detail walks the path of the finding that speaks for the entry, and its advice is that
/// finding's.
pub proof fn detail_walks_the_path_of_its_lead(
    entry: Seq<char>,
    fs: Seq<&Finding>,
    raw_prompt: Option<String>,
    d: DetailProps,
    i: int,
)
    requires
        fs.len() > 0,
        shows_detail(entry, fs, raw_prompt, d),
        0 <= i < lead_of(fs).path@.len(),
    ensures
        d.hops.hops@.len() == lead_of(fs).path@.len(),
        d.hops.hops@[i].node@ == short_text(lead_of(fs).path@[i].to@),
        d.hops.entry@ == short_text(lead_of(fs).entry@),
        d.hops.internet_reachable == lead_of(fs).foothold,
        d.evidence.cves@.len() == lead_of(fs).evidence.cves@.len(),
        d.detail_id@ == "detail-"@ + text::slug(entry),
        lead_of(fs).verdict is None ==> d.verdict@
            == "not yet judged \u{2014} the model has not reached this entry this run"@,
{
    assert(shows_step(lead_of(fs), i, d.hops.hops@[i]));
}

/// What to do about a breach follows its disposition: a durable fix, a human, a review, or arming.
pub proof fn action_follows_the_disposition(f: Finding)
    ensures
        text::contains(f.disposition@, "durable-fix"@) ==> action_text(f, Posture::Breach) == Some(
            "open a PR to remove the grant/mount \u{2014} this path needs a durable fix"@,
        ),
        !text::contains(f.disposition@, "durable-fix"@) && text::contains(f.disposition@, "forbidden"@)
            ==> action_text(f, Posture::Breach) == Some(
            "needs a human \u{2014} the only cut is an irreversible escape-primitive removal"@,
        ),
        !text::contains(f.disposition@, "durable-fix"@) && !text::contains(
            f.disposition@,
            "forbidden"@,
        ) && !text::contains(f.disposition@, "no-cut"@) ==> action_text(f, Posture::Breach) == Some(
            "arm the network class to apply the reversible isolation automatically"@,
        ),
{
}

/// Of two postures the louder one stands, and it is one of the two.
pub proof fn louder_of_two_stands(a: Posture, b: Posture)
    ensures
        louder(a, b) == a || louder(a, b) == b,
        a == Posture::Breach || b == Posture::Breach <==> louder(a, b) == Posture::Breach,
        a == Posture::Awaiting && b == Posture::Awaiting <==> louder(a, b) == Posture::Awaiting,
{
}

} // verus!
