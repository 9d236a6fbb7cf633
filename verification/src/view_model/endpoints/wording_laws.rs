//! How the endpoint table words what it shows.

use crate::graph::short_text;
use crate::state::{CveEvidence, Delta, EndpointFinding, EntryEvidence, RecencyInfo};
use crate::text;
use crate::view_model::endpoints::advice::advice_text;
use crate::view_model::endpoints::attention::{row_id_text, shows_recency, RecencyCell};
use crate::view_model::endpoints::evidence::{
    exploited, is_fact, of_severity, shows_cve, shows_evidence, tallied, tally_of, tally_shown,
    CveRow,
};
use crate::view_model::endpoints::reach::{
    any_corroborated, aria_text, arrivals, breadth, clause_of, decisive, gist_text, main_kind,
    main_relation, targets,
};
use crate::view_model::endpoints::table::{
    arriving_steps, first_verdict, is_meta, posture_of, reaches_text, row_lever, shows_detail,
    shows_remediation, shows_row, BroadLead, DetailProps, RemediationProps, RowMeta, RowProps,
};
use crate::view_model::endpoints::words::{
    cve_text, flags, plural_text, reach_text, relation_text, Posture, Tier,
};
use crate::view_model::posture::{age_text, opt_age_text, relative_text};
use vstd::prelude::*;
use vstd::string::*;

verus! {

/// A relation of the graph reads in words that say what it gives: a mount, a power of the API with
/// its verb and resource, an escape with its way, egress, network reach.
pub proof fn relations_read_in_words(rest: Seq<char>)
    ensures
        relation_text("can-read"@) == "mounts (direct read)"@,
        relation_text("can-do/"@ + rest) == "RBAC "@ + text::replace(rest, '/', ' ') + " (API)"@,
        relation_text("escapes-to/"@ + rest) == "escapes via "@ + rest,
        relation_text("can-egress/"@ + rest) == "internet egress (exfil)"@,
        relation_text("reaches/"@ + rest) == "network reach"@,
        relation_text("runs-as"@) == "runs as"@,
        reach_text("can-read"@) == "a mounted secret"@,
        reach_text("can-do/"@ + rest) == "authorized RBAC"@,
        reach_text("escapes-to/"@ + rest) == "a "@ + rest + " escape"@,
        reach_text("reaches/"@ + rest) == "network reach"@,
{
    reveal_strlit("can-read");
    reveal_strlit("can-do/");
    reveal_strlit("escapes-to/");
    reveal_strlit("can-egress/");
    reveal_strlit("can-egress");
    reveal_strlit("reaches/");
    reveal_strlit("reaches");
    reveal_strlit("runs-as");
    let a = "can-do/"@ + rest;
    let b = "escapes-to/"@ + rest;
    let c = "can-egress/"@ + rest;
    let d = "reaches/"@ + rest;
    assert(a[4] == "can-do/"@[4] && a[0] == "can-do/"@[0]);
    assert(b[0] == "escapes-to/"@[0]);
    assert(c[4] == "can-egress/"@[4] && c[0] == "can-egress/"@[0]);
    assert(d[0] == "reaches/"@[0] && d[1] == "reaches/"@[1]);
    assert("can-read"@[4] == 'r' && "can-do/"@[4] == 'd' && "can-egress"@[4] == 'e'
        && "can-egress/"@[4] == 'e');
    assert("can-do/"@.is_prefix_of(a));
    assert(a.skip("can-do/"@.len() as int) =~= rest);
    assert("escapes-to/"@.is_prefix_of(b));
    assert(b.skip("escapes-to/"@.len() as int) =~= rest);
    assert(c.take(10) =~= "can-egress"@);
    assert("can-egress"@.is_prefix_of(c));
    assert(d.take(7) =~= "reaches"@);
    assert("reaches"@.is_prefix_of(d));
    assert("can-read"@[0] == 'c' && "escapes-to/"@[0] == 'e' && "reaches"@[0] == 'r' && "reaches/"@[0]
        == 'r' && "runs-as"@[0] == 'r' && "runs-as"@[1] == 'u' && "reaches"@[1] == 'e');
    lemma_no_prefix("can-do/"@, "can-read"@, 4);
    lemma_no_prefix("can-do/"@, b, 0);
    lemma_no_prefix("can-do/"@, c, 4);
    lemma_no_prefix("can-do/"@, d, 0);
    lemma_no_prefix("can-do/"@, "runs-as"@, 0);
    lemma_no_prefix("escapes-to/"@, c, 0);
    lemma_no_prefix("escapes-to/"@, d, 0);
    lemma_no_prefix("escapes-to/"@, "runs-as"@, 0);
    lemma_no_prefix("can-egress"@, d, 0);
    lemma_no_prefix("can-egress"@, "runs-as"@, 0);
    lemma_no_prefix("reaches"@, "runs-as"@, 1);
}

proof fn lemma_no_prefix(p: Seq<char>, s: Seq<char>, i: int)
    requires
        0 <= i < p.len(),
        i < s.len(),
        p[i] != s[i],
    ensures
        !p.is_prefix_of(s),
{
    if p.is_prefix_of(s) {
        assert(s.take(p.len() as int)[i] == s[i]);
    }
}

/// A kind is in the singular for one, and has its own plural where an `s` does not do.
pub proof fn plurals(kind: Seq<char>, n: int)
    requires
        n != 1,
    ensures
        plural_text(kind, 1) == kind,
        plural_text("capability"@, n) == "capabilities"@,
        plural_text("identity"@, n) == "identities"@,
        kind != "capability"@ && kind != "identity"@ ==> plural_text(kind, n) == kind + "s"@,
{
    reveal_strlit("capability");
    reveal_strlit("identity");
    assert("capability"@[0] == 'c' && "identity"@[0] == 'i');
}

/// What a row reaches reads as how many of the kind that is reached most broadly, and by what.
pub proof fn reach_reads_as_number_and_kind(fs: Seq<&EndpointFinding>, kind: Seq<char>)
    requires
        main_kind(arrivals(fs)) == Some(kind),
    ensures
        ({
            let n = breadth(arrivals(fs), kind);
            let head = "reaches "@ + text::decimal(n as nat) + " "@ + plural_text(kind, n);
            &&& reaches_text(fs) == head + (if main_relation(arrivals(fs), kind).len() == 0 {
                Seq::empty()
            } else {
                " via "@ + main_relation(arrivals(fs), kind)
            })
        }),
{
}

/// The gist of a row is the CVE that decides, else one that the model cites, else that a live signal
/// corroborates it, else what it reaches, else the model's first clause.
pub proof fn gist_in_order(verdict: Option<Seq<char>>, ev: EntryEvidence, fs: Seq<&EndpointFinding>)
    ensures
        decisive(ev.cves@, ev.cves@.len() as int) matches Some(c) ==> gist_text(verdict, ev, fs)
            == c.id@ + " ("@ + (if c.kev {
            "KEV"@
        } else {
            "critical CVE"@
        }) + ")"@,
        decisive(ev.cves@, ev.cves@.len() as int) is None ==> (verdict matches Some(v) ==> (cve_text(
            v,
        ) matches Some(id) ==> gist_text(verdict, ev, fs) == "cites "@ + id)),
        decisive(ev.cves@, ev.cves@.len() as int) is None && !(verdict matches Some(v) && cve_text(
            v,
        ) is Some) && (exists|i: int| 0 <= i < fs.len() && (#[trigger] fs[i]).corroborated)
            ==> gist_text(verdict, ev, fs) == "runtime-corroborated"@,
        decisive(ev.cves@, ev.cves@.len() as int) is None && verdict is None && !any_corroborated(fs)
            && !(exists|i: int| 0 <= i < ev.runtime@.len() && (#[trigger] ev.runtime@[i]).alerts())
            ==> gist_text(verdict, ev, fs) == (match clause_of(arrivals(fs)) {
            Some(c) => c,
            None => Seq::empty(),
        }),
{
}

/// The picture is announced with the entry and the number of its targets.
pub proof fn picture_is_announced(entry: Seq<char>, fs: Seq<&EndpointFinding>)
    ensures
        ("Attack-path graph: the internet reaches "@ + short_text(entry) + ", which reaches "@
            + text::decimal(targets(fs, fs.len() as int).len()) + " target"@).is_prefix_of(
            aria_text(entry, fs),
        ),
{
    let p = "Attack-path graph: the internet reaches "@ + short_text(entry) + ", which reaches "@
        + text::decimal(targets(fs, fs.len() as int).len()) + " target"@;
    assert(aria_text(entry, fs).take(p.len() as int) =~= p);
}

/// The tally of CVEs lists the severities that occur, the worst first, each with its number.
pub proof fn tally_lists_the_worst_first(cves: Seq<CveEvidence>)
    requires
        of_severity(cves, "critical"@) > 0,
        of_severity(cves, "high"@) > 0,
        of_severity(cves, "medium"@) > 0,
        of_severity(cves, "low"@) > 0,
    ensures
        tally_of(cves) == seq![
            ("critical"@, of_severity(cves, "critical"@)),
            ("high"@, of_severity(cves, "high"@)),
            ("medium"@, of_severity(cves, "medium"@)),
            ("low"@, of_severity(cves, "low"@)),
        ],
{
    assert(tally_of(cves) =~= seq![
        ("critical"@, of_severity(cves, "critical"@)),
        ("high"@, of_severity(cves, "high"@)),
        ("medium"@, of_severity(cves, "medium"@)),
        ("low"@, of_severity(cves, "low"@)),
    ]);
}

/// A severity is in the tally exactly where some CVE has it.
pub proof fn tally_leaves_out_what_does_not_occur(cves: Seq<CveEvidence>, severity: Seq<char>)
    ensures
        tallied(cves, severity).len() == (if of_severity(cves, severity) > 0 {
            1int
        } else {
            0int
        }),
        of_severity(cves, severity) > 0 ==> tallied(cves, severity)[0] == (
            severity,
            of_severity(cves, severity),
        ),
        tally_of(cves).len() == tallied(cves, "critical"@).len() + tallied(cves, "high"@).len()
            + tallied(cves, "medium"@).len() + tallied(cves, "low"@).len(),
{
}

/// The lever of a breach follows its disposition; without a breach there is none to pull, and a
/// broad reach that was cleared works as intended.
pub proof fn lever_follows_the_disposition(fs: Seq<&EndpointFinding>)
    requires
        fs.len() > 0,
    ensures
        posture_of(fs) == Posture::Safe && arriving_steps(fs).len() >= 20 ==> row_lever(fs)
            == "working as intended"@,
        posture_of(fs) == Posture::Breach && (fs[0].disposition@ == "auto-eligible"@
            || fs[0].disposition@ == "latent foothold \u{2014} propose"@ || fs[0].disposition@
            == "structural \u{2014} propose"@ || fs[0].disposition@ == "vetoed \u{2014} propose"@)
            ==> row_lever(fs) == "arm network"@,
        posture_of(fs) == Posture::Breach && fs[0].disposition@ == "durable-fix PR"@ ==> row_lever(fs)
            == "permanent fix"@,
        posture_of(fs) == Posture::Breach && fs[0].disposition@ == "forbidden"@ ==> row_lever(fs)
            == "fix by hand (escape)"@,
        posture_of(fs) == Posture::Awaiting ==> row_lever(fs) == "\u{2014}"@,
{
    reveal_strlit("auto-eligible");
    reveal_strlit("latent foothold \u{2014} propose");
    reveal_strlit("structural \u{2014} propose");
    reveal_strlit("vetoed \u{2014} propose");
    reveal_strlit("durable-fix PR");
    reveal_strlit("forbidden");
    assert("auto-eligible"@[0] == 'a' && "latent foothold \u{2014} propose"@[0] == 'l'
        && "structural \u{2014} propose"@[0] == 's' && "vetoed \u{2014} propose"@[0] == 'v'
        && "durable-fix PR"@[0] == 'd' && "forbidden"@[0] == 'f');
}

/// A row says what stands behind it: its tier as given, the short name of its entry, its verdict's
/// tag, and the age of the last pass.
pub proof fn row_says_what_stands_behind_it(
    entry: Seq<char>,
    fs: Seq<&EndpointFinding>,
    tier: Tier,
    last_pass: Option<u64>,
    r: RowProps,
    d: DetailProps,
)
    requires
        shows_row(entry, fs, tier, last_pass, r),
        shows_detail(entry, fs, d),
    ensures
        r.tier == tier,
        r.entry_short@ == short_text(entry),
        r.detail_id@ == r.row_id@ + "-detail"@,
        r.verdict_tag@ == d.posture.label_text(),
        r.verdict_tone@ == d.posture.tone_text(),
        r.age@ == relative_text(last_pass),
        r.calm <==> d.broad_lead == BroadLead::Calm,
        d.broad_lead == BroadLead::Calm <==> arriving_steps(fs).len() >= 20 && d.posture
            == Posture::Safe,
        d.broad_lead == BroadLead::AwaitingNote <==> arriving_steps(fs).len() >= 20 && d.posture
            == Posture::Awaiting,
        r.glyphs.awaiting <==> d.posture == Posture::Awaiting,
        fs.len() > 0 ==> r.glyphs.cves == fs[0].evidence.cves@.len(),
{
}

/// What a row needs of its detail is what the detail says.
pub proof fn meta_agrees_with_the_detail(
    entry: Seq<char>,
    fs: Seq<&EndpointFinding>,
    m: RowMeta,
    d: DetailProps,
)
    requires
        is_meta(fs, m),
        shows_detail(entry, fs, d),
    ensures
        m.posture == d.posture,
        m.objectives == d.graph.objectives,
        m.calm <==> d.broad_lead == BroadLead::Calm,
{
}

/// The recency of a row shows the glyph of what changed, or the age of what did not, and says so
/// aloud; without any it says that there is none yet.
pub proof fn recency_shows_change_or_age(r: Option<RecencyInfo>, c: RecencyCell)
    requires
        shows_recency(r, c),
    ensures
        r is None ==> c.aria_label@ == "no recency yet"@ && c.glyph@ == "\u{b7}"@,
        r matches Some(i) ==> c.aria_label@ == i.delta.words(opt_age_text(i.age_secs)),
        r matches Some(i) ==> (i.delta == Delta::New || i.delta == Delta::Escalated || i.delta
            == Delta::DeEscalated ==> c.glyph@ == i.delta.glyph_text()),
        r matches Some(i) ==> (i.delta == Delta::Unchanged ==> (i.age_secs matches Some(secs)
            ==> c.glyph@ == age_text(secs as nat))),
        r matches Some(i) ==> (i.delta == Delta::Escalated ==> c.tone@ == "rc-up"@) && (i.delta
            == Delta::New ==> c.tone@ == "rc-new"@) && (i.delta == Delta::DeEscalated ==> c.tone@
            == "rc-down"@),
{
}

/// What stands behind a row speaks of the evidence of its first finding: the rail, the CVEs and the
/// behaviors.
pub proof fn detail_speaks_of_the_first_finding(
    entry: Seq<char>,
    fs: Seq<&EndpointFinding>,
    d: DetailProps,
    i: int,
)
    requires
        shows_detail(entry, fs, d),
        fs.len() > 0,
    ensures
        is_fact(fs[0].evidence, d.rail.cve),
        shows_evidence(fs[0].evidence, d.evidence),
        d.evidence.cve is None <==> fs[0].evidence.cves@.len() == 0,
        d.evidence.cve matches Some(b) ==> b.n == fs[0].evidence.cves@.len(),
        d.evidence.cve matches Some(b) ==> (0 <= i < b.tally@.len() ==> (
            b.tally@[i].0@,
            b.tally@[i].1 as int,
        ) == tally_of(fs[0].evidence.cves@)[i]) && b.tally@.len() == tally_of(
            fs[0].evidence.cves@,
        ).len(),
        d.graph.aria@ == aria_text(entry, fs),
        d.rail.entry_short@ == short_text(entry),
{
    match d.evidence.cve {
        Some(b) => {
            assert(tally_shown(b.tally@).len() == b.tally@.len());
            if 0 <= i < b.tally@.len() {
                assert(tally_shown(b.tally@)[i] == (b.tally@[i].0@, b.tally@[i].1 as int));
            }
        },
        None => {},
    }
}

/// A row says what its entry reaches, the gist of its verdict and the lever to pull.
pub proof fn row_says_reach_gist_and_lever(
    entry: Seq<char>,
    fs: Seq<&EndpointFinding>,
    tier: Tier,
    last_pass: Option<u64>,
    r: RowProps,
)
    requires
        shows_row(entry, fs, tier, last_pass, r),
        fs.len() > 0,
    ensures
        r.reaches@ == reaches_text(fs),
        r.verdict_clause@ == gist_text(first_verdict(fs, 0), fs[0].evidence, fs),
        r.lever@ == row_lever(fs),
        r.glyphs.kev == exploited(fs[0].evidence.cves@),
        r.glyphs.crit == of_severity(fs[0].evidence.cves@, "critical"@),
        r.row_id@ == row_id_text(entry),
{
}

/// A CVE's row wears the tone of its severity, and names its weakness classes.
pub proof fn cve_row_wears_its_severity(c: CveEvidence, r: CveRow)
    requires
        shows_cve(c, r),
    ensures
        c.severity@ == "critical"@ ==> r.severity_tone@ == "sev-critical"@,
        c.severity@ == "high"@ ==> r.severity_tone@ == "sev-high"@,
        c.severity@ == "medium"@ ==> r.severity_tone@ == "sev-medium"@,
        c.severity@ == "low"@ ==> r.severity_tone@ == "sev-low"@,
        r.cwe@ == c.cwe@,
        r.id == c.id,
{
    reveal_strlit("critical");
    reveal_strlit("high");
    reveal_strlit("medium");
    reveal_strlit("low");
    assert("critical"@.len() == 8 && "high"@.len() == 4 && "medium"@.len() == 6 && "low"@.len() == 3);
}

/// The card of a cut speaks of its one finding: its posture by its verdict, its own evidence, and
/// what to do about it.
pub proof fn card_speaks_of_its_finding(f: EndpointFinding, armed: bool, r: RemediationProps)
    requires
        shows_remediation(f, armed, r),
    ensures
        r.posture == Posture::Awaiting <==> f.verdict is None,
        r.posture == Posture::Breach <==> flags(text::opt_text(f.verdict)),
        shows_evidence(f.evidence, r.evidence),
        is_fact(f.evidence, r.rail.cve),
        r.rail.entry_short@ == short_text(f.entry@),
        r.todo is Some <==> r.posture == Posture::Breach,
        text::opt_text(r.todo) == advice_text(f, r.posture),
{
}

} // verus!
