//! The evidence behind a row of the endpoint table: the CVEs, the runtime signals and what they add
//! up to.

use crate::graph::Behavior;
use crate::order;
use crate::state::{CveEvidence, EntryEvidence};
use crate::text;
use vstd::prelude::*;
use vstd::string::*;

verus! {

/// How many CVEs show before the rest fold away.
pub const CVE_INLINE_CAP: usize = 3;

/// The style class of a severity.
pub open spec fn tone_text(severity: Seq<char>) -> Seq<char> {
    if severity == "critical"@ {
        "sev-critical"@
    } else if severity == "high"@ {
        "sev-high"@
    } else if severity == "medium"@ {
        "sev-medium"@
    } else {
        "sev-low"@
    }
}

/// The style class of a severity.
pub fn severity_tone(severity: &str) -> (r: &'static str)
    ensures
        r@ == tone_text(severity@),
{
    if text::same(severity, "critical") {
        "sev-critical"
    } else if text::same(severity, "high") {
        "sev-high"
    } else if text::same(severity, "medium") {
        "sev-medium"
    } else {
        "sev-low"
    }
}

/// How bad a CVE is; less is worse: critical, high, known to be exploited, medium, the rest.
pub open spec fn rank_of(c: CveEvidence) -> int {
    if c.severity@ == "critical"@ {
        0
    } else if c.severity@ == "high"@ {
        1
    } else if c.kev {
        2
    } else if c.severity@ == "medium"@ {
        3
    } else {
        4
    }
}

/// How bad a CVE is.
pub fn severity_rank(c: &CveEvidence) -> (r: u8)
    ensures
        r == rank_of(*c),
{
    let s = c.severity.as_str();
    if text::same(s, "critical") {
        0
    } else if text::same(s, "high") {
        1
    } else if c.kev {
        2
    } else if text::same(s, "medium") {
        3
    } else {
        4
    }
}

/// The CVE has this severity.
pub open spec fn has_severity(c: CveEvidence, severity: Seq<char>) -> bool {
    c.severity@ == severity
}

/// How many CVEs have this severity.
pub open spec fn of_severity(cves: Seq<CveEvidence>, severity: Seq<char>) -> int {
    cves.filter(|c: CveEvidence| has_severity(c, severity)).len() as int
}

/// How many CVEs are known to be exploited.
pub open spec fn exploited(cves: Seq<CveEvidence>) -> int {
    cves.filter(|c: CveEvidence| c.kev).len() as int
}

fn count_severity(cves: &Vec<CveEvidence>, severity: &str) -> (r: usize)
    ensures
        r == of_severity(cves@, severity@),
        r <= cves@.len(),
{
    let ghost p = |c: CveEvidence| has_severity(c, severity@);
    let mut n: usize = 0;
    let mut i: usize = 0;
    assert(cves@.take(0).filter(p) =~= Seq::empty());
    while i < cves.len()
        invariant
            i <= cves.len(),
            n <= i,
            p == |c: CveEvidence| has_severity(c, severity@),
            n == cves@.take(i as int).filter(p).len(),
        decreases cves.len() - i,
    {
        broadcast use vstd::seq::Seq::lemma_filter_push;

        assert(cves@.take(i + 1) =~= cves@.take(i as int).push(cves@[i as int]));
        if text::same(cves[i].severity.as_str(), severity) {
            n += 1;
        }
        i += 1;
    }
    assert(cves@.take(cves@.len() as int) =~= cves@);
    n
}

fn count_exploited(cves: &Vec<CveEvidence>) -> (r: usize)
    ensures
        r == exploited(cves@),
{
    let ghost p = |c: CveEvidence| c.kev;
    let mut n: usize = 0;
    let mut i: usize = 0;
    assert(cves@.take(0).filter(p) =~= Seq::empty());
    while i < cves.len()
        invariant
            i <= cves.len(),
            n <= i,
            p == |c: CveEvidence| c.kev,
            n == cves@.take(i as int).filter(p).len(),
        decreases cves.len() - i,
    {
        broadcast use vstd::seq::Seq::lemma_filter_push;

        assert(cves@.take(i + 1) =~= cves@.take(i as int).push(cves@[i as int]));
        if cves[i].kev {
            n += 1;
        }
        i += 1;
    }
    assert(cves@.take(cves@.len() as int) =~= cves@);
    n
}

/// The CVEs in numbers.
#[derive(Debug, Clone, PartialEq, Eq)]
pub enum CveFact {
    /// There is none that bears on a breach.
    Absent,
    Present { n: usize, critical: usize, kev: usize },
}

/// `f` says how many CVEs there are, and how many are critical and how many exploited.
pub open spec fn is_fact(ev: EntryEvidence, f: CveFact) -> bool {
    match f {
        CveFact::Absent => ev.cves@.len() == 0,
        CveFact::Present { n, critical, kev } => {
            &&& n == ev.cves@.len()
            &&& n > 0
            &&& critical == of_severity(ev.cves@, "critical"@)
            &&& kev == exploited(ev.cves@)
        },
    }
}

/// The CVEs in numbers.
pub fn cve_fact(ev: &EntryEvidence) -> (r: CveFact)
    ensures
        is_fact(*ev, r),
{
    let n = ev.cves.len();
    if n == 0 {
        return CveFact::Absent;
    }
    CveFact::Present {
        n,
        critical: count_severity(&ev.cves, "critical"),
        kev: count_exploited(&ev.cves),
    }
}

/// One CVE row.
#[derive(Debug, Clone, PartialEq, Eq)]
pub struct CveRow {
    pub id: String,
    pub severity: String,
    pub severity_tone: &'static str,
    pub kev: bool,
    pub reachability: String,
    pub fix: String,
    pub cwe: Vec<String>,
    pub title: Option<String>,
}

/// `r` shows the CVE.
pub open spec fn shows_cve(c: CveEvidence, r: CveRow) -> bool {
    &&& r.id == c.id
    &&& r.severity == c.severity
    &&& r.severity_tone@ == tone_text(c.severity@)
    &&& r.kev == c.kev
    &&& r.reachability == c.reachability
    &&& r.fix == c.fix
    &&& r.cwe@ == c.cwe@
    &&& r.title == c.title
}

impl CveRow {
    fn of(c: &CveEvidence) -> (r: CveRow)
        ensures
            shows_cve(*c, r),
    {
        let cwe = c.cwe.clone();
        assert(cwe@ =~= c.cwe@);
        CveRow {
            id: c.id.clone(),
            severity: c.severity.clone(),
            severity_tone: severity_tone(c.severity.as_str()),
            kev: c.kev,
            reachability: c.reachability.clone(),
            fix: c.fix.clone(),
            cwe,
            title: c.title.clone(),
        }
    }
}

/// The CVEs of an entry: how many of each severity, and the rows, the worst first.
#[derive(Debug, Clone, PartialEq, Eq)]
pub struct CveBlockProps {
    pub n: usize,
    /// The severities that occur, the worst first, with their counts.
    pub tally: Vec<(&'static str, usize)>,
    pub inline: Vec<CveRow>,
    pub rest: Vec<CveRow>,
}

/// The order of CVEs: the worse first, then by identifier.
pub open spec fn cve_le(a: CveEvidence, b: CveEvidence) -> bool {
    if rank_of(a) != rank_of(b) {
        rank_of(a) < rank_of(b)
    } else {
        text::text_le(a.id@, b.id@)
    }
}

/// The CVEs, the worst first.
pub open spec fn worst_first(cves: Seq<CveEvidence>) -> Seq<CveEvidence> {
    order::sorted(cves, |a: CveEvidence, b: CveEvidence| cve_le(a, b))
}

/// The entry of one severity in the tally, where it occurs.
pub open spec fn tallied(cves: Seq<CveEvidence>, severity: Seq<char>) -> Seq<(Seq<char>, int)> {
    if of_severity(cves, severity) > 0 {
        seq![(severity, of_severity(cves, severity))]
    } else {
        Seq::empty()
    }
}

/// The severities that occur, the worst first, with their counts.
pub open spec fn tally_of(cves: Seq<CveEvidence>) -> Seq<(Seq<char>, int)> {
    tallied(cves, "critical"@) + tallied(cves, "high"@) + tallied(cves, "medium"@) + tallied(
        cves,
        "low"@,
    )
}

/// What a tally shows.
pub open spec fn tally_shown(v: Seq<(&'static str, usize)>) -> Seq<(Seq<char>, int)> {
    v.map_values(|p: (&'static str, usize)| (p.0@, p.1 as int))
}

/// `b` shows the CVEs, a few inline and the rest folded.
pub open spec fn shows_block(cves: Seq<CveEvidence>, b: CveBlockProps) -> bool {
    let all = worst_first(cves);
    &&& b.n == cves.len()
    &&& tally_shown(b.tally@) == tally_of(cves)
    &&& b.inline@.len() == (if cves.len() < CVE_INLINE_CAP {
        cves.len() as int
    } else {
        CVE_INLINE_CAP as int
    })
    &&& b.inline@.len() + b.rest@.len() == cves.len()
    &&& forall|i: int| 0 <= i < b.inline@.len() ==> shows_cve(all[i], #[trigger] b.inline@[i])
    &&& forall|i: int|
        0 <= i < b.rest@.len() ==> shows_cve(all[b.inline@.len() + i], #[trigger] b.rest@[i])
}

fn cve_at_most(a: &CveEvidence, b: &CveEvidence) -> (r: bool)
    ensures
        r == cve_le(*a, *b),
{
    let (x, y): (u8, u8) = (severity_rank(a), severity_rank(b));
    if x != y {
        x < y
    } else {
        text::at_most(a.id.as_str(), b.id.as_str())
    }
}

/// Appends the tally of one severity, where it occurs.
fn add_tally(v: &mut Vec<(&'static str, usize)>, cves: &Vec<CveEvidence>, severity: &'static str)
    ensures
        tally_shown(final(v)@) == tally_shown(old(v)@) + tallied(cves@, severity@),
{
    let ghost before = v@;
    let n = count_severity(cves, severity);
    if n > 0 {
        v.push((severity, n));
        assert(tally_shown(v@) =~= tally_shown(before) + tallied(cves@, severity@));
    } else {
        assert(tally_shown(v@) =~= tally_shown(before) + tallied(cves@, severity@));
    }
}

/// The CVEs of an entry, or nothing where there is none.
pub fn cve_block_props(ev: &EntryEvidence) -> (r: Option<CveBlockProps>)
    ensures
        r is None <==> ev.cves@.len() == 0,
        r matches Some(b) ==> shows_block(ev.cves@, b),
{
    let cves = &ev.cves;
    if cves.len() == 0 {
        return None;
    }
    let ghost all = worst_first(cves@);
    let mut ids: Vec<usize> = Vec::new();
    let mut i: usize = 0;
    while i < cves.len()
        invariant
            i <= cves.len(),
            ids@.len() == i,
            forall|k: int| 0 <= k < i ==> #[trigger] ids@[k] == k,
        decreases cves.len() - i,
    {
        ids.push(i);
        i += 1;
    }
    let ghost le = |a: usize, b: usize|
        if a < cves@.len() && b < cves@.len() {
            cve_le(cves@[a as int], cves@[b as int])
        } else {
            true
        };
    let ghost cle = |a: CveEvidence, b: CveEvidence| cve_le(a, b);
    let ghost rel = |c: CveEvidence, k: usize| k < cves@.len() && cves@[k as int] == c;
    proof {
        order::lemma_sorted_related(cves@, ids@, rel, cle, le);
    }
    let at_most = |a: &usize, b: &usize| -> (o: bool)
        ensures
            o == (if *a < cves@.len() && *b < cves@.len() {
                cve_le(cves@[*a as int], cves@[*b as int])
            } else {
                true
            }),
        {
            if *a < cves.len() && *b < cves.len() {
                cve_at_most(&cves[*a], &cves[*b])
            } else {
                true
            }
        };
    let order = order::sort_stable(ids, at_most, Ghost(le));
    proof {
        assert forall|k: int| 0 <= k < order@.len() implies (#[trigger] order@[k]) < cves@.len()
            && cves@[order@[k] as int] == all[k] by {
            assert(rel(all[k], order@[k]));
        }
    }
    let mut inline: Vec<CveRow> = Vec::new();
    let mut rest: Vec<CveRow> = Vec::new();
    let mut k: usize = 0;
    while k < order.len()
        invariant
            k <= order.len(),
            order@.len() == cves@.len(),
            all == worst_first(cves@),
            forall|j: int|
                0 <= j < order@.len() ==> (#[trigger] order@[j]) < cves@.len()
                    && cves@[order@[j] as int] == all[j],
            inline@.len() == (if k < CVE_INLINE_CAP {
                k as int
            } else {
                CVE_INLINE_CAP as int
            }),
            inline@.len() + rest@.len() == k,
            forall|j: int| 0 <= j < inline@.len() ==> shows_cve(all[j], #[trigger] inline@[j]),
            forall|j: int|
                0 <= j < rest@.len() ==> shows_cve(all[inline@.len() + j], #[trigger] rest@[j]),
        decreases order.len() - k,
    {
        let row = CveRow::of(&cves[order[k]]);
        if k < CVE_INLINE_CAP {
            inline.push(row);
        } else {
            rest.push(row);
        }
        k += 1;
    }
    let mut tally: Vec<(&'static str, usize)> = Vec::new();
    add_tally(&mut tally, cves, "critical");
    add_tally(&mut tally, cves, "high");
    add_tally(&mut tally, cves, "medium");
    add_tally(&mut tally, cves, "low");
    assert(tally_shown(tally@) =~= tally_of(cves@));
    Some(CveBlockProps { n: cves.len(), tally, inline, rest })
}

/// The runtime signals: alerts corroborate, every other behavior is context.
#[derive(Debug, Clone, PartialEq, Eq)]
pub struct RuntimeBlockProps {
    pub corroborating: Vec<String>,
    /// The variant and the words of each.
    pub context: Vec<(String, String)>,
}

/// `b` shows the runtime signals.
pub open spec fn shows_runtime(ev: EntryEvidence, b: RuntimeBlockProps) -> bool {
    &&& b.corroborating@ == ev.runtime@.filter(|x: Behavior| x.alerts()).map_values(
        |x: Behavior| x.summary,
    )
    &&& b.context@ == ev.runtime@.filter(|x: Behavior| !x.alerts()).map_values(
        |x: Behavior| (x.variant, x.summary),
    )
}

/// The runtime signals.
pub fn runtime_block_props(ev: &EntryEvidence) -> (r: RuntimeBlockProps)
    ensures
        shows_runtime(*ev, r),
{
    let v = &ev.runtime;
    let ghost yes = |x: Behavior| x.alerts();
    let ghost no = |x: Behavior| !x.alerts();
    let ghost f = |x: Behavior| x.summary;
    let ghost g = |x: Behavior| (x.variant, x.summary);
    let mut corroborating: Vec<String> = Vec::new();
    let mut context: Vec<(String, String)> = Vec::new();
    let mut i: usize = 0;
    assert(corroborating@ =~= v@.take(0).filter(yes).map_values(f));
    assert(context@ =~= v@.take(0).filter(no).map_values(g));
    while i < v.len()
        invariant
            i <= v.len(),
            yes == |x: Behavior| x.alerts(),
            no == |x: Behavior| !x.alerts(),
            f == |x: Behavior| x.summary,
            g == |x: Behavior| (x.variant, x.summary),
            corroborating@ == v@.take(i as int).filter(yes).map_values(f),
            context@ == v@.take(i as int).filter(no).map_values(g),
        decreases v.len() - i,
    {
        broadcast use vstd::seq::Seq::lemma_filter_push;

        let ghost a = v@.take(i as int).filter(yes);
        let ghost b = v@.take(i as int).filter(no);
        let ghost x = v@[i as int];
        assert(v@.take(i + 1) =~= v@.take(i as int).push(x));
        if v[i].is_alert() {
            corroborating.push(v[i].summary.clone());
            assert(a.push(x).map_values(f) =~= a.map_values(f).push(f(x)));
        } else {
            context.push((v[i].variant.clone(), v[i].summary.clone()));
            assert(b.push(x).map_values(g) =~= b.map_values(g).push(g(x)));
        }
        i += 1;
    }
    assert(v@.take(v@.len() as int) =~= v@);
    RuntimeBlockProps { corroborating, context }
}

/// The evidence behind a row.
#[derive(Debug, Clone, PartialEq, Eq)]
pub struct EvidenceProps {
    pub cve: Option<CveBlockProps>,
    pub runtime: RuntimeBlockProps,
}

/// `p` shows the evidence.
pub open spec fn shows_evidence(ev: EntryEvidence, p: EvidenceProps) -> bool {
    &&& p.cve is None <==> ev.cves@.len() == 0
    &&& p.cve matches Some(b) ==> shows_block(ev.cves@, b)
    &&& shows_runtime(ev, p.runtime)
}

/// The evidence behind a row.
pub fn evidence_props(ev: &EntryEvidence) -> (r: EvidenceProps)
    ensures
        shows_evidence(*ev, r),
{
    EvidenceProps { cve: cve_block_props(ev), runtime: runtime_block_props(ev) }
}

/// Some behavior is an alert.
pub open spec fn has_alert(ev: EntryEvidence) -> bool {
    exists|i: int| 0 <= i < ev.runtime@.len() && (#[trigger] ev.runtime@[i]).alerts()
}

/// Whether some behavior is an alert.
pub fn is_corroborated(ev: &EntryEvidence) -> (r: bool)
    ensures
        r == has_alert(*ev),
{
    let mut i: usize = 0;
    while i < ev.runtime.len()
        invariant
            i <= ev.runtime.len(),
            forall|k: int| 0 <= k < i ==> !(#[trigger] ev.runtime@[k]).alerts(),
        decreases ev.runtime.len() - i,
    {
        if ev.runtime[i].is_alert() {
            assert(ev.runtime@[i as int].alerts());
            return true;
        }
        i += 1;
    }
    false
}

/// The evidence in one cell.
#[derive(Debug, Clone, PartialEq, Eq)]
pub struct GlyphProps {
    pub cves: usize,
    pub kev: usize,
    pub crit: usize,
    pub live: bool,
    pub awaiting: bool,
}

/// `g` counts the evidence.
pub open spec fn shows_glyphs(ev: EntryEvidence, corroborated: bool, awaiting: bool, g: GlyphProps) -> bool {
    &&& g.cves == ev.cves@.len()
    &&& g.kev == exploited(ev.cves@)
    &&& g.crit == of_severity(ev.cves@, "critical"@)
    &&& g.live == (corroborated || has_alert(ev))
    &&& g.awaiting == awaiting
}

/// The evidence in one cell.
pub fn glyph_props(ev: &EntryEvidence, corroborated: bool, awaiting: bool) -> (r: GlyphProps)
    ensures
        shows_glyphs(*ev, corroborated, awaiting, r),
{
    GlyphProps {
        cves: ev.cves.len(),
        kev: count_exploited(&ev.cves),
        crit: count_severity(&ev.cves, "critical"),
        live: corroborated || is_corroborated(ev),
        awaiting,
    }
}

// ---------------------------------------------------------------------------
// Laws
// ---------------------------------------------------------------------------

/// A CVE never shows below a less bad one, and those that are alike show by name.
pub proof fn bad_cves_come_first(cves: Seq<CveEvidence>, i: int, j: int)
    requires
        0 <= i <= j < worst_first(cves).len(),
    ensures
        rank_of(worst_first(cves)[i]) <= rank_of(worst_first(cves)[j]),
        rank_of(worst_first(cves)[i]) == rank_of(worst_first(cves)[j]) ==> text::text_le(
            worst_first(cves)[i].id@,
            worst_first(cves)[j].id@,
        ),
{
    let le = |a: CveEvidence, b: CveEvidence| cve_le(a, b);
    assert forall|a: CveEvidence, b: CveEvidence| #[trigger] le(a, b) || le(b, a) by {
        text::lemma_text_le_total(a.id@, b.id@);
    }
    assert forall|a: CveEvidence, b: CveEvidence, c: CveEvidence| #[trigger]
        le(a, b) && #[trigger] le(b, c) implies le(a, c) by {
        if text::text_le(a.id@, b.id@) && text::text_le(b.id@, c.id@) {
            text::lemma_text_le_trans(a.id@, b.id@, c.id@);
        }
    }
    order::sorting_orders(cves, le);
    if i < j {
        assert(le(worst_first(cves)[i], worst_first(cves)[j]));
    } else {
        text::lemma_text_le_total(worst_first(cves)[i].id@, worst_first(cves)[i].id@);
    }
}

} // verus!
