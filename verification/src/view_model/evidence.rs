//! The evidence on an entry, as a strip of marks and as labelled blocks.

use crate::graph::Behavior;
use crate::state::{CveEvidence, EntryEvidence, FindingEvidence};
use crate::text;
use vstd::prelude::*;
use vstd::string::*;

verus! {

/// One mark per kind of evidence.
#[derive(Debug, Clone, PartialEq, Eq, Default)]
pub struct GlyphStrip {
    pub cvss: Option<String>,
    pub epss: Option<String>,
    pub kev: bool,
    pub secret: bool,
    pub runtime: bool,
}

impl GlyphStrip {
    /// Whether there is nothing to show.
    pub fn is_empty(&self) -> (r: bool)
        ensures
            r == (self.cvss is None && self.epss is None && !self.kev && !self.secret
                && !self.runtime),
    {
        self.cvss.is_none() && self.epss.is_none() && !self.kev && !self.secret && !self.runtime
    }
}

/// The score of highest rank among the first `n` CVEs; the last of those that tie.
pub open spec fn top_score(cves: Seq<CveEvidence>, n: int) -> Option<(Seq<char>, u64)>
    decreases n,
{
    if n <= 0 || n > cves.len() {
        None
    } else {
        let rest = top_score(cves, n - 1);
        match cves[n - 1].score {
            Some(s) => match rest {
                Some(best) => if cves[n - 1].score_rank >= best.1 {
                    Some((s@, cves[n - 1].score_rank))
                } else {
                    rest
                },
                None => Some((s@, cves[n - 1].score_rank)),
            },
            None => rest,
        }
    }
}

/// The exploit-prediction score of highest rank among the first `n` CVEs; the last of those that
/// tie.
pub open spec fn top_epss(cves: Seq<CveEvidence>, n: int) -> Option<(Seq<char>, u64)>
    decreases n,
{
    if n <= 0 || n > cves.len() {
        None
    } else {
        let rest = top_epss(cves, n - 1);
        match cves[n - 1].epss {
            Some(s) => match rest {
                Some(best) => if cves[n - 1].epss_rank >= best.1 {
                    Some((s@, cves[n - 1].epss_rank))
                } else {
                    rest
                },
                None => Some((s@, cves[n - 1].epss_rank)),
            },
            None => rest,
        }
    }
}

/// The token, where there is one.
pub open spec fn token_of(t: Option<(Seq<char>, u64)>) -> Option<Seq<char>> {
    match t {
        Some(p) => Some(p.0),
        None => None,
    }
}

/// A label before the token, where there is one.
pub open spec fn labelled(label: Seq<char>, t: Option<(Seq<char>, u64)>) -> Option<Seq<char>> {
    match t {
        Some(p) => Some(label + p.0),
        None => None,
    }
}

/// `g` marks the evidence: the highest scores, and whether there is anything of each kind.
pub open spec fn shows_strip(ev: EntryEvidence, corroborated: bool, g: GlyphStrip) -> bool {
    let n = ev.cves@.len() as int;
    &&& text::opt_text(g.cvss) == labelled("cvss "@, top_score(ev.cves@, n))
    &&& text::opt_text(g.epss) == labelled("epss "@, top_epss(ev.cves@, n))
    &&& g.kev == exists|i: int| 0 <= i < ev.cves@.len() && (#[trigger] ev.cves@[i]).kev
    &&& g.secret == (ev.exposed_secrets@.len() > 0)
    &&& g.runtime == (corroborated || exists|i: int|
        0 <= i < ev.runtime@.len() && (#[trigger] ev.runtime@[i]).alerts())
}

/// The highest score.
fn max_cvss(cves: &Vec<CveEvidence>) -> (r: Option<String>)
    ensures
        text::opt_text(r) == token_of(top_score(cves@, cves@.len() as int)),
{
    let mut best: Option<String> = None;
    let mut rank: u64 = 0;
    let mut i: usize = 0;
    while i < cves.len()
        invariant
            i <= cves.len(),
            best matches Some(s) ==> top_score(cves@, i as int) == Some((s@, rank)),
            best is None ==> top_score(cves@, i as int) is None,
        decreases cves.len() - i,
    {
        let c = &cves[i];
        match &c.score {
            Some(s) => if best.is_none() || c.score_rank >= rank {
                best = Some(s.clone());
                rank = c.score_rank;
            },
            None => {},
        }
        i += 1;
    }
    best
}

/// The highest exploit-prediction score.
fn max_epss(cves: &Vec<CveEvidence>) -> (r: Option<String>)
    ensures
        text::opt_text(r) == token_of(top_epss(cves@, cves@.len() as int)),
{
    let mut best: Option<String> = None;
    let mut rank: u64 = 0;
    let mut i: usize = 0;
    while i < cves.len()
        invariant
            i <= cves.len(),
            best matches Some(s) ==> top_epss(cves@, i as int) == Some((s@, rank)),
            best is None ==> top_epss(cves@, i as int) is None,
        decreases cves.len() - i,
    {
        let c = &cves[i];
        match &c.epss {
            Some(s) => if best.is_none() || c.epss_rank >= rank {
                best = Some(s.clone());
                rank = c.epss_rank;
            },
            None => {},
        }
        i += 1;
    }
    best
}

fn with_label(label: &str, t: Option<String>) -> (r: Option<String>)
    ensures
        text::opt_text(r) == (match t {
            Some(s) => Some(label@ + s@),
            None => None,
        }),
{
    match t {
        Some(s) => Some(label.to_string().concat(s.as_str())),
        None => None,
    }
}

/// The strip of marks on an entry.
pub fn glyph_strip(ev: &EntryEvidence, corroborated: bool) -> (r: GlyphStrip)
    ensures
        shows_strip(*ev, corroborated, r),
{
    let mut kev = false;
    let mut i: usize = 0;
    while i < ev.cves.len()
        invariant
            i <= ev.cves.len(),
            kev == exists|k: int| 0 <= k < i && (#[trigger] ev.cves@[k]).kev,
        decreases ev.cves.len() - i,
    {
        if ev.cves[i].kev {
            assert(ev.cves@[i as int].kev);
            kev = true;
        }
        i += 1;
    }
    let mut alert = false;
    let mut k: usize = 0;
    while k < ev.runtime.len()
        invariant
            k <= ev.runtime.len(),
            alert == exists|j: int| 0 <= j < k && (#[trigger] ev.runtime@[j]).alerts(),
        decreases ev.runtime.len() - k,
    {
        if ev.runtime[k].is_alert() {
            assert(ev.runtime@[k as int].alerts());
            alert = true;
        }
        k += 1;
    }
    let top = max_cvss(&ev.cves);
    let pct = max_epss(&ev.cves);
    GlyphStrip {
        cvss: with_label("cvss ", top),
        epss: with_label("epss ", pct),
        kev,
        secret: ev.exposed_secrets.len() > 0,
        runtime: corroborated || alert,
    }
}

/// One CVE line.
#[derive(Debug, Clone, PartialEq, Eq)]
pub struct CveLine {
    pub id: String,
    pub severity: String,
    pub kev: bool,
    pub cvss: Option<String>,
    pub epss: Option<String>,
    pub fix: String,
    pub title: Option<String>,
}

/// One scanner finding line.
#[derive(Debug, Clone, PartialEq, Eq)]
pub struct ScanLine {
    pub id: String,
    pub severity: String,
    pub category: Option<String>,
    pub title: Option<String>,
}

/// The evidence in labelled blocks.
#[derive(Debug, Clone, PartialEq, Eq, Default)]
pub struct EvidenceBlocks {
    pub cves: Vec<CveLine>,
    pub alerts: Vec<String>,
    pub context: Vec<String>,
    pub exposed_secrets: Vec<ScanLine>,
    pub misconfigs: Vec<ScanLine>,
    pub rbac: Vec<ScanLine>,
}

impl EvidenceBlocks {
    /// Whether there is no evidence at all.
    pub fn is_empty(&self) -> (r: bool)
        ensures
            r == (self.cves@.len() == 0 && self.alerts@.len() == 0 && self.context@.len() == 0
                && self.exposed_secrets@.len() == 0 && self.misconfigs@.len() == 0
                && self.rbac@.len() == 0),
    {
        self.cves.len() == 0 && self.alerts.len() == 0 && self.context.len() == 0
            && self.exposed_secrets.len() == 0 && self.misconfigs.len() == 0 && self.rbac.len()
            == 0
    }
}

/// A CVE as a line.
pub open spec fn line_of(c: CveEvidence) -> CveLine {
    CveLine {
        id: c.id,
        severity: c.severity,
        kev: c.kev,
        cvss: c.score,
        epss: c.epss,
        fix: c.fix,
        title: c.title,
    }
}

/// A scanner finding as a line.
pub open spec fn scan_of(f: FindingEvidence) -> ScanLine {
    ScanLine { id: f.id, severity: f.severity, category: f.category, title: f.title }
}

/// `b` shows the evidence: the alerts apart from every other behavior.
pub open spec fn shows_blocks(ev: EntryEvidence, b: EvidenceBlocks) -> bool {
    &&& b.cves@ == ev.cves@.map_values(|c: CveEvidence| line_of(c))
    &&& b.alerts@ == ev.runtime@.filter(|x: Behavior| x.alerts()).map_values(
        |x: Behavior| x.summary,
    )
    &&& b.context@ == ev.runtime@.filter(|x: Behavior| !x.alerts()).map_values(
        |x: Behavior| x.summary,
    )
    &&& b.exposed_secrets@ == ev.exposed_secrets@.map_values(|f: FindingEvidence| scan_of(f))
    &&& b.misconfigs@ == ev.misconfigs@.map_values(|f: FindingEvidence| scan_of(f))
    &&& b.rbac@ == ev.rbac_findings@.map_values(|f: FindingEvidence| scan_of(f))
}

fn cve_lines(v: &Vec<CveEvidence>) -> (r: Vec<CveLine>)
    ensures
        r@ == v@.map_values(|c: CveEvidence| line_of(c)),
{
    let mut r: Vec<CveLine> = Vec::new();
    let mut i: usize = 0;
    while i < v.len()
        invariant
            i <= v.len(),
            r@.len() == i,
            forall|k: int| 0 <= k < i ==> #[trigger] r@[k] == line_of(v@[k]),
        decreases v.len() - i,
    {
        let c = &v[i];
        r.push(
            CveLine {
                id: c.id.clone(),
                severity: c.severity.clone(),
                kev: c.kev,
                cvss: c.score.clone(),
                epss: c.epss.clone(),
                fix: c.fix.clone(),
                title: c.title.clone(),
            },
        );
        i += 1;
    }
    assert(r@ =~= v@.map_values(|c: CveEvidence| line_of(c)));
    r
}

fn scan_lines(v: &Vec<FindingEvidence>) -> (r: Vec<ScanLine>)
    ensures
        r@ == v@.map_values(|f: FindingEvidence| scan_of(f)),
{
    let mut r: Vec<ScanLine> = Vec::new();
    let mut i: usize = 0;
    while i < v.len()
        invariant
            i <= v.len(),
            r@.len() == i,
            forall|k: int| 0 <= k < i ==> #[trigger] r@[k] == scan_of(v@[k]),
        decreases v.len() - i,
    {
        let f = &v[i];
        r.push(
            ScanLine {
                id: f.id.clone(),
                severity: f.severity.clone(),
                category: f.category.clone(),
                title: f.title.clone(),
            },
        );
        i += 1;
    }
    assert(r@ =~= v@.map_values(|f: FindingEvidence| scan_of(f)));
    r
}

/// The words of the behaviors that are alerts, or of those that are not.
fn summaries(v: &Vec<Behavior>, alerts: bool) -> (r: Vec<String>)
    ensures
        r@ == v@.filter(|x: Behavior| x.alerts() == alerts).map_values(|x: Behavior| x.summary),
{
    let ghost p = |x: Behavior| x.alerts() == alerts;
    let ghost f = |x: Behavior| x.summary;
    let mut r: Vec<String> = Vec::new();
    let mut i: usize = 0;
    assert(r@ =~= v@.take(0).filter(p).map_values(f));
    while i < v.len()
        invariant
            i <= v.len(),
            p == |x: Behavior| x.alerts() == alerts,
            f == |x: Behavior| x.summary,
            r@ == v@.take(i as int).filter(p).map_values(f),
        decreases v.len() - i,
    {
        broadcast use vstd::seq::Seq::lemma_filter_push;

        let ghost so_far = v@.take(i as int).filter(p);
        let ghost x = v@[i as int];
        assert(v@.take(i + 1) =~= v@.take(i as int).push(x));
        if v[i].is_alert() == alerts {
            r.push(v[i].summary.clone());
            assert(so_far.push(x).map_values(f) =~= so_far.map_values(f).push(f(x)));
        }
        i += 1;
    }
    assert(v@.take(v@.len() as int) =~= v@);
    r
}

/// The evidence in labelled blocks.
pub fn evidence_blocks(ev: &EntryEvidence) -> (r: EvidenceBlocks)
    ensures
        shows_blocks(*ev, r),
{
    proof {
        assert((|x: Behavior| x.alerts() == true) =~= (|x: Behavior| x.alerts()));
        assert((|x: Behavior| x.alerts() == false) =~= (|x: Behavior| !x.alerts()));
    }
    EvidenceBlocks {
        cves: cve_lines(&ev.cves),
        alerts: summaries(&ev.runtime, true),
        context: summaries(&ev.runtime, false),
        exposed_secrets: scan_lines(&ev.exposed_secrets),
        misconfigs: scan_lines(&ev.misconfigs),
        rbac: scan_lines(&ev.rbac_findings),
    }
}

/// No mark is lower than a score that is there.
pub proof fn top_is_highest(cves: Seq<CveEvidence>, n: int, i: int)
    requires
        0 <= i < n <= cves.len(),
        cves[i].score is Some,
    ensures
        top_score(cves, n) matches Some(p) && p.1 >= cves[i].score_rank,
    decreases n,
{
    if i < n - 1 {
        top_is_highest(cves, n - 1, i);
    }
}

} // verus!
