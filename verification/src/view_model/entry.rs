//! One exposed entry: its row, and what stands behind it.

use crate::graph::{short_text, NodeKey};
use crate::state::{Delta, Finding, RecencyInfo, Verdict};
use crate::text;
use crate::text_set::TextSet;
use crate::view_model::evidence::{
    evidence_blocks, glyph_strip, shows_blocks, shows_strip, EvidenceBlocks, GlyphStrip,
};
use crate::view_model::hops::{hop_list, shows_hops, HopList};
use crate::view_model::posture::{
    age_text, human_age, opt_age_text, relative_text, relative_time,
};
use vstd::prelude::*;
use vstd::string::*;

verus! {

/// What a typed verdict says.
#[derive(Debug, Clone, Copy, PartialEq, Eq, Structural)]
pub enum Posture {
    /// Nothing decisive was said yet.
    Awaiting,
    Safe,
    Breach,
}

impl Posture {
    /// The posture of a verdict; one that is uncertain decides nothing.
    pub open spec fn of(verdict: Option<Verdict>) -> Posture {
        match verdict {
            Some(Verdict::Confirmed) => Posture::Breach,
            Some(Verdict::Exploitable(why)) => Posture::Breach,
            Some(Verdict::Refuted(why)) => Posture::Safe,
            Some(Verdict::Uncertain(why)) => Posture::Awaiting,
            None => Posture::Awaiting,
        }
    }

    /// How loud the posture is.
    pub open spec fn loudness(self) -> int {
        match self {
            Posture::Awaiting => 0,
            Posture::Safe => 1,
            Posture::Breach => 2,
        }
    }

    /// The posture of a verdict.
    pub fn of_verdict(verdict: Option<&Verdict>) -> (r: Posture)
        ensures
            verdict matches Some(v) ==> r == Posture::of(Some(*v)),
            verdict is None ==> r == Posture::of(None),
    {
        match verdict {
            Some(Verdict::Confirmed) => Posture::Breach,
            Some(Verdict::Exploitable(why)) => Posture::Breach,
            Some(Verdict::Refuted(why)) => Posture::Safe,
            Some(Verdict::Uncertain(why)) => Posture::Awaiting,
            None => Posture::Awaiting,
        }
    }

    /// Whether this is a breach.
    pub fn is_breach(self) -> (r: bool)
        ensures
            r == (self == Posture::Breach),
    {
        self == Posture::Breach
    }
}

/// The louder of two postures, the first where they tie.
pub open spec fn louder(a: Posture, b: Posture) -> Posture {
    if b.loudness() > a.loudness() {
        b
    } else {
        a
    }
}

/// The louder of two postures.
pub fn max_posture(a: Posture, b: Posture) -> (r: Posture)
    ensures
        r == louder(a, b),
{
    if posture_rank(b) > posture_rank(a) {
        b
    } else {
        a
    }
}

fn posture_rank(p: Posture) -> (r: u8)
    ensures
        r == p.loudness(),
{
    match p {
        Posture::Awaiting => 0,
        Posture::Safe => 1,
        Posture::Breach => 2,
    }
}

/// The row of an entry.
#[derive(Debug, Clone, PartialEq, Eq)]
pub struct RowProps {
    pub detail_id: String,
    pub posture: Posture,
    pub entry: String,
    pub reaches: String,
    /// The model's words, on one line.
    pub clause: String,
    pub glyphs: GlyphStrip,
    pub delta: Option<DeltaCell>,
    pub age: Option<String>,
}

/// The change of an entry, as a mark and in words.
#[derive(Debug, Clone, PartialEq, Eq)]
pub struct DeltaCell {
    pub glyph: String,
    pub aria: String,
}

/// What stands behind the row of an entry.
#[derive(Debug, Clone, PartialEq, Eq)]
pub struct DetailProps {
    pub detail_id: String,
    pub posture: Posture,
    pub verdict: String,
    pub raw_prompt: Option<String>,
    pub rail: Rail,
    pub evidence: EvidenceBlocks,
    pub hops: HopList,
    /// What to do, for a breach only.
    pub what_to_do: Option<String>,
}

/// The facts that bound what is certain.
#[derive(Debug, Clone, PartialEq, Eq)]
pub struct Rail {
    pub proven: bool,
    pub corroborated: bool,
    pub internet_facing: bool,
    pub objectives: usize,
}

// ---------------------------------------------------------------------------
// What the chains of an entry say together
// ---------------------------------------------------------------------------

/// The loudest posture of the chains.
pub open spec fn loudest(fs: Seq<&Finding>) -> Posture
    decreases fs.len(),
{
    if fs.len() == 0 {
        Posture::Awaiting
    } else {
        louder(loudest(fs.drop_last()), Posture::of(fs.last().verdict))
    }
}

/// The position of the loudest of the first `n` chains; the last of those that tie.
pub open spec fn lead_at(fs: Seq<&Finding>, n: int) -> int
    decreases n,
{
    if n <= 1 || n > fs.len() {
        0
    } else {
        let best = lead_at(fs, n - 1);
        if Posture::of(fs[n - 1].verdict).loudness() >= Posture::of(fs[best].verdict).loudness() {
            n - 1
        } else {
            best
        }
    }
}

/// The chain that leads: the last of the loudest.
pub open spec fn lead_of(fs: Seq<&Finding>) -> Finding {
    *fs[lead_at(fs, fs.len() as int)]
}

/// The objectives of the first `n` chains.
pub open spec fn objectives(fs: Seq<&Finding>, n: int) -> Set<Seq<char>>
    decreases n,
{
    if n <= 0 || n > fs.len() {
        Set::empty()
    } else {
        objectives(fs, n - 1).insert(fs[n - 1].objective@)
    }
}

/// How many objectives the chains reach.
pub open spec fn breadth(fs: Seq<&Finding>) -> nat {
    objectives(fs, fs.len() as int).len()
}

/// What the chains reach: the one objective, or how many there are.
pub open spec fn reaches_text(fs: Seq<&Finding>) -> Seq<char> {
    if breadth(fs) == 1 {
        short_text(fs[0].objective@)
    } else {
        text::decimal(breadth(fs)) + " targets"@
    }
}

/// How noteworthy a change is; less is more.
pub open spec fn weight(d: Delta) -> int {
    match d {
        Delta::Escalated => 0,
        Delta::New => 1,
        Delta::DeEscalated => 2,
        Delta::Restored => 3,
        Delta::Unchanged => 4,
    }
}

/// The most noteworthy change of the chains, the first of those that tie.
pub open spec fn recency_of(fs: Seq<&Finding>) -> Option<RecencyInfo>
    decreases fs.len(),
{
    if fs.len() == 0 {
        None
    } else {
        match (recency_of(fs.drop_last()), fs.last().recency) {
            (Some(a), Some(b)) => if weight(b.delta) < weight(a.delta) {
                Some(b)
            } else {
                Some(a)
            },
            (None, b) => b,
            (a, None) => a,
        }
    }
}

/// The model's words on one line; none where it has not judged.
pub open spec fn clause_text(f: Finding) -> Seq<char> {
    match f.verdict {
        Some(v) => text::trim(text::before(v.summary_text(), "\n"@)),
        None => Seq::empty(),
    }
}

/// The model's words as they are.
pub open spec fn verdict_text(f: Finding) -> Seq<char> {
    match f.verdict {
        Some(v) => v.summary_text(),
        None => "not yet judged \u{2014} the model has not reached this entry this run"@,
    }
}

/// What to do about a breach, by the disposition of its cut.
pub open spec fn action_text(f: Finding, posture: Posture) -> Option<Seq<char>> {
    if posture != Posture::Breach {
        None
    } else if text::contains(f.disposition@, "durable-fix"@) {
        Some("open a PR to remove the grant/mount \u{2014} this path needs a durable fix"@)
    } else if text::contains(f.disposition@, "forbidden"@) {
        Some("needs a human \u{2014} the only cut is an irreversible escape-primitive removal"@)
    } else if text::contains(f.disposition@, "no-cut"@) {
        Some("no single-edge cut severs this \u{2014} review the path"@)
    } else {
        Some("arm the network class to apply the reversible isolation automatically"@)
    }
}

/// `detail-` and the slug of the entry.
pub open spec fn detail_id_text(entry: Seq<char>) -> Seq<char> {
    "detail-"@ + text::slug(entry)
}

/// Some chain is corroborated.
pub open spec fn any_corroborated(fs: Seq<&Finding>) -> bool {
    exists|i: int| 0 <= i < fs.len() && (#[trigger] fs[i]).corroborated
}

/// Some chain starts at the internet.
pub open spec fn any_foothold(fs: Seq<&Finding>) -> bool {
    exists|i: int| 0 <= i < fs.len() && (#[trigger] fs[i]).foothold
}

/// `c` shows the change.
pub open spec fn shows_cell(r: Option<RecencyInfo>, c: Option<DeltaCell>) -> bool {
    match (r, c) {
        (Some(r), Some(c)) => {
            &&& c.glyph@ == r.delta.glyph_text()
            &&& c.aria@ == r.delta.words(opt_age_text(r.age_secs))
        },
        (None, None) => true,
        _ => false,
    }
}

/// `r` is the row of the entry.
pub open spec fn shows_row(entry: Seq<char>, fs: Seq<&Finding>, r: RowProps) -> bool {
    &&& r.detail_id@ == detail_id_text(entry)
    &&& r.posture == loudest(fs)
    &&& r.entry@ == short_text(entry)
    &&& r.reaches@ == reaches_text(fs)
    &&& r.clause@ == clause_text(lead_of(fs))
    &&& shows_strip(lead_of(fs).evidence, any_corroborated(fs), r.glyphs)
    &&& shows_cell(recency_of(fs), r.delta)
    &&& text::opt_text(r.age) == (match recency_of(fs) {
        Some(i) => opt_age_text(i.age_secs),
        None => None,
    })
}

/// `d` is what stands behind the row of the entry.
pub open spec fn shows_detail(
    entry: Seq<char>,
    fs: Seq<&Finding>,
    raw_prompt: Option<String>,
    d: DetailProps,
) -> bool {
    let lead = lead_of(fs);
    &&& d.detail_id@ == detail_id_text(entry)
    &&& d.posture == loudest(fs)
    &&& d.verdict@ == verdict_text(lead)
    &&& d.raw_prompt == raw_prompt
    &&& d.rail.proven
    &&& d.rail.corroborated == any_corroborated(fs)
    &&& d.rail.internet_facing == any_foothold(fs)
    &&& d.rail.objectives == breadth(fs)
    &&& shows_blocks(lead.evidence, d.evidence)
    &&& shows_hops(lead, d.hops)
    &&& text::opt_text(d.what_to_do) == action_text(lead, loudest(fs))
}

/// The entry's posture: the loudest of its chains.
pub fn entry_posture(fs: &[&Finding]) -> (r: Posture)
    ensures
        r == loudest(fs@),
{
    let mut p = Posture::Awaiting;
    let mut i: usize = 0;
    while i < fs.len()
        invariant
            i <= fs@.len(),
            p == loudest(fs@.take(i as int)),
        decreases fs@.len() - i,
    {
        assert(fs@.take(i + 1).drop_last() =~= fs@.take(i as int));
        p = max_posture(p, Posture::of_verdict(fs[i].verdict.as_ref()));
        i += 1;
    }
    assert(fs@.take(fs@.len() as int) =~= fs@);
    p
}

/// The chain that leads.
fn lead_finding<'a>(fs: &'a [&'a Finding]) -> (r: &'a Finding)
    requires
        fs@.len() > 0,
    ensures
        *r == lead_of(fs@),
{
    let mut best: usize = 0;
    let mut i: usize = 1;
    while i < fs.len()
        invariant
            1 <= i <= fs@.len(),
            best < i,
            best == lead_at(fs@, i as int),
        decreases fs@.len() - i,
    {
        let (x, y): (u8, u8) = (
            posture_rank(Posture::of_verdict(fs[i].verdict.as_ref())),
            posture_rank(Posture::of_verdict(fs[best].verdict.as_ref())),
        );
        if x >= y {
            best = i;
        }
        i += 1;
    }
    fs[best]
}

fn distinct_objectives(fs: &[&Finding]) -> (r: usize)
    ensures
        r == breadth(fs@),
{
    let mut s = TextSet::new();
    let mut i: usize = 0;
    while i < fs.len()
        invariant
            i <= fs@.len(),
            s.wf(),
            s@ == objectives(fs@, i as int),
        decreases fs@.len() - i,
    {
        s.insert(fs[i].objective.clone());
        i += 1;
    }
    s.len()
}

fn reaches_summary(fs: &[&Finding]) -> (r: String)
    requires
        fs@.len() > 0,
    ensures
        r@ == reaches_text(fs@),
{
    let n = distinct_objectives(fs);
    if n == 1 {
        NodeKey::short_of(fs[0].objective.as_str()).to_string()
    } else {
        text::number(n as u64).concat(" targets")
    }
}

fn weigh(d: Delta) -> (r: u8)
    ensures
        r == weight(d),
{
    match d {
        Delta::Escalated => 0,
        Delta::New => 1,
        Delta::DeEscalated => 2,
        Delta::Restored => 3,
        Delta::Unchanged => 4,
    }
}

fn endpoint_recency(fs: &[&Finding]) -> (r: Option<RecencyInfo>)
    ensures
        r == recency_of(fs@),
{
    let mut best: Option<RecencyInfo> = None;
    let mut i: usize = 0;
    while i < fs.len()
        invariant
            i <= fs@.len(),
            best == recency_of(fs@.take(i as int)),
        decreases fs@.len() - i,
    {
        assert(fs@.take(i + 1).drop_last() =~= fs@.take(i as int));
        match fs[i].recency {
            Some(b) => {
                best = match best {
                    Some(a) => if weigh(b.delta) < weigh(a.delta) {
                        Some(b)
                    } else {
                        Some(a)
                    },
                    None => Some(b),
                };
            },
            None => {},
        }
        i += 1;
    }
    assert(fs@.take(fs@.len() as int) =~= fs@);
    best
}

fn first_line(s: &str) -> (r: String)
    ensures
        r@ == text::trim(text::before(s@, "\n"@)),
{
    text::trimmed(text::head(s, "\n"))
}

fn clause_of(f: &Finding) -> (r: String)
    ensures
        r@ == clause_text(*f),
{
    match &f.verdict {
        Some(v) => {
            let s = v.summary();
            first_line(s.as_str())
        },
        None => String::new(),
    }
}

fn verbatim_verdict(f: &Finding) -> (r: String)
    ensures
        r@ == verdict_text(*f),
{
    match &f.verdict {
        Some(v) => v.summary(),
        None => "not yet judged \u{2014} the model has not reached this entry this run".to_string(),
    }
}

fn what_to_do(f: &Finding, posture: Posture) -> (r: Option<String>)
    ensures
        text::opt_text(r) == action_text(*f, posture),
{
    if !posture.is_breach() {
        return None;
    }
    let d = f.disposition.as_str();
    if text::has(d, "durable-fix") {
        Some(
            "open a PR to remove the grant/mount \u{2014} this path needs a durable fix".to_string(),
        )
    } else if text::has(d, "forbidden") {
        Some(
            "needs a human \u{2014} the only cut is an irreversible escape-primitive removal".to_string(),
        )
    } else if text::has(d, "no-cut") {
        Some("no single-edge cut severs this \u{2014} review the path".to_string())
    } else {
        Some(
            "arm the network class to apply the reversible isolation automatically".to_string(),
        )
    }
}

fn has_corroborated(fs: &[&Finding]) -> (r: bool)
    ensures
        r == any_corroborated(fs@),
{
    let mut i: usize = 0;
    while i < fs.len()
        invariant
            i <= fs@.len(),
            forall|k: int| 0 <= k < i ==> !(#[trigger] fs@[k]).corroborated,
        decreases fs@.len() - i,
    {
        if fs[i].corroborated {
            assert(fs@[i as int].corroborated);
            return true;
        }
        i += 1;
    }
    false
}

fn has_foothold(fs: &[&Finding]) -> (r: bool)
    ensures
        r == any_foothold(fs@),
{
    let mut i: usize = 0;
    while i < fs.len()
        invariant
            i <= fs@.len(),
            forall|k: int| 0 <= k < i ==> !(#[trigger] fs@[k]).foothold,
        decreases fs@.len() - i,
    {
        if fs[i].foothold {
            assert(fs@[i as int].foothold);
            return true;
        }
        i += 1;
    }
    false
}

fn delta_cell(r: &RecencyInfo) -> (c: DeltaCell)
    ensures
        shows_cell(Some(*r), Some(c)),
{
    let age = match r.age_secs {
        Some(secs) => Some(humanize_age(secs)),
        None => None,
    };
    DeltaCell { glyph: r.delta.glyph().to_string(), aria: r.delta.aria_label(&age) }
}

/// `detail-` and the slug of the entry.
pub fn detail_id(entry: &str) -> (r: String)
    ensures
        r@ == detail_id_text(entry@),
{
    "detail-".to_string().concat(text::slugged(entry).as_str())
}

/// An age in the largest unit that it fills.
pub fn humanize_age(secs: u64) -> (r: String)
    ensures
        r@ == age_text(secs as nat),
{
    human_age(secs)
}

/// How many seconds ago the last pass was, in words.
pub fn freshness(last_pass: Option<u64>) -> (r: String)
    ensures
        r@ == relative_text(last_pass),
{
    relative_time(last_pass)
}

/// The row of an entry with at least one chain.
pub fn row_props(entry: &str, fs: &[&Finding]) -> (r: RowProps)
    requires
        fs@.len() > 0,
    ensures
        shows_row(entry@, fs@, r),
{
    let lead = lead_finding(fs);
    let recency = endpoint_recency(fs);
    let (delta, age) = match &recency {
        Some(info) => (
            Some(delta_cell(info)),
            match info.age_secs {
                Some(secs) => Some(humanize_age(secs)),
                None => None,
            },
        ),
        None => (None, None),
    };
    RowProps {
        detail_id: detail_id(entry),
        posture: entry_posture(fs),
        entry: NodeKey::short_of(entry).to_string(),
        reaches: reaches_summary(fs),
        clause: clause_of(lead),
        glyphs: glyph_strip(&lead.evidence, has_corroborated(fs)),
        delta,
        age,
    }
}

/// What stands behind the row of an entry with at least one chain.
pub fn detail_props(entry: &str, fs: &[&Finding], raw_prompt: Option<String>) -> (r: DetailProps)
    requires
        fs@.len() > 0,
    ensures
        shows_detail(entry@, fs@, raw_prompt, r),
{
    let lead = lead_finding(fs);
    let posture = entry_posture(fs);
    DetailProps {
        detail_id: detail_id(entry),
        posture,
        verdict: verbatim_verdict(lead),
        raw_prompt,
        rail: Rail {
            proven: true,
            corroborated: has_corroborated(fs),
            internet_facing: has_foothold(fs),
            objectives: distinct_objectives(fs),
        },
        evidence: evidence_blocks(&lead.evidence),
        hops: hop_list(lead),
        what_to_do: what_to_do(lead, posture),
    }
}

// ---------------------------------------------------------------------------
// Laws
// ---------------------------------------------------------------------------

/// One breach makes the entry a breach, and the entry is never quieter than any of its chains.
pub proof fn entry_is_as_loud_as_its_chains(fs: Seq<&Finding>, i: int)
    requires
        0 <= i < fs.len(),
    ensures
        loudest(fs).loudness() >= Posture::of(fs[i].verdict).loudness(),
        Posture::of(fs[i].verdict) == Posture::Breach ==> loudest(fs) == Posture::Breach,
    decreases fs.len(),
{
    if i < fs.len() - 1 {
        entry_is_as_loud_as_its_chains(fs.drop_last(), i);
    }
}

proof fn lemma_lead(fs: Seq<&Finding>, n: int)
    requires
        1 <= n <= fs.len(),
    ensures
        0 <= lead_at(fs, n) < n,
        forall|i: int|
            0 <= i < n ==> Posture::of((#[trigger] fs[i]).verdict).loudness() <= Posture::of(
                fs[lead_at(fs, n)].verdict,
            ).loudness(),
    decreases n,
{
    if n > 1 {
        lemma_lead(fs, n - 1);
    }
}

/// The chain that leads has the entry's posture.
pub proof fn lead_carries_the_posture(fs: Seq<&Finding>)
    requires
        fs.len() > 0,
    ensures
        Posture::of(lead_of(fs).verdict) == loudest(fs),
{
    lemma_lead(fs, fs.len() as int);
    entry_is_as_loud_as_its_chains(fs, lead_at(fs, fs.len() as int));
    lemma_loudest_is_reached(fs);
}

proof fn lemma_loudest_is_reached(fs: Seq<&Finding>)
    requires
        fs.len() > 0,
    ensures
        exists|i: int| 0 <= i < fs.len() && Posture::of((#[trigger] fs[i]).verdict) == loudest(fs),
    decreases fs.len(),
{
    let last = fs.len() - 1;
    if fs.len() == 1 {
        assert(fs.drop_last().len() == 0);
        assert(loudest(fs.drop_last()) == Posture::Awaiting);
        assert(Posture::of(fs[0].verdict) == loudest(fs));
    } else {
        lemma_loudest_is_reached(fs.drop_last());
        let i = choose|i: int|
            0 <= i < fs.drop_last().len() && Posture::of((#[trigger] fs.drop_last()[i]).verdict)
                == loudest(fs.drop_last());
        assert(fs[i] == fs.drop_last()[i]);
        if loudest(fs) == loudest(fs.drop_last()) {
            assert(Posture::of(fs[i].verdict) == loudest(fs));
        } else {
            assert(Posture::of(fs[last].verdict) == loudest(fs));
        }
    }
}

/// Advice is given exactly for a breach.
pub proof fn advice_is_for_breaches_only(f: Finding, posture: Posture)
    ensures
        action_text(f, posture) is Some <==> posture == Posture::Breach,
{
}

} // verus!
