//! Which rows ask for attention, and what changed: an order of the view, never a gate.

use crate::state::{Delta, EndpointFinding, RecencyInfo};
use crate::text;
use crate::view_model::endpoints::words::{cve_id, cve_text, flagged, flags, Tier};
use crate::view_model::posture::{age_text, human_age, opt_age_text};
use vstd::prelude::*;
use vstd::string::*;

verus! {

// ---------------------------------------------------------------------------
// Attention
// ---------------------------------------------------------------------------

/// A verdict cites a CVE.
pub open spec fn cites_cve(verdict: Option<Seq<char>>) -> bool {
    verdict matches Some(v) && cve_text(v) is Some
}

/// The attention a finding asks for; less is more: flagged by the model, a latent foothold with a
/// cited CVE, corroborated, the rest.
pub open spec fn priority_of(f: EndpointFinding) -> int {
    let verdict = text::opt_text(f.verdict);
    if flags(verdict) {
        0
    } else if text::contains(f.disposition@, "latent foothold"@) && cites_cve(verdict) {
        1
    } else if f.corroborated {
        2
    } else {
        3
    }
}

/// The tier of a priority.
pub open spec fn tier_for(priority: int) -> Tier {
    if priority == 0 {
        Tier::Flagged
    } else if priority == 1 || priority == 2 {
        Tier::Watch
    } else {
        Tier::Context
    }
}

/// The least priority among findings: 3 where there is none.
pub open spec fn worst_priority(fs: Seq<&EndpointFinding>) -> int
    decreases fs.len(),
{
    if fs.len() == 0 {
        3
    } else {
        let rest = worst_priority(fs.drop_last());
        let last = priority_of(*fs.last());
        if last < rest {
            last
        } else {
            rest
        }
    }
}

fn as_slice(o: &Option<String>) -> (r: Option<&str>)
    ensures
        text::opt_str(r) == text::opt_text(*o),
{
    match o {
        Some(s) => Some(s.as_str()),
        None => None,
    }
}

/// The attention a finding asks for.
pub fn attention_priority(f: &EndpointFinding) -> (r: u8)
    ensures
        r == priority_of(*f),
        r <= 3,
{
    if flagged(as_slice(&f.verdict)) {
        return 0;
    }
    let cited = match &f.verdict {
        Some(v) => cve_id(v.as_str()).is_some(),
        None => false,
    };
    if text::has(f.disposition.as_str(), "latent foothold") && cited {
        1
    } else if f.corroborated {
        2
    } else {
        3
    }
}

/// The tier of a priority.
pub fn tier_of_priority(priority: u8) -> (r: Tier)
    ensures
        r == tier_for(priority as int),
{
    if priority == 0 {
        Tier::Flagged
    } else if priority == 1 || priority == 2 {
        Tier::Watch
    } else {
        Tier::Context
    }
}

/// The attention a finding asks for, and its tier.
pub fn attention_rank(f: &EndpointFinding) -> (r: (u8, Tier))
    ensures
        r.0 == priority_of(*f),
        r.1 == tier_for(priority_of(*f)),
{
    let priority = attention_priority(f);
    (priority, tier_of_priority(priority))
}

/// The attention a row asks for: that of its most urgent finding.
pub fn endpoint_attention_rank(fs: &[&EndpointFinding]) -> (r: (u8, Tier))
    ensures
        r.0 == worst_priority(fs@),
        r.1 == tier_for(worst_priority(fs@)),
{
    let mut worst: u8 = 3;
    let mut i: usize = 0;
    while i < fs.len()
        invariant
            i <= fs@.len(),
            worst == worst_priority(fs@.take(i as int)),
        decreases fs@.len() - i,
    {
        assert(fs@.take(i + 1).drop_last() =~= fs@.take(i as int));
        let p = attention_priority(fs[i]);
        if p < worst {
            worst = p;
        }
        i += 1;
    }
    assert(fs@.take(fs@.len() as int) =~= fs@);
    (worst, tier_of_priority(worst))
}

// ---------------------------------------------------------------------------
// Recency
// ---------------------------------------------------------------------------

/// A row id: `row-` and the entry with every unsafe character replaced by a hyphen.
pub open spec fn row_id_text(entry: Seq<char>) -> Seq<char> {
    "row-"@ + entry.map_values(
        |c: char|
            if text::is_alnum(c) || c == '-' || c == '_' {
                c
            } else {
                '-'
            },
    )
}

/// A row id.
pub fn row_id(entry: &str) -> (r: String)
    ensures
        r@ == row_id_text(entry@),
{
    let ghost f = |c: char|
        if text::is_alnum(c) || c == '-' || c == '_' {
            c
        } else {
            '-'
        };
    let cs = text::chars_of(entry);
    let mut r = "row-".to_string();
    let mut i: usize = 0;
    assert(r@ =~= "row-"@ + entry@.take(0).map_values(f));
    while i < cs.len()
        invariant
            cs@ == entry@,
            i <= cs.len(),
            f == |c: char|
                if text::is_alnum(c) || c == '-' || c == '_' {
                    c
                } else {
                    '-'
                },
            r@ == "row-"@ + entry@.take(i as int).map_values(f),
        decreases cs.len() - i,
    {
        let c = cs[i];
        if text::is_alnum_char(c) || c == '-' || c == '_' {
            r.push(c);
        } else {
            r.push('-');
        }
        i += 1;
        assert(r@ =~= "row-"@ + entry@.take(i as int).map_values(f));
    }
    assert(entry@.take(entry@.len() as int) =~= entry@);
    r
}

/// The change of a row in one cell.
#[derive(Debug, Clone, PartialEq, Eq)]
pub struct RecencyCell {
    pub glyph: String,
    pub aria_label: String,
    pub tone: &'static str,
}

/// `c` shows the change: a mark for one that needs attention, else the age.
pub open spec fn shows_recency(recency: Option<RecencyInfo>, c: RecencyCell) -> bool {
    match recency {
        None => {
            &&& c.glyph@ == "\u{b7}"@
            &&& c.aria_label@ == "no recency yet"@
            &&& c.tone@ == "rc-steady"@
        },
        Some(r) => {
            let age = opt_age_text(r.age_secs);
            &&& c.tone@ == (match r.delta {
                Delta::New => "rc-new"@,
                Delta::Escalated => "rc-up"@,
                Delta::DeEscalated => "rc-down"@,
                Delta::Unchanged => "rc-steady"@,
                Delta::Restored => "rc-steady"@,
            })
            &&& c.glyph@ == (if r.delta == Delta::Unchanged || r.delta == Delta::Restored {
                match age {
                    Some(a) => a,
                    None => "\u{b7}"@,
                }
            } else {
                r.delta.glyph_text()
            })
            &&& c.aria_label@ == r.delta.words(age)
        },
    }
}

/// An age in the largest unit that it fills.
pub fn humanize_age_secs(secs: u64) -> (r: String)
    ensures
        r@ == age_text(secs as nat),
{
    human_age(secs)
}

/// The change of a row in one cell.
pub fn recency_cell(recency: Option<&RecencyInfo>) -> (r: RecencyCell)
    ensures
        shows_recency(
            match recency {
                Some(i) => Some(*i),
                None => None,
            },
            r,
        ),
{
    match recency {
        None => RecencyCell {
            glyph: "\u{b7}".to_string(),
            aria_label: "no recency yet".to_string(),
            tone: "rc-steady",
        },
        Some(r) => {
            let age = match r.age_secs {
                Some(secs) => Some(humanize_age_secs(secs)),
                None => None,
            };
            let aria_label = r.delta.aria_label(&age);
            let tone = match r.delta {
                Delta::New => "rc-new",
                Delta::Escalated => "rc-up",
                Delta::DeEscalated => "rc-down",
                Delta::Unchanged => "rc-steady",
                Delta::Restored => "rc-steady",
            };
            let steady = match r.delta {
                Delta::Unchanged => true,
                Delta::Restored => true,
                _ => false,
            };
            let glyph = if steady {
                match age {
                    Some(a) => a,
                    None => "\u{b7}".to_string(),
                }
            } else {
                r.delta.glyph().to_string()
            };
            RecencyCell { glyph, aria_label, tone }
        },
    }
}

/// How noteworthy a change is; less is more.
pub open spec fn weight(d: Delta) -> int {
    match d {
        Delta::Escalated => 0,
        Delta::New => 1,
        Delta::DeEscalated => 2,
        Delta::Restored => 3,
        Delta::Unchanged => 4,
    }
}

/// The most noteworthy change among findings, the first of those that tie.
pub open spec fn noteworthy(fs: Seq<&EndpointFinding>) -> Option<RecencyInfo>
    decreases fs.len(),
{
    if fs.len() == 0 {
        None
    } else {
        match (noteworthy(fs.drop_last()), fs.last().recency) {
            (Some(a), Some(b)) => if weight(b.delta) < weight(a.delta) {
                Some(b)
            } else {
                Some(a)
            },
            (None, b) => b,
            (a, None) => a,
        }
    }
}

fn weigh(d: Delta) -> (r: u8)
    ensures
        r == weight(d),
{
    match d {
        Delta::Escalated => 0,
        Delta::New => 1,
        Delta::DeEscalated => 2,
        Delta::Restored => 3,
        Delta::Unchanged => 4,
    }
}

/// The most noteworthy change among the findings of a row.
pub fn endpoint_recency(fs: &[&EndpointFinding]) -> (r: Option<RecencyInfo>)
    ensures
        r == noteworthy(fs@),
{
    let mut best: Option<RecencyInfo> = None;
    let mut i: usize = 0;
    while i < fs.len()
        invariant
            i <= fs@.len(),
            best == noteworthy(fs@.take(i as int)),
        decreases fs@.len() - i,
    {
        assert(fs@.take(i + 1).drop_last() =~= fs@.take(i as int));
        match fs[i].recency {
            Some(b) => {
                best = match best {
                    Some(a) => if weigh(b.delta) < weigh(a.delta) {
                        Some(b)
                    } else {
                        Some(a)
                    },
                    None => Some(b),
                };
            },
            None => {},
        }
        i += 1;
    }
    assert(fs@.take(fs@.len() as int) =~= fs@);
    best
}

/// How many rows are new, and how many newly flagged.
#[derive(Debug, Clone, Copy, PartialEq, Eq)]
pub struct RecencyTally {
    pub new: usize,
    pub newly_flagged: usize,
}

impl RecencyTally {
    /// Whether there is nothing to announce.
    pub fn is_empty(self) -> (r: bool)
        ensures
            r == (self.new == 0 && self.newly_flagged == 0),
    {
        self.new == 0 && self.newly_flagged == 0
    }
}

impl Default for RecencyTally {
    fn default() -> (r: Self)
        ensures
            r == (RecencyTally { new: 0, newly_flagged: 0 }),
    {
        RecencyTally { new: 0, newly_flagged: 0 }
    }
}

/// How many of the groups have this as their most noteworthy change.
pub open spec fn changed(groups: Seq<&[&EndpointFinding]>, d: Delta) -> int
    decreases groups.len(),
{
    if groups.len() == 0 {
        0
    } else {
        changed(groups.drop_last(), d) + (match noteworthy(groups.last()@) {
            Some(r) => if r.delta == d {
                1int
            } else {
                0int
            },
            None => 0int,
        })
    }
}

/// How many rows are new, and how many newly flagged: one count per row.
pub fn recency_tally(groups: &[&[&EndpointFinding]]) -> (r: RecencyTally)
    ensures
        r.new == changed(groups@, Delta::New),
        r.newly_flagged == changed(groups@, Delta::Escalated),
{
    let mut tally = RecencyTally::default();
    let mut i: usize = 0;
    while i < groups.len()
        invariant
            i <= groups@.len(),
            tally.new <= i,
            tally.newly_flagged <= i,
            tally.new == changed(groups@.take(i as int), Delta::New),
            tally.newly_flagged == changed(groups@.take(i as int), Delta::Escalated),
        decreases groups@.len() - i,
    {
        assert(groups@.take(i + 1).drop_last() =~= groups@.take(i as int));
        match endpoint_recency(groups[i]) {
            Some(r) => match r.delta {
                Delta::New => {
                    tally.new += 1;
                },
                Delta::Escalated => {
                    tally.newly_flagged += 1;
                },
                _ => {},
            },
            None => {},
        }
        i += 1;
    }
    assert(groups@.take(groups@.len() as int) =~= groups@);
    tally
}

// ---------------------------------------------------------------------------
// Laws
// ---------------------------------------------------------------------------

/// A row takes the worst case of its findings: it asks for at least the attention of each.
pub proof fn row_takes_the_worst_case(fs: Seq<&EndpointFinding>, i: int)
    requires
        0 <= i < fs.len(),
    ensures
        worst_priority(fs) <= priority_of(*fs[i]),
    decreases fs.len(),
{
    if i < fs.len() - 1 {
        row_takes_the_worst_case(fs.drop_last(), i);
    }
}

/// A flagged finding puts its row in the top tier, and nothing else does.
pub proof fn flagged_tier_is_the_models_call(f: EndpointFinding)
    ensures
        tier_for(priority_of(f)) == Tier::Flagged <==> flags(text::opt_text(f.verdict)),
{
}

/// An entry that was never seen to change does not read as new.
pub proof fn no_recency_is_not_new(c: RecencyCell)
    requires
        shows_recency(None, c),
    ensures
        c.tone@ != "rc-new"@,
{
    reveal_strlit("rc-steady");
    reveal_strlit("rc-new");
    assert("rc-steady"@.len() == 9 && "rc-new"@.len() == 6);
}

} // verus!
