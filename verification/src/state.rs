//! The engine's read-only output state: what one pass found, how it was judged, and how well the
//! engine could see. The view models read these records; nothing here renders or decides.

use crate::graph::Behavior;
use crate::text;
use vstd::prelude::*;
use vstd::string::*;

verus! {

/// The model's decision on one exposed entry.
#[derive(Debug, Clone, PartialEq, Eq)]
pub enum Verdict {
    /// A live signal already corroborated the chain.
    Confirmed,
    /// The model affirmed that the path is exploitable, with its reason.
    Exploitable(String),
    /// The model judged the path not exploitable, with its reason.
    Refuted(String),
    /// The model could not tell, with its reason.
    Uncertain(String),
}

impl Verdict {
    /// The verdict in words: what was decided, and the model's own reason behind a dash.
    pub open spec fn summary_text(self) -> Seq<char> {
        match self {
            Verdict::Confirmed => "confirmed"@,
            Verdict::Exploitable(why) => "exploitable \u{2014} "@ + why@,
            Verdict::Refuted(why) => "not exploitable \u{2014} "@ + why@,
            Verdict::Uncertain(why) => "uncertain \u{2014} "@ + why@,
        }
    }

    /// The verdict in words.
    pub fn summary(&self) -> (r: String)
        ensures
            r@ == self.summary_text(),
    {
        match self {
            Verdict::Confirmed => "confirmed".to_string(),
            Verdict::Exploitable(why) => "exploitable \u{2014} ".to_string().concat(why.as_str()),
            Verdict::Refuted(why) => "not exploitable \u{2014} ".to_string().concat(why.as_str()),
            Verdict::Uncertain(why) => "uncertain \u{2014} ".to_string().concat(why.as_str()),
        }
    }
}

/// One step of a proven path: a relation between two nodes, by their full keys.
#[derive(Debug, Clone, PartialEq, Eq)]
pub struct PathStep {
    pub from: String,
    pub relation: String,
    pub to: String,
}

impl PathStep {
    /// `from -[relation]-> to`, the form in which a cut is recorded.
    pub open spec fn signature_text(self) -> Seq<char> {
        self.from@ + " -["@ + self.relation@ + "]-> "@ + self.to@
    }

    /// `from -[relation]-> to`.
    pub fn signature(&self) -> (r: String)
        ensures
            r@ == self.signature_text(),
    {
        self.from.clone().concat(" -[").concat(self.relation.as_str()).concat("]-> ").concat(
            self.to.as_str(),
        )
    }
}

/// One CVE on an entry's image, already in words.
///
/// `score` and `epss` are the tokens shown (`9.8`, `90%`). `score_rank` and `epss_rank` order the
/// tokens by the number they hold: a greater number has a greater rank, and a token that is absent
/// or holds no number has rank 0.
#[derive(Debug, Clone, PartialEq, Eq)]
pub struct CveEvidence {
    pub id: String,
    pub severity: String,
    pub score: Option<String>,
    pub score_rank: u64,
    pub kev: bool,
    pub epss: Option<String>,
    pub epss_rank: u64,
    pub reachability: String,
    pub fix: String,
    /// The weakness classes it falls in.
    pub cwe: Vec<String>,
    pub title: Option<String>,
}

/// One scanner finding on an entry: an exposed secret, a failed configuration check or a failed
/// RBAC check.
#[derive(Debug, Clone, PartialEq, Eq)]
pub struct FindingEvidence {
    pub id: String,
    pub severity: String,
    pub category: Option<String>,
    pub title: Option<String>,
}

/// Everything observed about an entry.
#[derive(Debug, Clone, PartialEq, Eq)]
pub struct EntryEvidence {
    pub cves: Vec<CveEvidence>,
    pub runtime: Vec<Behavior>,
    pub exposed_secrets: Vec<FindingEvidence>,
    pub misconfigs: Vec<FindingEvidence>,
    pub rbac_findings: Vec<FindingEvidence>,
}

impl EntryEvidence {
    /// Nothing was observed.
    pub open spec fn none(self) -> bool {
        &&& self.cves@.len() == 0
        &&& self.runtime@.len() == 0
        &&& self.exposed_secrets@.len() == 0
        &&& self.misconfigs@.len() == 0
        &&& self.rbac_findings@.len() == 0
    }
}

impl Default for EntryEvidence {
    fn default() -> (r: Self)
        ensures
            r.none(),
    {
        EntryEvidence {
            cves: Vec::new(),
            runtime: Vec::new(),
            exposed_secrets: Vec::new(),
            misconfigs: Vec::new(),
            rbac_findings: Vec::new(),
        }
    }
}

/// How an entry changed since the pass before.
#[derive(Debug, Clone, Copy, PartialEq, Eq, Structural)]
pub enum Delta {
    New,
    Escalated,
    DeEscalated,
    Unchanged,
    Restored,
}

impl Delta {
    /// The change as one mark; a change that needs no attention has a dot.
    pub open spec fn glyph_text(self) -> Seq<char> {
        match self {
            Delta::New => "NEW"@,
            Delta::Escalated => "\u{2191}"@,
            Delta::DeEscalated => "\u{2193}"@,
            Delta::Unchanged => "\u{b7}"@,
            Delta::Restored => "\u{b7}"@,
        }
    }

    /// The change as one mark.
    pub fn glyph(self) -> (r: &'static str)
        ensures
            r@ == self.glyph_text(),
    {
        match self {
            Delta::New => "NEW",
            Delta::Escalated => "\u{2191}",
            Delta::DeEscalated => "\u{2193}",
            Delta::Unchanged => "\u{b7}",
            Delta::Restored => "\u{b7}",
        }
    }

    /// The change in words; a steady entry says its age where one is known.
    pub open spec fn words(self, age: Option<Seq<char>>) -> Seq<char> {
        match self {
            Delta::New => "new this pass"@,
            Delta::Escalated => "escalated"@,
            Delta::DeEscalated => "de-escalated"@,
            Delta::Restored => "restored"@,
            Delta::Unchanged => match age {
                Some(a) => "steady \u{b7} "@ + a,
                None => "steady"@,
            },
        }
    }

    /// The change in words.
    pub fn aria_label(self, age: &Option<String>) -> (r: String)
        ensures
            r@ == self.words(text::opt_text(*age)),
    {
        match self {
            Delta::New => "new this pass".to_string(),
            Delta::Escalated => "escalated".to_string(),
            Delta::DeEscalated => "de-escalated".to_string(),
            Delta::Restored => "restored".to_string(),
            Delta::Unchanged => match age {
                Some(a) => "steady \u{b7} ".to_string().concat(a.as_str()),
                None => "steady".to_string(),
            },
        }
    }
}

/// An entry's change and its age in seconds, where one is known.
#[derive(Debug, Clone, Copy, PartialEq, Eq)]
pub struct RecencyInfo {
    pub delta: Delta,
    pub age_secs: Option<u64>,
}

/// One proven chain from an exposed entry to an objective, with its verdict and evidence.
#[derive(Debug, Clone, PartialEq, Eq)]
pub struct Finding {
    /// The entry's full node key.
    pub entry: String,
    /// The objective's full node key.
    pub objective: String,
    /// The entry is an internet-facing front door.
    pub foothold: bool,
    /// A live runtime signal corroborated the chain.
    pub corroborated: bool,
    /// What the engine would do about it mechanically.
    pub disposition: String,
    /// The signature of the single edge that severs the chain, if there is one.
    pub cut: Option<String>,
    /// Whether the chain bears on a breach at all.
    pub breach_relevant: bool,
    /// The model's decision, once there is one.
    pub verdict: Option<Verdict>,
    /// The shortest proven path.
    pub path: Vec<PathStep>,
    /// Every proven path, bounded.
    pub paths: Vec<Vec<PathStep>>,
    /// More proven paths exist than `paths` holds.
    pub paths_truncated: bool,
    pub evidence: EntryEvidence,
    pub recency: Option<RecencyInfo>,
    /// The cluster node the entry's workload runs on, where it is known.
    pub node: Option<String>,
}

/// One proven chain as the endpoint table reads it: its verdict is the model's own words, and its
/// technique comes with its name.
#[derive(Debug, Clone, PartialEq, Eq)]
pub struct EndpointFinding {
    pub entry: String,
    pub objective: String,
    pub tactic: String,
    pub tactic_name: String,
    pub technique: String,
    pub technique_name: String,
    pub foothold: bool,
    pub corroborated: bool,
    pub adjudicated: bool,
    pub promoted: bool,
    pub disposition: String,
    pub cut: Option<String>,
    pub breach_relevant: bool,
    pub killchain: String,
    /// The model's words, once it has judged the entry.
    pub verdict: Option<String>,
    pub path: Vec<PathStep>,
    pub evidence: EntryEvidence,
    pub recency: Option<RecencyInfo>,
}

/// One call of the model: what it saw, what it said, and what was decided.
#[derive(Debug, Clone, PartialEq, Eq)]
pub struct Judgement {
    pub entry: String,
    pub objectives: usize,
    pub verdict: String,
    /// `None` when the deterministic pre-filter decided without the model.
    pub prompt: Option<String>,
    /// `None` when the model did not answer in time.
    pub reply: Option<String>,
}

/// A cut that was lifted again, and when (milliseconds since the Unix epoch).
#[derive(Debug, Clone, PartialEq, Eq)]
pub struct ReversionRecord {
    pub cut: String,
    pub reason: String,
    pub at_ms: u64,
}

/// The live state of one decision input.
#[derive(Debug, Clone, Copy, PartialEq, Eq, Structural)]
pub enum InputState {
    /// Wired and contributing.
    Present,
    /// Never configured, or loaded empty.
    Absent,
    /// Configured and only partly answering.
    Degraded,
    /// Expected and wholly dark this pass.
    Blind,
    /// Was covering, and went wholly dark.
    Stalled,
}

/// What a cluster node's runtime sensor reports.
#[derive(Debug, Clone, Copy, PartialEq, Eq, Structural)]
pub enum NodeCoverageState {
    Healthy,
    Degraded,
    Blind,
    OutOfScope,
}

/// One cluster node's runtime coverage.
#[derive(Debug, Clone, PartialEq, Eq)]
pub struct NodeCoverageRow {
    pub node: String,
    pub state: NodeCoverageState,
    pub detail: String,
}

/// One decision input: its state, why it matters, and how to enable it.
#[derive(Debug, Clone, PartialEq, Eq)]
pub struct ReadinessRow {
    pub id: String,
    pub label: String,
    pub state: InputState,
    pub why: String,
    pub enable: String,
    pub detail: String,
    /// Whether the model's decision is weaker without this input.
    pub weakens_decisions: bool,
    pub nodes: Vec<NodeCoverageRow>,
}

/// Whether the agent corroborates what another sensor does.
#[derive(Debug, Clone, Copy, PartialEq, Eq, Structural)]
pub enum ParityState {
    NothingToCompare,
    Uncovered,
    Parity,
}

/// The comparison of two corroboration sources.
#[derive(Debug, Clone, PartialEq, Eq)]
pub struct ParityReport {
    pub state: ParityState,
    pub summary: String,
    pub falco_corroborated: usize,
    pub agent_corroborated: usize,
    pub both: usize,
    pub agent_uncovered: usize,
    pub uncovered_entries: Vec<String>,
}

/// How well the engine can see and judge right now.
#[derive(Debug, Clone, PartialEq, Eq)]
pub struct Readiness {
    pub inputs: Vec<ReadinessRow>,
    /// No pass has completed yet.
    pub warming_up: bool,
    /// The model is attached and its last call was decisive.
    pub model_judging: bool,
    pub parity: ParityReport,
}

/// The position of the first row with the id `id`.
pub open spec fn row_at(rows: Seq<ReadinessRow>, id: Seq<char>, from: int) -> Option<int>
    decreases rows.len() - from,
{
    if from < 0 || from >= rows.len() {
        None
    } else if rows[from].id@ == id {
        Some(from)
    } else {
        row_at(rows, id, from + 1)
    }
}

impl Readiness {
    /// The first row with the id `id`.
    pub open spec fn row(self, id: Seq<char>) -> Option<ReadinessRow> {
        match row_at(self.inputs@, id, 0) {
            Some(i) => Some(self.inputs@[i]),
            None => None,
        }
    }

    /// The first row with the id `id`.
    pub fn find_row(&self, id: &str) -> (r: Option<&ReadinessRow>)
        ensures
            r matches Some(row) ==> self.row(id@) == Some(*row),
            r is None ==> self.row(id@) is None,
    {
        let mut i: usize = 0;
        while i < self.inputs.len()
            invariant
                i <= self.inputs.len(),
                row_at(self.inputs@, id@, 0) == row_at(self.inputs@, id@, i as int),
            decreases self.inputs.len() - i,
        {
            if text::same(self.inputs[i].id.as_str(), id) {
                return Some(&self.inputs[i]);
            }
            i += 1;
        }
        None
    }

    /// Whether a model is configured at all: the model row is there and not absent.
    pub open spec fn has_model(self) -> bool {
        self.row("model"@) matches Some(r) && r.state != InputState::Absent
    }

    /// Whether a model is configured at all.
    pub fn model_attached(&self) -> (r: bool)
        ensures
            r == self.has_model(),
    {
        match self.find_row("model") {
            Some(row) => row.state != InputState::Absent,
            None => false,
        }
    }
}

/// A covering feed that went dark.
#[derive(Debug, Clone, PartialEq, Eq)]
pub struct CoverageAlert {
    pub feed_label: String,
    pub last_observation: Option<String>,
    pub message: String,
}

/// The register of runtime coverage across passes.
#[derive(Debug, Clone, PartialEq, Eq)]
pub enum CoverageState {
    Covered,
    Degraded,
    Absent,
    Stalled(CoverageAlert),
}

/// One deduplicated admission decision, or one observation the signing sweep recorded beside them.
#[derive(Debug, Clone, PartialEq, Eq)]
pub struct PolicyDecisionRecord {
    pub policy: String,
    pub decision: String,
    pub subject: String,
    pub image: String,
    pub signature: String,
    pub mesh: String,
    pub namespace: String,
    pub reason: String,
    /// Whether it would be admitted if every gate were enforced.
    pub would_admit: bool,
    /// How often it was seen.
    pub count: u64,
    /// When it was last seen, in milliseconds since the Unix epoch.
    pub at_ms: u64,
}

/// The tier a caller's verified claim grants.
#[derive(Debug, Clone, Copy, PartialEq, Eq, Structural)]
pub enum Tier {
    Redacted,
    Forensic,
    Raw,
}

impl Tier {
    /// The tiers in order: each reveals what the one below it does, and more.
    pub open spec fn level(self) -> int {
        match self {
            Tier::Redacted => 0,
            Tier::Forensic => 1,
            Tier::Raw => 2,
        }
    }

    /// Whether a caller of this tier may see what `other` reveals.
    pub fn includes(self, other: Tier) -> (r: bool)
        ensures
            r == (self.level() >= other.level()),
    {
        match self {
            Tier::Raw => true,
            Tier::Forensic => other != Tier::Raw,
            Tier::Redacted => other == Tier::Redacted,
        }
    }
}

/// The tier a disclosure was rendered at.
#[derive(Debug, Clone, Copy, PartialEq, Eq, Structural)]
pub enum EffectiveTier {
    Redacted,
    Forensic,
    Raw,
}

/// One audited disclosure.
#[derive(Debug, Clone, PartialEq, Eq)]
pub struct AccessRecord {
    pub time_unix_secs: u64,
    pub subject: String,
    pub tool: String,
    pub tier: EffectiveTier,
    /// The workload that was asked about, or the label of a bulk pull.
    pub entry: String,
}

} // verus!
