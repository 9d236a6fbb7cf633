//! What the Findings view shows: a posture, the evidence, the proven paths and the judgement behind
//! each row.

use crate::props::alerts::AlertProps;
use crate::props::status::StatusStripProps;
use vstd::prelude::*;
use vstd::string::*;

verus! {

/// The model's posture on a finding. Only [`Posture::Cleared`] is calm: what is uncertain or still
/// awaiting judgement is not safe.
#[derive(Debug, Clone, Copy, PartialEq, Eq, Structural)]
pub enum Posture {
    /// The model affirmed an exploitable breach.
    Breach,
    /// The model judged the path not exploitable.
    Cleared,
    /// The model could not tell.
    Uncertain,
    /// There is no verdict yet.
    Awaiting,
}

impl Posture {
    /// The style token of the posture.
    pub open spec fn token_text(self) -> Seq<char> {
        match self {
            Posture::Breach => "breach"@,
            Posture::Cleared => "cleared"@,
            Posture::Uncertain => "uncertain"@,
            Posture::Awaiting => "awaiting"@,
        }
    }

    /// The style token of the posture.
    pub fn token(self) -> (r: &'static str)
        ensures
            r@ == self.token_text(),
    {
        match self {
            Posture::Breach => "breach",
            Posture::Cleared => "cleared",
            Posture::Uncertain => "uncertain",
            Posture::Awaiting => "awaiting",
        }
    }

    /// The glyph that carries the posture without colour.
    pub open spec fn glyph_text(self) -> Seq<char> {
        match self {
            Posture::Breach => "\u{25cf}"@,
            Posture::Cleared => "\u{25cb}"@,
            Posture::Uncertain => "\u{25d0}"@,
            Posture::Awaiting => "\u{25cc}"@,
        }
    }

    /// The glyph that carries the posture without colour.
    pub fn glyph(self) -> (r: &'static str)
        ensures
            r@ == self.glyph_text(),
    {
        match self {
            Posture::Breach => "\u{25cf}",
            Posture::Cleared => "\u{25cb}",
            Posture::Uncertain => "\u{25d0}",
            Posture::Awaiting => "\u{25cc}",
        }
    }

    /// The posture in words.
    pub open spec fn word_text(self) -> Seq<char> {
        match self {
            Posture::Breach => "BREACH"@,
            Posture::Cleared => "no exploit evidence"@,
            Posture::Uncertain => "uncertain"@,
            Posture::Awaiting => "awaiting judgement"@,
        }
    }

    /// The posture in words.
    pub fn word(self) -> (r: &'static str)
        ensures
            r@ == self.word_text(),
    {
        match self {
            Posture::Breach => "BREACH",
            Posture::Cleared => "no exploit evidence",
            Posture::Uncertain => "uncertain",
            Posture::Awaiting => "awaiting judgement",
        }
    }

    /// Whether this is the one calm posture.
    pub fn is_cleared(self) -> (r: bool)
        ensures
            r == (self == Posture::Cleared),
    {
        self == Posture::Cleared
    }
}

/// Whether a breach rests on a live signal or on the model alone.
#[derive(Debug, Clone, Copy, PartialEq, Eq, Structural)]
pub enum LiveTag {
    /// Corroborated by a runtime signal.
    Live,
    /// Promoted by the model only.
    Judged,
    /// No breach.
    Untagged,
}

/// How an entry changed since the pass before.
#[derive(Debug, Clone, PartialEq, Eq)]
pub enum DeltaProps {
    New,
    Escalated,
    DeEscalated,
    /// Steady; shows its age where one is known, and no alarm glyph.
    Unchanged { age: Option<String> },
    Restored,
}

impl DeltaProps {
    /// The style token, or none for the muted steady case.
    pub fn token(&self) -> (r: Option<&'static str>)
        ensures
            match self {
                DeltaProps::New => r matches Some(t) && t@ == "new"@,
                DeltaProps::Escalated => r matches Some(t) && t@ == "up"@,
                DeltaProps::DeEscalated => r matches Some(t) && t@ == "down"@,
                DeltaProps::Restored => r matches Some(t) && t@ == "restored"@,
                DeltaProps::Unchanged { age } => r is None,
            },
    {
        match self {
            DeltaProps::New => Some("new"),
            DeltaProps::Escalated => Some("up"),
            DeltaProps::DeEscalated => Some("down"),
            DeltaProps::Restored => Some("restored"),
            DeltaProps::Unchanged { age } => None,
        }
    }

    /// The glyph of the change; a steady entry has none.
    pub fn glyph(&self) -> (r: &'static str)
        ensures
            r@ == (match self {
                DeltaProps::New => "\u{2605}"@,
                DeltaProps::Escalated => "\u{25b2}"@,
                DeltaProps::DeEscalated => "\u{25bc}"@,
                DeltaProps::Restored => "\u{21ba}"@,
                DeltaProps::Unchanged { age } => ""@,
            }),
    {
        match self {
            DeltaProps::New => "\u{2605}",
            DeltaProps::Escalated => "\u{25b2}",
            DeltaProps::DeEscalated => "\u{25bc}",
            DeltaProps::Restored => "\u{21ba}",
            DeltaProps::Unchanged { age } => "",
        }
    }

    /// The change in words.
    pub open spec fn label_text(self) -> Seq<char> {
        match self {
            DeltaProps::New => "new this pass"@,
            DeltaProps::Escalated => "escalated"@,
            DeltaProps::DeEscalated => "de-escalated"@,
            DeltaProps::Restored => "restored"@,
            DeltaProps::Unchanged { age: Some(a) } => "steady \u{b7} "@ + a@,
            DeltaProps::Unchanged { age: None } => "steady"@,
        }
    }

    /// A short label for the change.
    pub fn label(&self) -> (r: String)
        ensures
            r@ == self.label_text(),
    {
        match self {
            DeltaProps::New => "new this pass".to_string(),
            DeltaProps::Escalated => "escalated".to_string(),
            DeltaProps::DeEscalated => "de-escalated".to_string(),
            DeltaProps::Restored => "restored".to_string(),
            DeltaProps::Unchanged { age: Some(a) } => "steady \u{b7} ".to_string().concat(a.as_str()),
            DeltaProps::Unchanged { age: None } => "steady".to_string(),
        }
    }
}

/// One CVE row.
#[derive(Debug, Clone, PartialEq, Eq)]
pub struct CveProps {
    pub id: String,
    pub severity: String,
    pub score: Option<String>,
    pub kev: bool,
    pub epss: Option<String>,
    pub reachability: String,
    pub fix: String,
    pub title: Option<String>,
}

/// One scanner finding row.
#[derive(Debug, Clone, PartialEq, Eq)]
pub struct ScanProps {
    pub id: String,
    pub severity: String,
    pub category: Option<String>,
    pub title: Option<String>,
}

/// One runtime behavior line.
#[derive(Debug, Clone, PartialEq, Eq)]
pub struct BehaviorProps {
    pub variant: String,
    pub summary: String,
    /// Whether it corroborates the chain.
    pub corroborating: bool,
}

/// One hop of a proven path.
#[derive(Debug, Clone, PartialEq, Eq)]
pub struct HopProps {
    pub from: String,
    pub from_glyph: String,
    pub relation: String,
    pub to: String,
    pub to_glyph: String,
    /// A substrate hop, shown muted.
    pub structural: bool,
    /// The proposed cut severs here.
    pub is_cut: bool,
    /// The edge stands in every one of several proven paths.
    pub shared: bool,
}

/// What the model saw and said.
#[derive(Debug, Clone, PartialEq, Eq)]
pub struct JudgementProps {
    pub prompt: Option<String>,
    pub reply: Option<String>,
    pub verdict: Option<String>,
}

impl Default for JudgementProps {
    fn default() -> (r: Self)
        ensures
            r == (JudgementProps { prompt: None, reply: None, verdict: None }),
    {
        JudgementProps { prompt: None, reply: None, verdict: None }
    }
}

/// All the evidence on an entry, by kind.
#[derive(Debug, Clone, PartialEq, Eq)]
pub struct EvidenceProps {
    pub cves: Vec<CveProps>,
    pub corroborating: Vec<BehaviorProps>,
    pub context: Vec<BehaviorProps>,
    pub exposed_secrets: Vec<ScanProps>,
    pub misconfigs: Vec<ScanProps>,
    pub rbac_findings: Vec<ScanProps>,
}

impl EvidenceProps {
    /// There is nothing to show.
    pub open spec fn empty(self) -> bool {
        &&& self.cves@.len() == 0
        &&& self.corroborating@.len() == 0
        &&& self.context@.len() == 0
        &&& self.exposed_secrets@.len() == 0
        &&& self.misconfigs@.len() == 0
        &&& self.rbac_findings@.len() == 0
    }

    /// Whether there is no evidence at all.
    pub fn is_empty(&self) -> (r: bool)
        ensures
            r == self.empty(),
    {
        self.cves.len() == 0 && self.corroborating.len() == 0 && self.context.len() == 0
            && self.exposed_secrets.len() == 0 && self.misconfigs.len() == 0
            && self.rbac_findings.len() == 0
    }
}

impl Default for EvidenceProps {
    fn default() -> (r: Self)
        ensures
            r.empty(),
    {
        EvidenceProps {
            cves: Vec::new(),
            corroborating: Vec::new(),
            context: Vec::new(),
            exposed_secrets: Vec::new(),
            misconfigs: Vec::new(),
            rbac_findings: Vec::new(),
        }
    }
}

/// The evidence in numbers.
#[derive(Debug, Clone, PartialEq, Eq)]
pub struct EvidenceSummary {
    pub cve_count: usize,
    pub kev: bool,
    pub runtime_alerts: usize,
    pub exposed_secrets: usize,
}

impl EvidenceSummary {
    /// Whether there is no evidence to show in the row.
    pub fn is_empty(&self) -> (r: bool)
        ensures
            r == (self.cve_count == 0 && !self.kev && self.runtime_alerts == 0
                && self.exposed_secrets == 0),
    {
        self.cve_count == 0 && !self.kev && self.runtime_alerts == 0 && self.exposed_secrets == 0
    }
}

impl Default for EvidenceSummary {
    fn default() -> (r: Self)
        ensures
            r == (EvidenceSummary { cve_count: 0, kev: false, runtime_alerts: 0, exposed_secrets: 0 }),
    {
        EvidenceSummary { cve_count: 0, kev: false, runtime_alerts: 0, exposed_secrets: 0 }
    }
}

/// One row of the Findings view.
#[derive(Debug, Clone, PartialEq, Eq)]
pub struct FindingProps {
    /// A stable id, by which an open row is found again.
    pub id: String,
    pub posture: Posture,
    pub live_tag: LiveTag,
    pub delta: DeltaProps,
    pub entry_glyph: String,
    pub entry: String,
    pub foothold: bool,
    pub objective: String,
    /// How many objectives the entry reaches, where the row stands for all of them.
    pub fanout: Option<usize>,
    /// How many pod replicas of one workload the row stands for.
    pub replicas: Option<usize>,
    pub evidence_summary: EvidenceSummary,
    pub disposition: String,
    pub verdict_summary: Option<String>,
    pub path: Vec<HopProps>,
    pub paths: Vec<Vec<HopProps>>,
    pub paths_truncated: bool,
    pub cut: Option<String>,
    pub evidence: EvidenceProps,
    pub judgement: JudgementProps,
    pub blind_node_caveat: Option<String>,
    pub alerts: Vec<AlertProps>,
}

/// The Findings view: the strip and the rows, the most urgent first.
#[derive(Debug, Clone, PartialEq, Eq)]
pub struct FindingsViewProps {
    pub strip: StatusStripProps,
    pub findings: Vec<FindingProps>,
}

/// The postures differ in token, glyph and word, so that only a cleared row reads as cleared.
pub proof fn postures_read_apart(a: Posture, b: Posture)
    requires
        a != b,
    ensures
        a.token_text() != b.token_text(),
        a.glyph_text() != b.glyph_text(),
        a.word_text() != b.word_text(),
{
    reveal_strlit("breach");
    reveal_strlit("cleared");
    reveal_strlit("uncertain");
    reveal_strlit("awaiting");
    reveal_strlit("\u{25cf}");
    reveal_strlit("\u{25cb}");
    reveal_strlit("\u{25d0}");
    reveal_strlit("\u{25cc}");
    reveal_strlit("BREACH");
    reveal_strlit("no exploit evidence");
    reveal_strlit("awaiting judgement");
    assert("breach"@.len() == 6 && "cleared"@.len() == 7);
    assert("uncertain"@.len() == 9 && "awaiting"@.len() == 8);
    assert("BREACH"@.len() == 6 && "no exploit evidence"@.len() == 19);
    assert("awaiting judgement"@.len() == 18);
    assert("\u{25cf}"@[0] == '\u{25cf}' && "\u{25cb}"@[0] == '\u{25cb}');
    assert("\u{25d0}"@[0] == '\u{25d0}' && "\u{25cc}"@[0] == '\u{25cc}');
}

} // verus!
