//! What the Action view shows, and the Trust and Activity views that show its halves: the proposed
//! cuts, the cuts that were lifted again, the paths left alone, and the judgements.

use crate::props::status::StatusStripProps;
use vstd::prelude::*;

verus! {

/// A workload the engine would have isolated.
#[derive(Debug, Clone, PartialEq, Eq)]
pub struct WouldActProps {
    pub entry: String,
    pub episodes: usize,
    pub would_act_decisions: usize,
    pub max_lifetime: String,
    pub open: bool,
    pub short_lived: bool,
    pub coverage_gap: bool,
    pub last_verdict: String,
}

/// A proven path the model cleared.
#[derive(Debug, Clone, PartialEq, Eq)]
pub struct LeftAloneProps {
    pub entry: String,
    pub verdict: String,
}

/// A cut that was lifted again.
#[derive(Debug, Clone, PartialEq, Eq)]
pub struct ReversionProps {
    pub cut: String,
    pub reason: String,
    pub age: String,
}

/// One judgement.
#[derive(Debug, Clone, PartialEq, Eq)]
pub struct JudgementEntryProps {
    pub entry: String,
    pub objectives: usize,
    pub verdict: Option<String>,
    pub prompt: Option<String>,
    pub reply: Option<String>,
}

/// The Action view.
#[derive(Debug, Clone, PartialEq, Eq)]
pub struct ActionViewProps {
    pub strip: StatusStripProps,
    pub window_human: String,
    pub journal_empty: bool,
    pub decisions_in_window: usize,
    pub would_act: Vec<WouldActProps>,
    pub reversions: Vec<ReversionProps>,
    pub left_alone: Vec<LeftAloneProps>,
    pub judgements: Vec<JudgementEntryProps>,
    pub would_act_count: usize,
    pub short_lived_count: usize,
    pub coverage_gap_count: usize,
    pub left_alone_count: usize,
    pub reverted_count: usize,
}

/// The Trust view.
#[derive(Debug, Clone, PartialEq, Eq)]
pub struct TrustViewProps {
    pub strip: StatusStripProps,
    pub window_human: String,
    pub journal_empty: bool,
    pub decisions_in_window: usize,
    pub would_act: Vec<WouldActProps>,
    pub left_alone: Vec<LeftAloneProps>,
    pub would_act_count: usize,
    pub short_lived_count: usize,
    pub coverage_gap_count: usize,
    pub left_alone_count: usize,
}

/// The Activity view.
#[derive(Debug, Clone, PartialEq, Eq)]
pub struct ActivityViewProps {
    pub strip: StatusStripProps,
    pub reversions: Vec<ReversionProps>,
    pub judgements: Vec<JudgementEntryProps>,
}

} // verus!
