//! The recent judgements as cards.

use crate::graph::{short_text, NodeKey};
use crate::state::Judgement;
use crate::view_model::endpoints::words::Posture;
use vstd::prelude::*;
use vstd::string::*;

verus! {

/// What a card leads with.
#[derive(Debug, Clone, PartialEq, Eq)]
pub enum JudgementLead {
    /// The deterministic pre-filter decided without the model.
    PreFilter,
    /// The model did not answer in time.
    Timeout,
    /// The model's words.
    Verdict(String),
}

/// One judgement.
#[derive(Debug, Clone, PartialEq, Eq)]
pub struct JudgementCardProps {
    pub posture_label: &'static str,
    pub posture_tone: &'static str,
    pub lead: JudgementLead,
    pub entry: String,
    pub objectives: usize,
    pub prompt: String,
    pub reply: String,
}

/// The recent judgements.
#[derive(Debug, Clone, PartialEq, Eq)]
pub struct JudgementsProps {
    pub cards: Vec<JudgementCardProps>,
}

/// `c` shows the judgement.
pub open spec fn shows_card(j: Judgement, c: JudgementCardProps) -> bool {
    let posture = Posture::of_words(Some(j.verdict@));
    &&& c.posture_label@ == posture.label_text()
    &&& c.posture_tone@ == posture.tone_text()
    &&& c.lead == (if j.prompt is None {
        JudgementLead::PreFilter
    } else if j.reply is None {
        JudgementLead::Timeout
    } else {
        JudgementLead::Verdict(j.verdict)
    })
    &&& c.entry@ == short_text(j.entry@)
    &&& c.objectives == j.objectives
    &&& c.prompt@ == (match j.prompt {
        Some(p) => p@,
        None => "(none \u{2014} pre-filter decided)"@,
    })
    &&& c.reply@ == (match j.reply {
        Some(r) => r@,
        None => "(none \u{2014} model timed out)"@,
    })
}

fn card_props(j: &Judgement) -> (r: JudgementCardProps)
    ensures
        shows_card(*j, r),
{
    let posture = Posture::of(Some(j.verdict.as_str()));
    let lead = if j.prompt.is_none() {
        JudgementLead::PreFilter
    } else if j.reply.is_none() {
        JudgementLead::Timeout
    } else {
        JudgementLead::Verdict(j.verdict.clone())
    };
    JudgementCardProps {
        posture_label: posture.label(),
        posture_tone: posture.tone(),
        lead,
        entry: NodeKey::short_of(j.entry.as_str()).to_string(),
        objectives: j.objectives,
        prompt: match &j.prompt {
            Some(p) => p.clone(),
            None => "(none \u{2014} pre-filter decided)".to_string(),
        },
        reply: match &j.reply {
            Some(r) => r.clone(),
            None => "(none \u{2014} model timed out)".to_string(),
        },
    }
}

/// The recent judgements as cards, in the order they come.
pub fn judgements_props(judgements: &[Judgement]) -> (r: JudgementsProps)
    ensures
        r.cards@.len() == judgements@.len(),
        forall|i: int|
            0 <= i < r.cards@.len() ==> shows_card(judgements@[i], #[trigger] r.cards@[i]),
{
    let mut cards: Vec<JudgementCardProps> = Vec::new();
    let mut i: usize = 0;
    while i < judgements.len()
        invariant
            i <= judgements@.len(),
            cards@.len() == i,
            forall|k: int| 0 <= k < i ==> shows_card(judgements@[k], #[trigger] cards@[k]),
        decreases judgements@.len() - i,
    {
        cards.push(card_props(&judgements[i]));
        i += 1;
    }
    JudgementsProps { cards }
}

} // verus!
