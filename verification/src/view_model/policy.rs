//! The admission decisions as rows.

use crate::state::PolicyDecisionRecord;
use crate::text;
use crate::view_model::posture::{relative_text, relative_time, seconds_between, seconds_since};
use vstd::prelude::*;
use vstd::string::*;

verus! {

/// How many decisions there were of each kind.
#[derive(Debug, Clone, Copy, PartialEq, Eq)]
pub struct DecisionTallies {
    pub admitted: u64,
    pub audited: u64,
    pub denied: u64,
}

impl Default for DecisionTallies {
    fn default() -> (r: Self)
        ensures
            r == (DecisionTallies { admitted: 0, audited: 0, denied: 0 }),
    {
        DecisionTallies { admitted: 0, audited: 0, denied: 0 }
    }
}

/// One decision.
#[derive(Debug, Clone, PartialEq, Eq)]
pub struct PolicyDecisionRow {
    pub decision: String,
    pub decision_tone: &'static str,
    pub summary: String,
    pub subject: String,
    pub image: String,
    pub namespace: String,
    pub reason: String,
    pub count: u64,
    pub when: String,
}

/// The decisions, how many of each kind, and since when.
#[derive(Debug, Clone, PartialEq, Eq)]
pub struct PolicyProps {
    pub rows: Vec<PolicyDecisionRow>,
    pub admitted: u64,
    pub audited: u64,
    pub denied: u64,
    pub since: String,
}

/// The style class of a decision; an unknown word never reads as a breach.
pub open spec fn tone_text(decision: Seq<char>) -> Seq<char> {
    if decision == "deny"@ {
        "chip-breach"@
    } else if decision == "audit"@ {
        "chip-awaiting"@
    } else {
        "chip-safe"@
    }
}

/// What is known of the signature.
pub open spec fn signature_part(signature: Seq<char>) -> Seq<Seq<char>> {
    if signature == "signed"@ {
        seq!["signed"@]
    } else if signature == "unsigned"@ {
        seq!["unsigned"@]
    } else if signature == "not-gated"@ {
        seq!["not gated"@]
    } else {
        Seq::empty()
    }
}

/// What is known of the mesh.
pub open spec fn mesh_part(mesh: Seq<char>) -> Seq<Seq<char>> {
    if mesh == "meshed"@ {
        seq!["meshed"@]
    } else if mesh == "unmeshed"@ {
        seq!["unmeshed"@]
    } else {
        Seq::empty()
    }
}

/// The outcome in one word.
pub open spec fn outcome_text(decision: Seq<char>) -> Seq<char> {
    if decision == "allow"@ {
        "admitted"@
    } else if decision == "audit"@ {
        "would-deny"@
    } else if decision == "deny"@ {
        "denied"@
    } else {
        decision
    }
}

/// The outcome, and what is known of the signature and the mesh.
pub open spec fn summary_text(decision: Seq<char>, signature: Seq<char>, mesh: Seq<char>) -> Seq<char> {
    let parts = signature_part(signature) + mesh_part(mesh);
    if parts.len() == 0 {
        outcome_text(decision)
    } else {
        outcome_text(decision) + " \u{2014} "@ + text::join(parts, ", "@)
    }
}

/// `r` shows the decision as of `now_ms`.
pub open spec fn shows_decision(d: PolicyDecisionRecord, now_ms: u64, r: PolicyDecisionRow) -> bool {
    &&& r.decision@ == d.decision@
    &&& r.decision_tone@ == tone_text(d.decision@)
    &&& r.summary@ == summary_text(d.decision@, d.signature@, d.mesh@)
    &&& r.subject@ == d.subject@
    &&& r.image@ == d.image@
    &&& r.namespace@ == d.namespace@
    &&& r.reason@ == d.reason@
    &&& r.count == d.count
    &&& r.when@ == relative_text(Some(seconds_between(d.at_ms, now_ms) as u64))
}

/// The style class of a decision.
pub fn decision_tone(decision: &str) -> (r: &'static str)
    ensures
        r@ == tone_text(decision@),
{
    if text::same(decision, "deny") {
        "chip-breach"
    } else if text::same(decision, "audit") {
        "chip-awaiting"
    } else {
        "chip-safe"
    }
}

/// The outcome, and what is known of the signature and the mesh.
pub fn summarize(decision: &str, signature: &str, mesh: &str) -> (r: String)
    ensures
        r@ == summary_text(decision@, signature@, mesh@),
{
    let mut parts: Vec<String> = Vec::new();
    if text::same(signature, "signed") {
        parts.push("signed".to_string());
    } else if text::same(signature, "unsigned") {
        parts.push("unsigned".to_string());
    } else if text::same(signature, "not-gated") {
        parts.push("not gated".to_string());
    }
    assert(text::texts(parts@) =~= signature_part(signature@));
    let ghost before = parts@;
    if text::same(mesh, "meshed") {
        parts.push("meshed".to_string());
    } else if text::same(mesh, "unmeshed") {
        parts.push("unmeshed".to_string());
    }
    assert(text::texts(parts@) =~= text::texts(before) + mesh_part(mesh@));
    assert(parts@.len() == text::texts(parts@).len());
    let lead = if text::same(decision, "allow") {
        "admitted".to_string()
    } else if text::same(decision, "audit") {
        "would-deny".to_string()
    } else if text::same(decision, "deny") {
        "denied".to_string()
    } else {
        decision.to_string()
    };
    if parts.len() == 0 {
        lead
    } else {
        lead.concat(" \u{2014} ").concat(text::joined(&parts, ", ").as_str())
    }
}

/// `p` shows the decisions and their tallies, and since when: the first decision, or the start of
/// the engine where there is none.
pub open spec fn shows_policy(
    decisions: Seq<PolicyDecisionRecord>,
    tallies: DecisionTallies,
    boot_ms: u64,
    now_ms: u64,
    p: PolicyProps,
) -> bool {
    &&& p.rows@.len() == decisions.len()
    &&& forall|i: int|
        0 <= i < p.rows@.len() ==> shows_decision(decisions[i], now_ms, #[trigger] p.rows@[i])
    &&& p.admitted == tallies.admitted
    &&& p.audited == tallies.audited
    &&& p.denied == tallies.denied
    &&& p.since@ == relative_text(
        Some(
            seconds_between(
                if decisions.len() > 0 {
                    decisions[0].at_ms
                } else {
                    boot_ms
                },
                now_ms,
            ) as u64,
        ),
    )
}

/// The decisions as of `now_ms`: the newest comes first, and its time is the one the line counts
/// from. Without a decision that is the boot time.
pub fn policy_props(
    decisions: &[PolicyDecisionRecord],
    tallies: DecisionTallies,
    boot_ms: u64,
    now_ms: u64,
) -> (r: PolicyProps)
    ensures
        shows_policy(decisions@, tallies, boot_ms, now_ms, r),
{
    let mut rows: Vec<PolicyDecisionRow> = Vec::new();
    let mut i: usize = 0;
    while i < decisions.len()
        invariant
            i <= decisions@.len(),
            rows@.len() == i,
            forall|k: int| 0 <= k < i ==> shows_decision(decisions@[k], now_ms, #[trigger] rows@[k]),
        decreases decisions@.len() - i,
    {
        let d = &decisions[i];
        rows.push(
            PolicyDecisionRow {
                decision: d.decision.clone(),
                decision_tone: decision_tone(d.decision.as_str()),
                summary: summarize(d.decision.as_str(), d.signature.as_str(), d.mesh.as_str()),
                subject: d.subject.clone(),
                image: d.image.clone(),
                namespace: d.namespace.clone(),
                reason: d.reason.clone(),
                count: d.count,
                when: relative_time(Some(seconds_since(d.at_ms, now_ms))),
            },
        );
        i += 1;
    }
    let from: u64 = if decisions.len() > 0 {
        decisions[0].at_ms
    } else {
        boot_ms
    };
    PolicyProps {
        rows,
        admitted: tallies.admitted,
        audited: tallies.audited,
        denied: tallies.denied,
        since: relative_time(Some(seconds_since(from, now_ms))),
    }
}

/// Only an enforced denial reads as a breach.
pub proof fn only_deny_is_loud(decision: Seq<char>)
    ensures
        tone_text(decision) == "chip-breach"@ <==> decision == "deny"@,
{
    reveal_strlit("chip-breach");
    reveal_strlit("chip-awaiting");
    reveal_strlit("chip-safe");
    assert("chip-breach"@.len() == 11 && "chip-awaiting"@.len() == 13 && "chip-safe"@.len() == 9);
}

} // verus!
