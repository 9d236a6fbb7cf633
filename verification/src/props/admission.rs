//! What the Admission view shows: the tallies, the signing inventory and the decisions.

use crate::props::signing::SigningRepoProps;
use crate::props::status::StatusStripProps;
use crate::text;
use vstd::prelude::*;
use vstd::string::*;

verus! {

/// What a gate made of an object.
#[derive(Debug, Clone, Copy, PartialEq, Eq, Structural)]
pub enum GateStatus {
    /// In scope, checked, passed.
    Verified,
    /// Out of scope; would pass if enforced.
    WouldPass,
    /// Would be denied if enforced.
    WouldFail,
    /// It does not apply.
    NotApplicable,
}

impl GateStatus {
    /// The status that a word names; any other word is [`GateStatus::NotApplicable`].
    pub open spec fn parse_of(word: Seq<char>) -> GateStatus {
        if word == "verified"@ {
            GateStatus::Verified
        } else if word == "would-pass"@ {
            GateStatus::WouldPass
        } else if word == "would-fail"@ {
            GateStatus::WouldFail
        } else {
            GateStatus::NotApplicable
        }
    }

    /// The status that a word names; any other word is [`GateStatus::NotApplicable`].
    pub fn parse(word: &str) -> (r: GateStatus)
        ensures
            r == GateStatus::parse_of(word@),
    {
        if text::same(word, "verified") {
            GateStatus::Verified
        } else if text::same(word, "would-pass") {
            GateStatus::WouldPass
        } else if text::same(word, "would-fail") {
            GateStatus::WouldFail
        } else {
            GateStatus::NotApplicable
        }
    }

    /// The style token of the status.
    pub fn token(self) -> (r: &'static str)
        ensures
            r@ == (match self {
                GateStatus::Verified => "verified"@,
                GateStatus::WouldPass => "wouldpass"@,
                GateStatus::WouldFail => "wouldfail"@,
                GateStatus::NotApplicable => "na"@,
            }),
    {
        match self {
            GateStatus::Verified => "verified",
            GateStatus::WouldPass => "wouldpass",
            GateStatus::WouldFail => "wouldfail",
            GateStatus::NotApplicable => "na",
        }
    }

    /// The glyph that carries the status without colour.
    pub fn glyph(self) -> (r: &'static str)
        ensures
            r@ == (match self {
                GateStatus::Verified => "\u{2713}"@,
                GateStatus::WouldPass => "\u{25cb}"@,
                GateStatus::WouldFail => "\u{2715}"@,
                GateStatus::NotApplicable => "\u{2014}"@,
            }),
    {
        match self {
            GateStatus::Verified => "\u{2713}",
            GateStatus::WouldPass => "\u{25cb}",
            GateStatus::WouldFail => "\u{2715}",
            GateStatus::NotApplicable => "\u{2014}",
        }
    }

    /// The status in words.
    pub open spec fn word_text(self) -> Seq<char> {
        match self {
            GateStatus::Verified => "verified"@,
            GateStatus::WouldPass => "would-pass"@,
            GateStatus::WouldFail => "would-fail"@,
            GateStatus::NotApplicable => "n/a"@,
        }
    }

    /// The status in words.
    pub fn word(self) -> (r: &'static str)
        ensures
            r@ == self.word_text(),
    {
        match self {
            GateStatus::Verified => "verified",
            GateStatus::WouldPass => "would-pass",
            GateStatus::WouldFail => "would-fail",
            GateStatus::NotApplicable => "n/a",
        }
    }

    /// Whether this status would deny.
    pub fn is_fail(self) -> (r: bool)
        ensures
            r == (self == GateStatus::WouldFail),
    {
        self == GateStatus::WouldFail
    }
}

/// What the webhook decided.
#[derive(Debug, Clone, Copy, PartialEq, Eq, Structural)]
pub enum AdmissionDecision {
    Allow,
    /// Would be denied, and was allowed.
    Audit,
    Deny,
    Other,
}

impl AdmissionDecision {
    /// The decision that a word names; any other word is [`AdmissionDecision::Other`].
    pub open spec fn parse_of(word: Seq<char>) -> AdmissionDecision {
        if word == "allow"@ {
            AdmissionDecision::Allow
        } else if word == "audit"@ {
            AdmissionDecision::Audit
        } else if word == "deny"@ {
            AdmissionDecision::Deny
        } else {
            AdmissionDecision::Other
        }
    }

    /// The decision that a word names; any other word is [`AdmissionDecision::Other`].
    pub fn parse(word: &str) -> (r: AdmissionDecision)
        ensures
            r == AdmissionDecision::parse_of(word@),
    {
        if text::same(word, "allow") {
            AdmissionDecision::Allow
        } else if text::same(word, "audit") {
            AdmissionDecision::Audit
        } else if text::same(word, "deny") {
            AdmissionDecision::Deny
        } else {
            AdmissionDecision::Other
        }
    }

    /// The style token of the decision.
    pub open spec fn token_text(self) -> Seq<char> {
        match self {
            AdmissionDecision::Allow => "allow"@,
            AdmissionDecision::Audit => "audit"@,
            AdmissionDecision::Deny => "deny"@,
            AdmissionDecision::Other => "other"@,
        }
    }

    /// The style token of the decision.
    pub fn token(self) -> (r: &'static str)
        ensures
            r@ == self.token_text(),
    {
        match self {
            AdmissionDecision::Allow => "allow",
            AdmissionDecision::Audit => "audit",
            AdmissionDecision::Deny => "deny",
            AdmissionDecision::Other => "other",
        }
    }

    /// The glyph that carries the decision without colour.
    pub fn glyph(self) -> (r: &'static str)
        ensures
            r@ == (match self {
                AdmissionDecision::Allow => "\u{2713}"@,
                AdmissionDecision::Audit => "\u{25d0}"@,
                AdmissionDecision::Deny => "\u{25cf}"@,
                AdmissionDecision::Other => "\u{2014}"@,
            }),
    {
        match self {
            AdmissionDecision::Allow => "\u{2713}",
            AdmissionDecision::Audit => "\u{25d0}",
            AdmissionDecision::Deny => "\u{25cf}",
            AdmissionDecision::Other => "\u{2014}",
        }
    }

    /// The decision in words.
    pub fn word(self) -> (r: &'static str)
        ensures
            r@ == (match self {
                AdmissionDecision::Allow => "admitted"@,
                AdmissionDecision::Audit => "audited"@,
                AdmissionDecision::Deny => "denied"@,
                AdmissionDecision::Other => "other"@,
            }),
    {
        match self {
            AdmissionDecision::Allow => "admitted",
            AdmissionDecision::Audit => "audited",
            AdmissionDecision::Deny => "denied",
            AdmissionDecision::Other => "other",
        }
    }
}

/// One deduplicated decision.
#[derive(Debug, Clone, PartialEq, Eq)]
pub struct DecisionRowProps {
    pub decision: AdmissionDecision,
    pub subject: String,
    pub image: String,
    pub namespace: String,
    pub mesh: GateStatus,
    /// Whether it would be admitted if every gate were enforced. Shown only; the decision is
    /// `decision`.
    pub would_admit: bool,
    pub reason: String,
    pub count: u64,
}

/// The Admission view.
#[derive(Debug, Clone, PartialEq, Eq)]
pub struct AdmissionViewProps {
    pub strip: StatusStripProps,
    pub admitted: u64,
    pub audited: u64,
    pub denied: u64,
    pub total: u64,
    pub signing: Vec<SigningRepoProps>,
    pub rows: Vec<DecisionRowProps>,
}

/// The word of a gate status names that status.
pub proof fn gate_is_read_back(g: GateStatus)
    ensures
        GateStatus::parse_of(g.word_text()) == g,
{
    reveal_strlit("verified");
    reveal_strlit("would-pass");
    reveal_strlit("would-fail");
    reveal_strlit("n/a");
    assert("verified"@.len() == 8 && "n/a"@.len() == 3);
    assert("would-pass"@.len() == 10 && "would-fail"@.len() == 10);
    assert("would-pass"@[6] == 'p' && "would-fail"@[6] == 'f');
}

/// The token of a decision names that decision.
pub proof fn decision_is_read_back(d: AdmissionDecision)
    ensures
        AdmissionDecision::parse_of(d.token_text()) == d,
{
    reveal_strlit("allow");
    reveal_strlit("audit");
    reveal_strlit("deny");
    reveal_strlit("other");
    assert("allow"@.len() == 5 && "audit"@.len() == 5 && "deny"@.len() == 4 && "other"@.len() == 5);
    assert("allow"@[1] == 'l' && "audit"@[1] == 'u' && "other"@[0] == 'o' && "allow"@[0] == 'a'
        && "audit"@[0] == 'a');
}

} // verus!
