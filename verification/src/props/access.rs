//! What the Access view shows: the caller's own tier, what each tier reveals, and the audited
//! disclosures, each already redacted to the caller's tier.

use crate::props::status::StatusStripProps;
use crate::state::{EffectiveTier, Tier};
use vstd::prelude::*;

verus! {

/// A disclosure tier.
#[derive(Debug, Clone, Copy, PartialEq, Eq, Structural)]
pub enum AccessTier {
    /// Nothing that is specific to the cluster.
    Redacted,
    /// Adds prompts and replies, CVEs, paths and workload names.
    Forensic,
    /// Adds the names of secrets.
    Raw,
}

impl AccessTier {
    /// The tier of a verified claim.
    pub open spec fn of_claim(tier: Tier) -> AccessTier {
        match tier {
            Tier::Redacted => AccessTier::Redacted,
            Tier::Forensic => AccessTier::Forensic,
            Tier::Raw => AccessTier::Raw,
        }
    }

    /// The tier of a disclosure.
    pub open spec fn of_effective(tier: EffectiveTier) -> AccessTier {
        match tier {
            EffectiveTier::Redacted => AccessTier::Redacted,
            EffectiveTier::Forensic => AccessTier::Forensic,
            EffectiveTier::Raw => AccessTier::Raw,
        }
    }

    /// The tier of a verified claim.
    pub fn from_claim(tier: Tier) -> (r: Self)
        ensures
            r == AccessTier::of_claim(tier),
    {
        match tier {
            Tier::Redacted => AccessTier::Redacted,
            Tier::Forensic => AccessTier::Forensic,
            Tier::Raw => AccessTier::Raw,
        }
    }

    /// The tier of a disclosure.
    pub fn from_effective(tier: EffectiveTier) -> (r: Self)
        ensures
            r == AccessTier::of_effective(tier),
    {
        match tier {
            EffectiveTier::Redacted => AccessTier::Redacted,
            EffectiveTier::Forensic => AccessTier::Forensic,
            EffectiveTier::Raw => AccessTier::Raw,
        }
    }
}

/// What one tier reveals and withholds, and whether the caller holds it.
#[derive(Debug, Clone, PartialEq, Eq)]
pub struct TierRevealRow {
    pub tier: AccessTier,
    pub reveals: String,
    pub withholds: String,
    pub held: bool,
}

/// One disclosure.
#[derive(Debug, Clone, PartialEq, Eq)]
pub struct AccessPullRow {
    pub when: String,
    pub who: String,
    pub tool: String,
    pub tier: AccessTier,
    pub target: String,
    pub raw: bool,
}

/// The Access view.
#[derive(Debug, Clone, PartialEq, Eq)]
pub struct AccessViewProps {
    pub strip: StatusStripProps,
    pub tier: AccessTier,
    pub reveals: Vec<TierRevealRow>,
    pub pulls: Vec<AccessPullRow>,
    /// Whether the log outlives a restart.
    pub durable: bool,
}

} // verus!
