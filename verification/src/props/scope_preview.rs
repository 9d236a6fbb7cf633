//! What the scope preview shows: which standing cuts would fire under a candidate scope, and which
//! it would hold.

use crate::props::status::StatusStripProps;
use vstd::prelude::*;

verus! {

/// A cut that would fire.
#[derive(Debug, Clone, PartialEq, Eq)]
pub struct FiringCutProps {
    pub cut: String,
    pub action: String,
    /// The live workloads it would sever.
    pub alive_collateral: Vec<String>,
    /// `alive_collateral` may not be complete.
    pub collateral_unknown: bool,
}

/// A cut that the scope does not cover.
#[derive(Debug, Clone, PartialEq, Eq)]
pub struct HeldCutProps {
    pub cut: String,
    pub action: String,
}

/// The scope preview.
#[derive(Debug, Clone, PartialEq, Eq)]
pub struct ScopePreviewViewProps {
    pub strip: StatusStripProps,
    pub candidate_namespaces: Vec<String>,
    pub candidate_labels: Vec<String>,
    pub candidate_is_empty: bool,
    pub would_fire: Vec<FiringCutProps>,
    pub held_out_of_scope: Vec<HeldCutProps>,
}

} // verus!
