//! What the Alerts view shows: the runtime signals that are alarming right now. A signal is
//! evidence, never a verdict.

use crate::props::status::StatusStripProps;
use crate::text;
use vstd::prelude::*;

verus! {

/// One alarming signal.
#[derive(Debug, Clone, PartialEq, Eq)]
pub struct AlertProps {
    /// What happened, in words.
    pub signal: String,
    /// `alert`, `exec`, `write` or `peer`.
    pub kind: String,
    pub workload: String,
    /// How long the entry has been alarming, or `this pass`.
    pub recency: String,
    /// The proven chain the signal lands on, if it lands on one.
    pub on_chain: Option<String>,
}

/// An alarming signal, in characters.
pub struct Alarm {
    pub signal: Seq<char>,
    pub kind: Seq<char>,
    pub workload: Seq<char>,
    pub recency: Seq<char>,
    pub on_chain: Option<Seq<char>>,
}

impl View for AlertProps {
    type V = Alarm;

    open spec fn view(&self) -> Alarm {
        Alarm {
            signal: self.signal@,
            kind: self.kind@,
            workload: self.workload@,
            recency: self.recency@,
            on_chain: text::opt_text(self.on_chain),
        }
    }
}

/// The Alerts view.
#[derive(Debug, Clone, PartialEq, Eq)]
pub struct AlertsViewProps {
    pub strip: StatusStripProps,
    /// The most recent first.
    pub alerts: Vec<AlertProps>,
    /// Present exactly when an expected node has no live sensor, so that quiet is not taken for
    /// safe.
    pub blind_caveat: Option<String>,
}

} // verus!
