//! What the Readiness view shows: one row per decision input, and how two corroboration sources
//! compare.

use crate::props::status::StatusStripProps;
use vstd::prelude::*;
use vstd::string::*;

verus! {

/// The live state of a decision input.
#[derive(Debug, Clone, Copy, PartialEq, Eq, Structural)]
pub enum InputStateProps {
    Present,
    /// Never configured, or loaded empty.
    Absent,
    /// Configured and not answering as it should.
    Degraded,
    /// Was covering, and went dark.
    Stalled,
}

impl InputStateProps {
    /// The style token of the state.
    pub open spec fn token_text(self) -> Seq<char> {
        match self {
            InputStateProps::Present => "present"@,
            InputStateProps::Absent => "absent"@,
            InputStateProps::Degraded => "degraded"@,
            InputStateProps::Stalled => "stalled"@,
        }
    }

    /// The style token of the state.
    pub fn token(self) -> (r: &'static str)
        ensures
            r@ == self.token_text(),
    {
        match self {
            InputStateProps::Present => "present",
            InputStateProps::Absent => "absent",
            InputStateProps::Degraded => "degraded",
            InputStateProps::Stalled => "stalled",
        }
    }

    /// The glyph that carries the state without colour.
    pub open spec fn glyph_text(self) -> Seq<char> {
        match self {
            InputStateProps::Present => "\u{2713}"@,
            InputStateProps::Absent => "\u{2014}"@,
            InputStateProps::Degraded => "\u{25d0}"@,
            InputStateProps::Stalled => "\u{26a0}"@,
        }
    }

    /// The glyph that carries the state without colour.
    pub fn glyph(self) -> (r: &'static str)
        ensures
            r@ == self.glyph_text(),
    {
        match self {
            InputStateProps::Present => "\u{2713}",
            InputStateProps::Absent => "\u{2014}",
            InputStateProps::Degraded => "\u{25d0}",
            InputStateProps::Stalled => "\u{26a0}",
        }
    }

    /// The state in words.
    pub fn word(self) -> (r: &'static str)
        ensures
            r@ == (match self {
                InputStateProps::Present => "present"@,
                InputStateProps::Absent => "absent"@,
                InputStateProps::Degraded => "degraded"@,
                InputStateProps::Stalled => "stalled"@,
            }),
    {
        match self {
            InputStateProps::Present => "present",
            InputStateProps::Absent => "absent",
            InputStateProps::Degraded => "degraded",
            InputStateProps::Stalled => "stalled",
        }
    }

    /// Whether the input contributes.
    pub fn is_present(self) -> (r: bool)
        ensures
            r == (self == InputStateProps::Present),
    {
        self == InputStateProps::Present
    }
}

/// What a cluster node's sensor reports.
#[derive(Debug, Clone, Copy, PartialEq, Eq, Structural)]
pub enum NodeCoverageStateProps {
    Healthy,
    Degraded,
    /// Expected, and no live sensor.
    Blind,
    /// No sensor is expected there.
    OutOfScope,
}

impl NodeCoverageStateProps {
    /// The style token of the state.
    pub fn token(self) -> (r: &'static str)
        ensures
            r@ == (match self {
                NodeCoverageStateProps::Healthy => "healthy"@,
                NodeCoverageStateProps::Degraded => "degraded"@,
                NodeCoverageStateProps::Blind => "blind"@,
                NodeCoverageStateProps::OutOfScope => "out-of-scope"@,
            }),
    {
        match self {
            NodeCoverageStateProps::Healthy => "healthy",
            NodeCoverageStateProps::Degraded => "degraded",
            NodeCoverageStateProps::Blind => "blind",
            NodeCoverageStateProps::OutOfScope => "out-of-scope",
        }
    }

    /// The glyph that carries the state without colour.
    pub fn glyph(self) -> (r: &'static str)
        ensures
            r@ == (match self {
                NodeCoverageStateProps::Healthy => "\u{2713}"@,
                NodeCoverageStateProps::Degraded => "\u{25d0}"@,
                NodeCoverageStateProps::Blind => "\u{25cf}"@,
                NodeCoverageStateProps::OutOfScope => "\u{2014}"@,
            }),
    {
        match self {
            NodeCoverageStateProps::Healthy => "\u{2713}",
            NodeCoverageStateProps::Degraded => "\u{25d0}",
            NodeCoverageStateProps::Blind => "\u{25cf}",
            NodeCoverageStateProps::OutOfScope => "\u{2014}",
        }
    }

    /// The state in words.
    pub fn word(self) -> (r: &'static str)
        ensures
            r@ == (match self {
                NodeCoverageStateProps::Healthy => "healthy"@,
                NodeCoverageStateProps::Degraded => "degraded"@,
                NodeCoverageStateProps::Blind => "BLIND"@,
                NodeCoverageStateProps::OutOfScope => "out-of-scope"@,
            }),
    {
        match self {
            NodeCoverageStateProps::Healthy => "healthy",
            NodeCoverageStateProps::Degraded => "degraded",
            NodeCoverageStateProps::Blind => "BLIND",
            NodeCoverageStateProps::OutOfScope => "out-of-scope",
        }
    }
}

/// One cluster node's line.
#[derive(Debug, Clone, PartialEq, Eq)]
pub struct NodeRowProps {
    pub node: String,
    pub state: NodeCoverageStateProps,
    pub detail: String,
}

/// One decision input.
#[derive(Debug, Clone, PartialEq, Eq)]
pub struct ReadinessRowProps {
    pub id: String,
    pub label: String,
    pub state: InputStateProps,
    pub why: String,
    pub enable: String,
    pub detail: String,
    pub weakens_decisions: bool,
    pub nodes: Vec<NodeRowProps>,
}

/// How two corroboration sources compare.
#[derive(Debug, Clone, Copy, PartialEq, Eq, Structural)]
pub enum ParityStateProps {
    NothingToCompare,
    Uncovered,
    Parity,
}

/// The comparison of two corroboration sources.
#[derive(Debug, Clone, PartialEq, Eq)]
pub struct ParityReportProps {
    pub state: ParityStateProps,
    pub summary: String,
    pub falco_corroborated: usize,
    pub agent_corroborated: usize,
    pub both: usize,
    pub agent_uncovered: usize,
    pub uncovered_entries: Vec<String>,
}

/// The Readiness view: the gaps that weaken decisions come first.
#[derive(Debug, Clone, PartialEq, Eq)]
pub struct ReadinessViewProps {
    pub strip: StatusStripProps,
    pub rows: Vec<ReadinessRowProps>,
    pub parity: ParityReportProps,
}

/// The states of an input differ in token and glyph: meaning never rides on colour.
pub proof fn states_read_apart(a: InputStateProps, b: InputStateProps)
    requires
        a != b,
    ensures
        a.token_text() != b.token_text(),
        a.glyph_text() != b.glyph_text(),
{
    reveal_strlit("present");
    reveal_strlit("absent");
    reveal_strlit("degraded");
    reveal_strlit("stalled");
    reveal_strlit("\u{2713}");
    reveal_strlit("\u{2014}");
    reveal_strlit("\u{25d0}");
    reveal_strlit("\u{26a0}");
    assert("present"@.len() == 7 && "stalled"@.len() == 7);
    assert("absent"@.len() == 6 && "degraded"@.len() == 8);
    assert("present"@[0] == 'p' && "stalled"@[0] == 's');
    assert("\u{2713}"@[0] == '\u{2713}' && "\u{2014}"@[0] == '\u{2014}');
    assert("\u{25d0}"@[0] == '\u{25d0}' && "\u{26a0}"@[0] == '\u{26a0}');
}

} // verus!
