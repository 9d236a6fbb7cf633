//! The status strip that every view carries, and the tabs. The strip reads green only where the
//! model has affirmatively cleared everything it looks at.

use crate::text;
use vstd::prelude::*;
use vstd::string::*;

verus! {

/// One feed's coverage.
#[derive(Debug, Clone, PartialEq, Eq)]
pub struct CoverageChip {
    pub label: String,
    pub present: bool,
    /// Configured and only partly answering.
    pub degraded: bool,
    /// Expected and wholly dark this pass.
    pub blind: bool,
    /// Was covering, and went dark.
    pub stalled: bool,
}

impl CoverageChip {
    /// A feed that is there or was never enabled, and not one that should answer and does not.
    pub open spec fn answers(self) -> bool {
        !self.degraded && !self.stalled && !self.blind
    }
}

/// The banner of a feed that went dark.
#[derive(Debug, Clone, PartialEq, Eq)]
pub struct StripCoverageAlert {
    pub feed_label: String,
    pub last_observation: Option<String>,
    pub message: String,
}

/// The strip: what was decided, whether the model is judging, and what is covered.
#[derive(Debug, Clone, PartialEq, Eq)]
pub struct StatusStripProps {
    pub cluster: String,
    /// Enforcing, or proposing only.
    pub armed: bool,
    /// The model is answering right now.
    pub model_judging: bool,
    /// No pass has completed yet.
    pub warming_up: bool,
    /// A model is configured.
    pub model_attached: bool,
    pub coverage: Vec<CoverageChip>,
    pub coverage_alert: Option<StripCoverageAlert>,
    pub last_pass: Option<String>,
    pub breach_count: usize,
    pub awaiting_count: usize,
    pub uncertain_count: usize,
    pub cleared_count: usize,
    pub escalated_count: usize,
    /// Signing regressions against an established baseline.
    pub signing_regression_breach: usize,
    /// Signing regressions against a fresh baseline, a weak lead.
    pub signing_regression_uncertain: usize,
}

/// `chip` as it is once the feed `feed` has stalled.
pub open spec fn stalled_chip(chip: CoverageChip, feed: Seq<char>) -> CoverageChip {
    if chip.label@ == feed {
        CoverageChip { present: false, degraded: false, blind: false, stalled: true, ..chip }
    } else {
        chip
    }
}

impl StatusStripProps {
    /// The model is answering and a pass has completed.
    pub open spec fn is_up(self) -> bool {
        self.model_judging && !self.warming_up
    }

    /// The model is up and no feed that should answer is silent.
    pub open spec fn covered(self) -> bool {
        self.is_up() && forall|i: int|
            0 <= i < self.coverage@.len() ==> (#[trigger] self.coverage@[i]).answers()
    }

    /// A signing regression stands.
    pub open spec fn regressed(self) -> bool {
        self.signing_regression_breach > 0 || self.signing_regression_uncertain > 0
    }

    /// Everything was affirmatively cleared.
    pub open spec fn clear(self) -> bool {
        &&& self.covered()
        &&& self.breach_count == 0
        &&& self.awaiting_count == 0
        &&& self.uncertain_count == 0
        &&& !self.regressed()
    }

    /// The model is up, nothing is loud, and not everything is cleared.
    pub open spec fn watches(self) -> bool {
        &&& self.is_up()
        &&& self.breach_count == 0
        &&& self.signing_regression_breach == 0
        &&& !self.clear()
    }

    /// The strip with the standing signing regressions counted in.
    pub fn with_signing_regressions(self, breach: usize, uncertain: usize) -> (r: Self)
        ensures
            r == (StatusStripProps {
                signing_regression_breach: breach,
                signing_regression_uncertain: uncertain,
                ..self
            }),
    {
        let mut r = self;
        r.signing_regression_breach = breach;
        r.signing_regression_uncertain = uncertain;
        r
    }

    /// The strip with a stalled feed marked: its chip reads stalled and nothing else, and the
    /// banner is attached. Without an alert the strip stays as it is.
    pub fn with_coverage_stall(self, alert: Option<StripCoverageAlert>) -> (r: Self)
        ensures
            alert is None ==> r == self,
            alert matches Some(a) ==> {
                &&& r.coverage_alert == alert
                &&& r.coverage@ == self.coverage@.map_values(
                    |c: CoverageChip| stalled_chip(c, a.feed_label@),
                )
                &&& r == (StatusStripProps {
                    coverage: r.coverage,
                    coverage_alert: r.coverage_alert,
                    ..self
                })
            },
    {
        let mut r = self;
        match alert {
            Some(a) => {
                let ghost f = |c: CoverageChip| stalled_chip(c, a.feed_label@);
                let ghost before = r.coverage@;
                let mut chips: Vec<CoverageChip> = Vec::new();
                let mut i: usize = 0;
                while i < r.coverage.len()
                    invariant
                        i <= r.coverage.len(),
                        r == self,
                        f == |c: CoverageChip| stalled_chip(c, a.feed_label@),
                        chips@.len() == i,
                        forall|k: int| 0 <= k < i ==> #[trigger] chips@[k] == f(self.coverage@[k]),
                    decreases r.coverage.len() - i,
                {
                    let c = &r.coverage[i];
                    let hit = text::same(c.label.as_str(), a.feed_label.as_str());
                    chips.push(
                        CoverageChip {
                            label: c.label.clone(),
                            present: c.present && !hit,
                            degraded: c.degraded && !hit,
                            blind: c.blind && !hit,
                            stalled: c.stalled || hit,
                        },
                    );
                    i += 1;
                }
                assert(chips@ =~= self.coverage@.map_values(f));
                r.coverage = chips;
                r.coverage_alert = Some(a);
            },
            None => {},
        }
        r
    }

    /// Whether any signing regression stands.
    pub fn has_signing_regression(&self) -> (r: bool)
        ensures
            r == self.regressed(),
    {
        self.signing_regression_breach > 0 || self.signing_regression_uncertain > 0
    }

    /// Whether the model is up and answering.
    pub fn model_is_up(&self) -> (r: bool)
        ensures
            r == self.is_up(),
    {
        self.model_judging && !self.warming_up
    }

    /// Whether the model is up and no feed that should answer is silent.
    pub fn fully_covered(&self) -> (r: bool)
        ensures
            r == self.covered(),
    {
        let mut i: usize = 0;
        while i < self.coverage.len()
            invariant
                i <= self.coverage.len(),
                forall|k: int| 0 <= k < i ==> (#[trigger] self.coverage@[k]).answers(),
            decreases self.coverage.len() - i,
        {
            let c = &self.coverage[i];
            if c.degraded || c.stalled || c.blind {
                assert(!self.coverage@[i as int].answers());
                return false;
            }
            i += 1;
        }
        self.model_is_up()
    }

    /// Whether the strip may read green.
    pub fn all_clear(&self) -> (r: bool)
        ensures
            r == self.clear(),
    {
        self.fully_covered() && self.breach_count == 0 && self.awaiting_count == 0
            && self.uncertain_count == 0 && !self.has_signing_regression()
    }

    /// Whether the strip reads as watching: calm, and not green.
    pub fn watching(&self) -> (r: bool)
        ensures
            r == self.watches(),
    {
        self.model_is_up() && self.breach_count == 0 && self.signing_regression_breach == 0
            && !self.all_clear()
    }

    /// The judging axis as one token.
    pub open spec fn judging_text(self) -> Seq<char> {
        if self.clear() {
            "all-clear"@
        } else if self.watches() || (self.is_up() && self.regressed()) {
            "watching"@
        } else if self.is_up() {
            "judging"@
        } else if self.warming_up {
            "warming"@
        } else if !self.model_attached {
            "no-model"@
        } else {
            "blind"@
        }
    }

    /// The judging axis as one token.
    pub fn judging_state(&self) -> (r: &'static str)
        ensures
            r@ == self.judging_text(),
    {
        if self.all_clear() {
            "all-clear"
        } else if self.watching() || (self.model_is_up() && self.has_signing_regression()) {
            "watching"
        } else if self.model_is_up() {
            "judging"
        } else if self.warming_up {
            "warming"
        } else if !self.model_attached {
            "no-model"
        } else {
            "blind"
        }
    }
}

/// The top-level tabs.
#[derive(Debug, Clone, Copy, PartialEq, Eq, Structural)]
pub enum Tab {
    Findings,
    Alerts,
    Action,
    Readiness,
    Admission,
}

impl Tab {
    /// The tab's route.
    pub fn path(self) -> (r: &'static str)
        ensures
            r@ == (match self {
                Tab::Findings => "/"@,
                Tab::Alerts => "/?tab=alerts"@,
                Tab::Action => "/?tab=action"@,
                Tab::Readiness => "/?tab=readiness"@,
                Tab::Admission => "/?tab=admission"@,
            }),
    {
        match self {
            Tab::Findings => "/",
            Tab::Alerts => "/?tab=alerts",
            Tab::Action => "/?tab=action",
            Tab::Readiness => "/?tab=readiness",
            Tab::Admission => "/?tab=admission",
        }
    }

    /// The tab's label.
    pub fn label(self) -> (r: &'static str)
        ensures
            r@ == (match self {
                Tab::Findings => "Findings"@,
                Tab::Alerts => "Alerts"@,
                Tab::Action => "Action"@,
                Tab::Readiness => "Readiness"@,
                Tab::Admission => "Admission"@,
            }),
    {
        match self {
            Tab::Findings => "Findings",
            Tab::Alerts => "Alerts",
            Tab::Action => "Action",
            Tab::Readiness => "Readiness",
            Tab::Admission => "Admission",
        }
    }

    /// The tab's token.
    pub fn token(self) -> (r: &'static str)
        ensures
            r@ == (match self {
                Tab::Findings => "findings"@,
                Tab::Alerts => "alerts"@,
                Tab::Action => "action"@,
                Tab::Readiness => "readiness"@,
                Tab::Admission => "admission"@,
            }),
    {
        match self {
            Tab::Findings => "findings",
            Tab::Alerts => "alerts",
            Tab::Action => "action",
            Tab::Readiness => "readiness",
            Tab::Admission => "admission",
        }
    }
}

// ---------------------------------------------------------------------------
// Laws
// ---------------------------------------------------------------------------

/// Green is honest: it needs a judging model past its first pass, no silent feed, nothing in
/// breach, awaiting or uncertain, and no signing regression.
pub proof fn green_is_honest(s: StatusStripProps)
    requires
        s.clear(),
    ensures
        s.model_judging,
        !s.warming_up,
        forall|i: int| 0 <= i < s.coverage@.len() ==> (#[trigger] s.coverage@[i]).answers(),
        s.breach_count == 0,
        s.awaiting_count == 0,
        s.uncertain_count == 0,
        s.signing_regression_breach == 0,
        s.signing_regression_uncertain == 0,
{
}

/// The judging token reads all-clear exactly when the strip is green.
pub proof fn token_is_green_iff_clear(s: StatusStripProps)
    ensures
        s.judging_text() == "all-clear"@ <==> s.clear(),
{
    reveal_strlit("all-clear");
    reveal_strlit("watching");
    reveal_strlit("judging");
    reveal_strlit("warming");
    reveal_strlit("no-model");
    reveal_strlit("blind");
    assert("all-clear"@.len() == 9);
    assert("watching"@.len() == 8 && "no-model"@.len() == 8);
    assert("judging"@.len() == 7 && "warming"@.len() == 7 && "blind"@.len() == 5);
}

/// A strip is never both green and watching, and a breach is neither.
pub proof fn watching_is_not_green(s: StatusStripProps)
    ensures
        !(s.clear() && s.watches()),
        s.breach_count > 0 ==> !s.clear() && !s.watches(),
        !s.is_up() ==> !s.clear() && !s.watches(),
{
}

/// A signing regression keeps the strip from green; against an established baseline it is louder
/// than watching, and against a fresh one an otherwise clear strip is watching.
pub proof fn regression_forbids_green(s: StatusStripProps, breach: usize, uncertain: usize)
    requires
        breach > 0 || uncertain > 0,
    ensures
        ({
            let r = StatusStripProps {
                signing_regression_breach: breach,
                signing_regression_uncertain: uncertain,
                ..s
            };
            &&& !r.clear()
            &&& breach > 0 ==> !r.watches()
            &&& breach == 0 && s.clear() ==> r.watches()
        }),
{
}

/// A stalled feed that has a chip keeps the strip from green, and says nothing about the model.
pub proof fn stall_forbids_green(s: StatusStripProps, r: StatusStripProps, a: StripCoverageAlert, i: int)
    requires
        r.coverage@ == s.coverage@.map_values(|c: CoverageChip| stalled_chip(c, a.feed_label@)),
        r == (StatusStripProps { coverage: r.coverage, coverage_alert: Some(a), ..s }),
        0 <= i < s.coverage@.len(),
        s.coverage@[i].label@ == a.feed_label@,
    ensures
        !r.clear(),
        r.is_up() == s.is_up(),
{
    assert(!r.coverage@[i].answers());
}

/// A feed that was never enabled does not keep the strip from green.
pub proof fn absence_is_not_silence(c: CoverageChip)
    requires
        !c.present,
        !c.degraded,
        !c.blind,
        !c.stalled,
    ensures
        c.answers(),
{
}

} // verus!
