//! The status strip, from how well the engine can see and what its findings say.

use crate::props::status::{CoverageChip, StatusStripProps};
use crate::state::{InputState, Readiness};
use crate::text;
use crate::view_model::posture::{age_text, human_age};
use vstd::prelude::*;
use vstd::string::*;

verus! {

/// A feed's chip, in characters.
pub struct Chip {
    pub label: Seq<char>,
    pub present: bool,
    pub degraded: bool,
    pub blind: bool,
    pub stalled: bool,
}

impl View for CoverageChip {
    type V = Chip;

    open spec fn view(&self) -> Chip {
        Chip {
            label: self.label@,
            present: self.present,
            degraded: self.degraded,
            blind: self.blind,
            stalled: self.stalled,
        }
    }
}

/// The chip of a feed, where there is a row for it.
pub open spec fn chip_of(readiness: Readiness, id: Seq<char>, label: Seq<char>) -> Seq<Chip> {
    match readiness.row(id) {
        Some(row) => seq![
            Chip {
                label,
                present: row.state == InputState::Present,
                degraded: row.state == InputState::Degraded,
                blind: row.state == InputState::Blind,
                stalled: false,
            },
        ],
        None => Seq::empty(),
    }
}

/// The chips of the enrichment feeds, in order.
pub open spec fn chips_of(readiness: Readiness) -> Seq<Chip> {
    chip_of(readiness, "kev"@, "KEV"@) + chip_of(readiness, "epss"@, "EPSS"@) + chip_of(
        readiness,
        "runtime-corroboration"@,
        "Runtime"@,
    )
}

/// The chips that are shown.
pub open spec fn chips_shown(v: Seq<CoverageChip>) -> Seq<Chip> {
    v.map_values(|c: CoverageChip| c@)
}

/// The engine enforces: the detail of its arm state says so.
pub open spec fn is_armed(readiness: Readiness) -> bool {
    readiness.row("arm-state"@) matches Some(r) && "enforcing"@.is_prefix_of(r.detail@)
}

/// How long ago the last pass was.
pub open spec fn pass_text(age: Option<u64>) -> Option<Seq<char>> {
    match age {
        Some(secs) => Some(age_text(secs as nat) + " ago"@),
        None => None,
    }
}

/// `s` is the strip of these counts.
pub open spec fn is_strip(
    cluster: Seq<char>,
    readiness: Readiness,
    last_pass: Option<u64>,
    s: StatusStripProps,
) -> bool {
    &&& s.cluster@ == cluster
    &&& s.armed == is_armed(readiness)
    &&& s.model_judging == readiness.model_judging
    &&& s.warming_up == readiness.warming_up
    &&& s.model_attached == readiness.has_model()
    &&& chips_shown(s.coverage@) == chips_of(readiness)
    &&& s.coverage_alert is None
    &&& text::opt_text(s.last_pass) == pass_text(last_pass)
    &&& s.signing_regression_breach == 0
    &&& s.signing_regression_uncertain == 0
}

/// Appends the chip of a feed, where there is a row for it.
fn add_chip(v: &mut Vec<CoverageChip>, readiness: &Readiness, id: &str, label: &str)
    ensures
        chips_shown(final(v)@) == chips_shown(old(v)@) + chip_of(*readiness, id@, label@),
{
    let ghost before = v@;
    match readiness.find_row(id) {
        Some(row) => {
            v.push(
                CoverageChip {
                    label: label.to_string(),
                    present: row.state == InputState::Present,
                    degraded: row.state == InputState::Degraded,
                    blind: row.state == InputState::Blind,
                    stalled: false,
                },
            );
        },
        None => {},
    }
    assert(chips_shown(v@) =~= chips_shown(before) + chip_of(*readiness, id@, label@));
}

fn coverage_chips(readiness: &Readiness) -> (r: Vec<CoverageChip>)
    ensures
        chips_shown(r@) == chips_of(*readiness),
{
    let mut v: Vec<CoverageChip> = Vec::new();
    add_chip(&mut v, readiness, "kev", "KEV");
    add_chip(&mut v, readiness, "epss", "EPSS");
    add_chip(&mut v, readiness, "runtime-corroboration", "Runtime");
    assert(chips_shown(v@) =~= chips_of(*readiness));
    v
}

fn armed_from(readiness: &Readiness) -> (r: bool)
    ensures
        r == is_armed(*readiness),
{
    match readiness.find_row("arm-state") {
        Some(row) => text::leads(row.detail.as_str(), "enforcing"),
        None => false,
    }
}

fn last_pass_age(secs: u64) -> (r: String)
    ensures
        r@ == age_text(secs as nat) + " ago"@,
{
    human_age(secs).concat(" ago")
}

/// The strip with these counts. `last_pass` is how many seconds ago the last pass was.
pub fn status_strip(
    cluster: String,
    readiness: &Readiness,
    last_pass: Option<u64>,
    breach_count: usize,
    awaiting_count: usize,
    uncertain_count: usize,
    cleared_count: usize,
    escalated_count: usize,
) -> (r: StatusStripProps)
    ensures
        is_strip(cluster@, *readiness, last_pass, r),
        r.breach_count == breach_count,
        r.awaiting_count == awaiting_count,
        r.uncertain_count == uncertain_count,
        r.cleared_count == cleared_count,
        r.escalated_count == escalated_count,
{
    StatusStripProps {
        cluster,
        armed: armed_from(readiness),
        model_judging: readiness.model_judging,
        warming_up: readiness.warming_up,
        model_attached: readiness.model_attached(),
        coverage: coverage_chips(readiness),
        coverage_alert: None,
        last_pass: match last_pass {
            Some(secs) => Some(last_pass_age(secs)),
            None => None,
        },
        breach_count,
        awaiting_count,
        uncertain_count,
        cleared_count,
        escalated_count,
        signing_regression_breach: 0,
        signing_regression_uncertain: 0,
    }
}

// ---------------------------------------------------------------------------
// Laws
// ---------------------------------------------------------------------------

/// A strip is green only while the model judges, a pass has completed, and no feed with a chip is
/// degraded or dark.
pub proof fn strip_is_green_only_when_covered(
    cluster: Seq<char>,
    readiness: Readiness,
    last_pass: Option<u64>,
    s: StatusStripProps,
    feed: Seq<char>,
)
    requires
        is_strip(cluster, readiness, last_pass, s),
        s.clear(),
        feed == "kev"@ || feed == "epss"@ || feed == "runtime-corroboration"@,
    ensures
        readiness.model_judging,
        !readiness.warming_up,
        readiness.row(feed) matches Some(r) ==> r.state != InputState::Degraded && r.state
            != InputState::Blind,
{
    match readiness.row(feed) {
        Some(r) => {
            let kev = chip_of(readiness, "kev"@, "KEV"@);
            let epss = chip_of(readiness, "epss"@, "EPSS"@);
            let n: int = if feed == "kev"@ {
                0
            } else if feed == "epss"@ {
                kev.len() as int
            } else {
                (kev.len() + epss.len()) as int
            };
            let c = chips_of(readiness)[n];
            assert(c.degraded == (r.state == InputState::Degraded));
            assert(c.blind == (r.state == InputState::Blind));
            assert(chips_shown(s.coverage@).len() == s.coverage@.len());
            assert(n < s.coverage@.len());
            assert(chips_shown(s.coverage@)[n] == s.coverage@[n]@);
            assert(s.coverage@[n].answers());
        },
        None => {},
    }
}

} // verus!
