//! The Access view: the audited disclosures, each redacted to the caller's own tier. That a
//! disclosure happened, and by whom, is always shown; what it was about is shown only to a caller
//! whose tier reveals workloads.

use crate::props::access::{AccessPullRow, AccessTier, AccessViewProps, TierRevealRow};
use crate::props::status::StatusStripProps;
use crate::state::{AccessRecord, EffectiveTier, Tier};
use crate::text;
use crate::view_model::posture::{age_text, human_age};
use vstd::prelude::*;
use vstd::string::*;

verus! {

/// The fixed labels that the disclosure tool uses.
#[derive(Debug, Clone, PartialEq, Eq)]
pub struct DisclosureLabels {
    /// What a bulk pull names in place of a workload. It is the same for every viewer.
    pub bulk_scope: String,
    /// What stands for a workload that is withheld.
    pub withheld: String,
}

/// The target as a caller of this tier sees it.
pub open spec fn target_text(entry: Seq<char>, caller: Tier, labels: DisclosureLabels) -> Seq<char> {
    if entry == labels.bulk_scope@ || caller.level() >= Tier::Forensic.level() {
        entry
    } else {
        labels.withheld@
    }
}

/// The seconds from one moment to another; none where the second is not later.
pub open spec fn elapsed(from: u64, to: u64) -> int {
    if to > from {
        to - from
    } else {
        0
    }
}

/// `p` shows the disclosure to a caller of this tier.
pub open spec fn shows_pull(
    r: AccessRecord,
    caller: Tier,
    now_secs: u64,
    labels: DisclosureLabels,
    p: AccessPullRow,
) -> bool {
    &&& p.when@ == age_text(elapsed(r.time_unix_secs, now_secs) as nat) + " ago"@
    &&& p.who@ == r.subject@
    &&& p.tool@ == r.tool@
    &&& p.tier == AccessTier::of_effective(r.tier)
    &&& p.target@ == target_text(r.entry@, caller, labels)
    &&& p.raw == (r.tier == EffectiveTier::Raw)
}

/// What a tier reveals, in characters.
pub struct Reveal {
    pub tier: AccessTier,
    pub reveals: Seq<char>,
    pub withholds: Seq<char>,
    pub held: bool,
}

impl View for TierRevealRow {
    type V = Reveal;

    open spec fn view(&self) -> Reveal {
        Reveal {
            tier: self.tier,
            reveals: self.reveals@,
            withholds: self.withholds@,
            held: self.held,
        }
    }
}

/// What each tier reveals, and whether a caller of this tier holds it.
pub open spec fn reveals_of(caller: Tier) -> Seq<Reveal> {
    seq![
        Reveal {
            tier: AccessTier::Redacted,
            reveals: "verdicts, counts, technique IDs, coverage & freshness"@,
            withholds: "nothing cluster-specific is disclosed at this tier"@,
            held: caller.level() >= Tier::Redacted.level(),
        },
        Reveal {
            tier: AccessTier::Forensic,
            reveals: "judgement prompt+reply, CVE ids + reachability, proven paths, workload & node names"@,
            withholds: "secret names stay scrubbed"@,
            held: caller.level() >= Tier::Forensic.level(),
        },
        Reveal {
            tier: AccessTier::Raw,
            reveals: "secret names (per-entry only \u{2014} never a bulk dump)"@,
            withholds: "secret VALUES \u{2014} never; no tool has a read path to a value"@,
            held: caller.level() >= Tier::Raw.level(),
        },
    ]
}

/// `v` is the Access view of a caller of this tier.
pub open spec fn is_view(
    strip: StatusStripProps,
    caller: Tier,
    records: Seq<AccessRecord>,
    durable: bool,
    labels: DisclosureLabels,
    now_secs: u64,
    v: AccessViewProps,
) -> bool {
    &&& v.strip == strip
    &&& v.tier == AccessTier::of_claim(caller)
    &&& v.reveals@.map_values(|t: TierRevealRow| t@) == reveals_of(caller)
    &&& v.pulls@.len() == records.len()
    &&& forall|i: int|
        0 <= i < records.len() ==> shows_pull(
            records[i],
            caller,
            now_secs,
            labels,
            #[trigger] v.pulls@[i],
        )
    &&& v.durable == durable
}

fn redacted_target(entry: &str, caller: Tier, labels: &DisclosureLabels) -> (r: String)
    ensures
        r@ == target_text(entry@, caller, *labels),
{
    if text::same(entry, labels.bulk_scope.as_str()) || caller.includes(Tier::Forensic) {
        entry.to_string()
    } else {
        labels.withheld.clone()
    }
}

fn pull_row(r: &AccessRecord, caller: Tier, now_secs: u64, labels: &DisclosureLabels) -> (p: AccessPullRow)
    ensures
        shows_pull(*r, caller, now_secs, *labels, p),
{
    let age: u64 = if now_secs > r.time_unix_secs {
        now_secs - r.time_unix_secs
    } else {
        0
    };
    AccessPullRow {
        when: human_age(age).concat(" ago"),
        who: r.subject.clone(),
        tool: r.tool.clone(),
        tier: AccessTier::from_effective(r.tier),
        target: redacted_target(r.entry.as_str(), caller, labels),
        raw: r.tier == EffectiveTier::Raw,
    }
}

fn reveal_rows(caller: Tier) -> (r: Vec<TierRevealRow>)
    ensures
        r@.map_values(|t: TierRevealRow| t@) == reveals_of(caller),
{
    let r: Vec<TierRevealRow> = vec![
        TierRevealRow {
            tier: AccessTier::Redacted,
            reveals: "verdicts, counts, technique IDs, coverage & freshness".to_string(),
            withholds: "nothing cluster-specific is disclosed at this tier".to_string(),
            held: caller.includes(Tier::Redacted),
        },
        TierRevealRow {
            tier: AccessTier::Forensic,
            reveals: "judgement prompt+reply, CVE ids + reachability, proven paths, workload & node names".to_string(),
            withholds: "secret names stay scrubbed".to_string(),
            held: caller.includes(Tier::Forensic),
        },
        TierRevealRow {
            tier: AccessTier::Raw,
            reveals: "secret names (per-entry only \u{2014} never a bulk dump)".to_string(),
            withholds: "secret VALUES \u{2014} never; no tool has a read path to a value".to_string(),
            held: caller.includes(Tier::Raw),
        },
    ];
    assert(r@.map_values(|t: TierRevealRow| t@) =~= reveals_of(caller));
    r
}

/// The Access view of a caller of this tier, as of `now_secs` seconds since the Unix epoch.
pub fn build(
    strip: StatusStripProps,
    caller_tier: Tier,
    records: &[AccessRecord],
    durable: bool,
    labels: &DisclosureLabels,
    now_secs: u64,
) -> (r: AccessViewProps)
    ensures
        is_view(strip, caller_tier, records@, durable, *labels, now_secs, r),
{
    let mut pulls: Vec<AccessPullRow> = Vec::new();
    let mut i: usize = 0;
    while i < records.len()
        invariant
            i <= records@.len(),
            pulls@.len() == i,
            forall|k: int|
                0 <= k < i ==> shows_pull(
                    records@[k],
                    caller_tier,
                    now_secs,
                    *labels,
                    #[trigger] pulls@[k],
                ),
        decreases records@.len() - i,
    {
        pulls.push(pull_row(&records[i], caller_tier, now_secs, labels));
        i += 1;
    }
    AccessViewProps {
        strip,
        tier: AccessTier::from_claim(caller_tier),
        reveals: reveal_rows(caller_tier),
        pulls,
        durable,
    }
}

// ---------------------------------------------------------------------------
// Laws
// ---------------------------------------------------------------------------

/// A redacted caller learns nothing of a target: whatever workload was pulled, the row is the same.
pub proof fn redacted_callers_learn_no_target(
    a: Seq<char>,
    b: Seq<char>,
    labels: DisclosureLabels,
)
    requires
        a != labels.bulk_scope@,
        b != labels.bulk_scope@,
    ensures
        target_text(a, Tier::Redacted, labels) == target_text(b, Tier::Redacted, labels),
{
}

/// A caller whose tier reveals workloads sees every target, and everybody sees a bulk pull's label.
pub proof fn targets_show_where_they_may(entry: Seq<char>, caller: Tier, labels: DisclosureLabels)
    ensures
        caller != Tier::Redacted ==> target_text(entry, caller, labels) == entry,
        target_text(labels.bulk_scope@, caller, labels) == labels.bulk_scope@,
{
}

/// A higher tier holds whatever a lower one does.
pub proof fn tiers_are_nested(low: Tier, high: Tier, i: int)
    requires
        low.level() <= high.level(),
        0 <= i < 3,
        reveals_of(low)[i].held,
    ensures
        reveals_of(high)[i].held,
{
}

} // verus!
