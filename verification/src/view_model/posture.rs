//! How a verdict and a change read: the one place where a posture is made, so that what is
//! uncertain or unjudged never reads as cleared.

use crate::props::findings::{DeltaProps, LiveTag, Posture};
use crate::state::{Delta, RecencyInfo, Verdict};
use crate::text;
use vstd::prelude::*;
use vstd::string::*;

verus! {

/// The posture of a verdict, or of none.
pub open spec fn posture_for(verdict: Option<Verdict>) -> Posture {
    match verdict {
        None => Posture::Awaiting,
        Some(Verdict::Confirmed) => Posture::Breach,
        Some(Verdict::Exploitable(why)) => Posture::Breach,
        Some(Verdict::Refuted(why)) => Posture::Cleared,
        Some(Verdict::Uncertain(why)) => Posture::Uncertain,
    }
}

/// What a breach rests on.
pub open spec fn live_tag_for(verdict: Option<Verdict>) -> LiveTag {
    match verdict {
        Some(Verdict::Confirmed) => LiveTag::Live,
        Some(Verdict::Exploitable(why)) => LiveTag::Judged,
        _ => LiveTag::Untagged,
    }
}

/// A number of seconds in the largest unit that it fills: seconds, minutes, hours or days.
pub open spec fn age_text(secs: nat) -> Seq<char> {
    if secs < 60 {
        text::decimal(secs) + "s"@
    } else if secs < 3600 {
        text::decimal(secs / 60) + "m"@
    } else if secs < 86_400 {
        text::decimal(secs / 3600) + "h"@
    } else {
        text::decimal(secs / 86_400) + "d"@
    }
}

/// The age, where there is one.
pub open spec fn opt_age_text(age: Option<u64>) -> Option<Seq<char>> {
    match age {
        Some(secs) => Some(age_text(secs as nat)),
        None => None,
    }
}

/// How long ago something was; before the first pass there is nothing to count from.
pub open spec fn relative_text(age: Option<u64>) -> Seq<char> {
    match age {
        None => "waiting for first pass"@,
        Some(secs) => if secs == 0 {
            "just now"@
        } else {
            age_text(secs as nat) + " ago"@
        },
    }
}

/// The whole seconds from one moment to another, both in milliseconds; none where the second is not
/// later.
pub open spec fn seconds_between(at_ms: u64, now_ms: u64) -> int {
    if now_ms > at_ms {
        (now_ms - at_ms) / 1000
    } else {
        0
    }
}

/// `d` shows the change and, for a steady entry alone, its age.
pub open spec fn shows_delta(recency: Option<RecencyInfo>, d: DeltaProps) -> bool {
    match recency {
        None => d == (DeltaProps::Unchanged { age: None }),
        Some(info) => match info.delta {
            Delta::New => d is New,
            Delta::Escalated => d is Escalated,
            Delta::DeEscalated => d is DeEscalated,
            Delta::Restored => d is Restored,
            Delta::Unchanged => d matches DeltaProps::Unchanged { age } && text::opt_text(age)
                == opt_age_text(info.age_secs),
        },
    }
}

/// The posture of a verdict. Without one, the entry is awaiting judgement.
pub fn posture_of(verdict: Option<&Verdict>) -> (r: Posture)
    ensures
        verdict matches Some(v) ==> r == posture_for(Some(*v)),
        verdict is None ==> r == posture_for(None),
{
    match verdict {
        None => Posture::Awaiting,
        Some(Verdict::Confirmed) => Posture::Breach,
        Some(Verdict::Exploitable(why)) => Posture::Breach,
        Some(Verdict::Refuted(why)) => Posture::Cleared,
        Some(Verdict::Uncertain(why)) => Posture::Uncertain,
    }
}

/// Whether a breach rests on a live signal or on the model alone.
pub fn live_tag_of(verdict: Option<&Verdict>) -> (r: LiveTag)
    ensures
        verdict matches Some(v) ==> r == live_tag_for(Some(*v)),
        verdict is None ==> r == live_tag_for(None),
{
    match verdict {
        Some(Verdict::Confirmed) => LiveTag::Live,
        Some(Verdict::Exploitable(why)) => LiveTag::Judged,
        _ => LiveTag::Untagged,
    }
}

/// A number of seconds in the largest unit that it fills.
pub fn human_age(secs: u64) -> (r: String)
    ensures
        r@ == age_text(secs as nat),
{
    if secs < 60 {
        text::number(secs).concat("s")
    } else if secs < 3600 {
        text::number(secs / 60).concat("m")
    } else if secs < 86_400 {
        text::number(secs / 3600).concat("h")
    } else {
        text::number(secs / 86_400).concat("d")
    }
}

/// How long ago something was.
pub fn relative_time(age: Option<u64>) -> (r: String)
    ensures
        r@ == relative_text(age),
{
    match age {
        None => "waiting for first pass".to_string(),
        Some(secs) => if secs == 0 {
            "just now".to_string()
        } else {
            human_age(secs).concat(" ago")
        },
    }
}

/// The whole seconds from one moment to another.
pub fn seconds_since(at_ms: u64, now_ms: u64) -> (r: u64)
    ensures
        r == seconds_between(at_ms, now_ms),
{
    if now_ms > at_ms {
        (now_ms - at_ms) / 1000
    } else {
        0
    }
}

/// The change of an entry. A steady one shows its age and no alarm.
pub fn delta_of(recency: Option<&RecencyInfo>) -> (r: DeltaProps)
    ensures
        recency matches Some(info) ==> shows_delta(Some(*info), r),
        recency is None ==> shows_delta(None, r),
{
    match recency {
        None => DeltaProps::Unchanged { age: None },
        Some(info) => match info.delta {
            Delta::New => DeltaProps::New,
            Delta::Escalated => DeltaProps::Escalated,
            Delta::DeEscalated => DeltaProps::DeEscalated,
            Delta::Restored => DeltaProps::Restored,
            Delta::Unchanged => DeltaProps::Unchanged {
                age: match info.age_secs {
                    Some(secs) => Some(human_age(secs)),
                    None => None,
                },
            },
        },
    }
}

/// Only a refutation clears: no verdict and an uncertain one never do.
pub proof fn only_refuted_is_cleared(verdict: Option<Verdict>)
    ensures
        posture_for(verdict) == Posture::Cleared <==> verdict matches Some(Verdict::Refuted(why)),
{
}

/// A sub-tag is there exactly for a breach.
pub proof fn tagged_iff_breach(verdict: Option<Verdict>)
    ensures
        live_tag_for(verdict) != LiveTag::Untagged <==> posture_for(verdict) == Posture::Breach,
{
}

} // verus!
