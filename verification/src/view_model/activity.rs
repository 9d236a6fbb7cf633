//! The Activity view: the lifted cuts and the judgements.

use crate::props::action::ActivityViewProps;
use crate::props::status::StatusStripProps;
use crate::state::{Judgement, ReversionRecord};
use crate::view_model::action::{
    judgement_props, judgement_shown, reversion_props, reversions_shown,
};
use vstd::prelude::*;

verus! {

/// `v` is the Activity view as of `now_ms`.
pub open spec fn is_view(
    strip: StatusStripProps,
    reversions: Seq<ReversionRecord>,
    judgements: Seq<Judgement>,
    now_ms: u64,
    v: ActivityViewProps,
) -> bool {
    &&& v.strip == strip
    &&& reversions_shown(reversions, now_ms, v.reversions@)
    &&& v.judgements@ == judgements.map_values(|j: Judgement| judgement_shown(j))
}

/// The Activity view as of `now_ms`, in milliseconds since the Unix epoch.
pub fn build_at(
    strip: StatusStripProps,
    reversions: &[ReversionRecord],
    judgements: &[Judgement],
    now_ms: u64,
) -> (r: ActivityViewProps)
    ensures
        is_view(strip, reversions@, judgements@, now_ms, r),
{
    ActivityViewProps {
        strip,
        reversions: reversion_props(reversions, now_ms),
        judgements: judgement_props(judgements),
    }
}

} // verus!
