//! The cuts that were lifted again, as rows.

use crate::state::ReversionRecord;
use crate::view_model::posture::{relative_text, relative_time, seconds_between, seconds_since};
use vstd::prelude::*;

verus! {

/// A cut that was lifted again.
#[derive(Debug, Clone, PartialEq, Eq)]
pub struct ReversionRow {
    pub cut: String,
    pub reason: String,
    pub when: String,
}

/// The cuts that were lifted again, in the order they come.
#[derive(Debug, Clone, PartialEq, Eq)]
pub struct ReversionsProps {
    pub rows: Vec<ReversionRow>,
}

/// `row` shows the record as of `now_ms`.
pub open spec fn shows_reversion(r: ReversionRecord, now_ms: u64, row: ReversionRow) -> bool {
    &&& row.cut@ == r.cut@
    &&& row.reason@ == r.reason@
    &&& row.when@ == relative_text(Some(seconds_between(r.at_ms, now_ms) as u64))
}

/// The cuts that were lifted again, as of `now_ms`.
pub fn reversions_props(reversions: &[ReversionRecord], now_ms: u64) -> (r: ReversionsProps)
    ensures
        r.rows@.len() == reversions@.len(),
        forall|i: int|
            0 <= i < r.rows@.len() ==> shows_reversion(reversions@[i], now_ms, #[trigger] r.rows@[i]),
{
    let mut rows: Vec<ReversionRow> = Vec::new();
    let mut i: usize = 0;
    while i < reversions.len()
        invariant
            i <= reversions@.len(),
            rows@.len() == i,
            forall|k: int|
                0 <= k < i ==> shows_reversion(reversions@[k], now_ms, #[trigger] rows@[k]),
        decreases reversions@.len() - i,
    {
        let r = &reversions[i];
        rows.push(
            ReversionRow {
                cut: r.cut.clone(),
                reason: r.reason.clone(),
                when: relative_time(Some(seconds_since(r.at_ms, now_ms))),
            },
        );
        i += 1;
    }
    ReversionsProps { rows }
}

} // verus!
