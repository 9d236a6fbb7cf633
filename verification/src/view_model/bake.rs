//! What the behavioral feeds delivered in one pass.

use crate::view_model::readiness_data::BakeStats;
use vstd::prelude::*;

verus! {

/// How many signals of one variant there were.
#[derive(Debug, Clone, PartialEq, Eq)]
pub struct BakeVariantRow {
    pub variant: String,
    pub count: u64,
}

/// What the feeds delivered. The share of unattributed signals is `unresolved` of `attributed`.
#[derive(Debug, Clone, PartialEq, Eq)]
pub struct BakeProps {
    /// Nothing was observed, and the live store is empty.
    pub quiet: bool,
    pub total: u64,
    pub resolved: u64,
    pub unresolved: u64,
    /// The resolved and the unresolved signals together.
    pub attributed: u128,
    pub runtime_store: u64,
    pub corroborations: u64,
    pub variants: Vec<BakeVariantRow>,
}

/// A count of one variant as it shows.
pub open spec fn variant_shown(p: (String, u64)) -> BakeVariantRow {
    BakeVariantRow { variant: p.0, count: p.1 }
}

/// `p` shows what the feeds delivered.
pub open spec fn shows_bake(bake: BakeStats, p: BakeProps) -> bool {
    &&& p.total == bake.total()
    &&& p.quiet == (bake.total() == 0 && bake.runtime_store == 0)
    &&& p.resolved == bake.resolved
    &&& p.unresolved == bake.unresolved
    &&& p.attributed == bake.resolved + bake.unresolved
    &&& p.runtime_store == bake.runtime_store
    &&& p.corroborations == bake.corroborations
    &&& p.variants@ == bake.signals_by_variant@.map_values(|p: (String, u64)| variant_shown(p))
}

/// What the feeds delivered.
pub fn bake_props(bake: &BakeStats) -> (r: BakeProps)
    requires
        bake.wf(),
    ensures
        shows_bake(*bake, r),
{
    let total = bake.total_signals();
    let v = &bake.signals_by_variant;
    let mut variants: Vec<BakeVariantRow> = Vec::new();
    let mut i: usize = 0;
    while i < v.len()
        invariant
            i <= v.len(),
            variants@.len() == i,
            forall|k: int|
                0 <= k < i ==> #[trigger] variants@[k] == variant_shown(v@[k]),
        decreases v.len() - i,
    {
        variants.push(BakeVariantRow { variant: v[i].0.clone(), count: v[i].1 });
        i += 1;
    }
    assert(variants@ =~= v@.map_values(|p: (String, u64)| variant_shown(p)));
    BakeProps {
        quiet: total == 0 && bake.runtime_store == 0,
        total,
        resolved: bake.resolved,
        unresolved: bake.unresolved,
        attributed: bake.resolved as u128 + bake.unresolved as u128,
        runtime_store: bake.runtime_store,
        corroborations: bake.corroborations,
        variants,
    }
}

} // verus!
