//! The scope preview: which standing cuts would fire under a candidate scope. Looking arms nothing.

use crate::props::scope_preview::{FiringCutProps, HeldCutProps, ScopePreviewViewProps};
use crate::props::status::StatusStripProps;
use crate::text;
use vstd::prelude::*;
use vstd::string::*;

verus! {

/// A standing cut that the engine could apply, and whether the candidate scope covers it.
#[derive(Debug, Clone, PartialEq, Eq)]
pub struct StandingCut {
    pub cut: String,
    /// What applying it would do, in words.
    pub action: String,
    pub alive_collateral: Vec<String>,
    /// Reachability was not fully modeled, and so the collateral may not be complete.
    pub reachability_incomplete: bool,
    pub covered: bool,
}

/// The cut would fire: the scope names something, and covers it.
pub open spec fn fires(c: StandingCut, empty: bool) -> bool {
    !empty && c.covered
}

/// `p` shows a cut that would fire.
pub open spec fn shows_firing(c: StandingCut, p: FiringCutProps) -> bool {
    &&& p.cut == c.cut
    &&& p.action == c.action
    &&& p.alive_collateral@ == c.alive_collateral@
    &&& p.collateral_unknown == c.reachability_incomplete
}

/// The cut as it is held.
pub open spec fn held_shown(c: StandingCut) -> HeldCutProps {
    HeldCutProps { cut: c.cut, action: c.action }
}

/// The cuts that would fire.
pub open spec fn firing(standing: Seq<StandingCut>, empty: bool) -> Seq<StandingCut> {
    standing.filter(|c: StandingCut| fires(c, empty))
}

/// The cuts that would be held.
pub open spec fn held(standing: Seq<StandingCut>, empty: bool) -> Seq<StandingCut> {
    standing.filter(|c: StandingCut| !fires(c, empty))
}

/// A label as `key=value`.
pub open spec fn label_text(l: (String, String)) -> Seq<char> {
    l.0@ + "="@ + l.1@
}

/// `v` is the preview of the candidate scope.
pub open spec fn is_preview(
    strip: StatusStripProps,
    standing: Seq<StandingCut>,
    namespaces: Seq<String>,
    labels: Seq<(String, String)>,
    v: ScopePreviewViewProps,
) -> bool {
    &&& v.strip == strip
    &&& v.candidate_namespaces@ == namespaces
    &&& text::texts(v.candidate_labels@) == labels.map_values(|l: (String, String)| label_text(l))
    &&& v.candidate_is_empty == (namespaces.len() == 0 && labels.len() == 0)
    &&& v.would_fire@.len() == firing(standing, v.candidate_is_empty).len()
    &&& forall|i: int|
        0 <= i < v.would_fire@.len() ==> shows_firing(
            firing(standing, v.candidate_is_empty)[i],
            #[trigger] v.would_fire@[i],
        )
    &&& v.held_out_of_scope@ == held(standing, v.candidate_is_empty).map_values(
        |c: StandingCut| held_shown(c),
    )
}

fn firing_cut_props(c: &StandingCut) -> (r: FiringCutProps)
    ensures
        shows_firing(*c, r),
{
    let alive = c.alive_collateral.clone();
    assert(alive@ =~= c.alive_collateral@);
    FiringCutProps {
        cut: c.cut.clone(),
        action: c.action.clone(),
        alive_collateral: alive,
        collateral_unknown: c.reachability_incomplete,
    }
}

fn held_cut_props(c: &StandingCut) -> (r: HeldCutProps)
    ensures
        r == held_shown(*c),
{
    HeldCutProps { cut: c.cut.clone(), action: c.action.clone() }
}

/// The preview of a candidate scope, which is echoed as it was given. A scope that names nothing
/// fires nothing.
pub fn build(
    strip: StatusStripProps,
    standing: &[StandingCut],
    namespaces: &Vec<String>,
    labels: &Vec<(String, String)>,
) -> (r: ScopePreviewViewProps)
    ensures
        is_preview(strip, standing@, namespaces@, labels@, r),
{
    let empty = namespaces.len() == 0 && labels.len() == 0;
    let ghost yes = |c: StandingCut| fires(c, empty);
    let ghost no = |c: StandingCut| !fires(c, empty);
    let ghost f = |c: StandingCut| held_shown(c);
    let mut would_fire: Vec<FiringCutProps> = Vec::new();
    let mut held_cuts: Vec<HeldCutProps> = Vec::new();
    let mut i: usize = 0;
    assert(standing@.take(0).filter(yes) =~= Seq::empty());
    assert(held_cuts@ =~= standing@.take(0).filter(no).map_values(f));
    while i < standing.len()
        invariant
            i <= standing@.len(),
            yes == |c: StandingCut| fires(c, empty),
            no == |c: StandingCut| !fires(c, empty),
            f == |c: StandingCut| held_shown(c),
            would_fire@.len() == standing@.take(i as int).filter(yes).len(),
            forall|k: int|
                0 <= k < would_fire@.len() ==> shows_firing(
                    standing@.take(i as int).filter(yes)[k],
                    #[trigger] would_fire@[k],
                ),
            held_cuts@ == standing@.take(i as int).filter(no).map_values(f),
        decreases standing@.len() - i,
    {
        broadcast use vstd::seq::Seq::lemma_filter_push;

        let c = &standing[i];
        let ghost so_far = standing@.take(i as int).filter(no);
        assert(standing@.take(i + 1) =~= standing@.take(i as int).push(*c));
        if !empty && c.covered {
            would_fire.push(firing_cut_props(c));
        } else {
            held_cuts.push(held_cut_props(c));
            assert(so_far.push(*c).map_values(f) =~= so_far.map_values(f).push(f(*c)));
        }
        i += 1;
    }
    assert(standing@.take(standing@.len() as int) =~= standing@);
    let ghost lt = |l: (String, String)| label_text(l);
    let mut shown: Vec<String> = Vec::new();
    let mut k: usize = 0;
    while k < labels.len()
        invariant
            k <= labels.len(),
            shown@.len() == k,
            forall|j: int| 0 <= j < k ==> (#[trigger] shown@[j])@ == label_text(labels@[j]),
        decreases labels.len() - k,
    {
        shown.push(labels[k].0.clone().concat("=").concat(labels[k].1.as_str()));
        k += 1;
    }
    assert(text::texts(shown@) =~= labels@.map_values(lt));
    let echoed = namespaces.clone();
    assert(echoed@ =~= namespaces@);
    ScopePreviewViewProps {
        strip,
        candidate_namespaces: echoed,
        candidate_labels: shown,
        candidate_is_empty: empty,
        would_fire,
        held_out_of_scope: held_cuts,
    }
}

// ---------------------------------------------------------------------------
// Laws
// ---------------------------------------------------------------------------

/// A scope that names nothing fires nothing and holds every cut.
pub proof fn empty_scope_fires_nothing(standing: Seq<StandingCut>)
    ensures
        firing(standing, true).len() == 0,
        held(standing, true) == standing,
    decreases standing.len(),
{
    broadcast use vstd::seq::Seq::lemma_filter_push;

    let yes = |c: StandingCut| fires(c, true);
    let no = |c: StandingCut| !fires(c, true);
    if standing.len() == 0 {
        assert(standing.filter(yes) =~= Seq::empty());
        assert(standing.filter(no) =~= standing);
    } else {
        empty_scope_fires_nothing(standing.drop_last());
        assert(standing =~= standing.drop_last().push(standing.last()));
    }
}

/// Every standing cut either would fire or is held.
pub proof fn cuts_are_partitioned(standing: Seq<StandingCut>, empty: bool)
    ensures
        firing(standing, empty).len() + held(standing, empty).len() == standing.len(),
    decreases standing.len(),
{
    broadcast use vstd::seq::Seq::lemma_filter_push;

    let yes = |c: StandingCut| fires(c, empty);
    let no = |c: StandingCut| !fires(c, empty);
    if standing.len() == 0 {
        assert(standing.filter(yes) =~= Seq::empty());
        assert(standing.filter(no) =~= Seq::empty());
    } else {
        cuts_are_partitioned(standing.drop_last(), empty);
        assert(standing =~= standing.drop_last().push(standing.last()));
    }
}

} // verus!
