//! A proven path as a list of hops, with the hop that the engine would sever.

use crate::graph::{short_text, NodeKey};
use crate::state::{Finding, PathStep};
use crate::text;
use vstd::prelude::*;
use vstd::string::*;

verus! {

/// One hop.
#[derive(Debug, Clone, PartialEq, Eq)]
pub struct Hop {
    pub relation: String,
    pub node: String,
    pub is_cut: bool,
    pub is_objective: bool,
}

/// The hops of one chain.
#[derive(Debug, Clone, PartialEq, Eq)]
pub struct HopList {
    pub entry: String,
    pub internet_reachable: bool,
    pub hops: Vec<Hop>,
    pub cut_note: Option<String>,
}

/// A relation as a plain verb.
pub open spec fn verb_text(rel: Seq<char>) -> Seq<char> {
    let head = text::before(rel, "/"@);
    if head == "reaches"@ {
        "reaches"@
    } else if head == "can-read"@ || head == "can-do"@ {
        "can read"@
    } else if head == "mounts"@ {
        "mounts"@
    } else if head == "runs-as"@ {
        "runs as"@
    } else if head == "escapes-via"@ {
        "escapes via"@
    } else {
        text::replace(head, '-', ' ')
    }
}

/// A relation as a plain verb.
pub fn humanize_relation(rel: &str) -> (r: String)
    ensures
        r@ == verb_text(rel@),
{
    let head = text::head(rel, "/");
    if text::same(head, "reaches") {
        "reaches".to_string()
    } else if text::same(head, "can-read") || text::same(head, "can-do") {
        "can read".to_string()
    } else if text::same(head, "mounts") {
        "mounts".to_string()
    } else if text::same(head, "runs-as") {
        "runs as".to_string()
    } else if text::same(head, "escapes-via") {
        "escapes via".to_string()
    } else {
        text::replaced(head, '-', ' ')
    }
}

/// What severing takes, where there is a cut: a fix for good, a human, or arming.
pub open spec fn cut_note_text(f: Finding) -> Option<Seq<char>> {
    match f.cut {
        None => None,
        Some(c) => Some(
            if text::contains(f.disposition@, "durable-fix"@) {
                "\u{2702} cut here (durable fix \u{2014} open a PR)"@
            } else if text::contains(f.disposition@, "forbidden"@) {
                "\u{2702} irreversible \u{2014} needs a human"@
            } else {
                "\u{2702} cut here (arm network)"@
            },
        ),
    }
}

/// `h` shows the step: the last one lands on the objective.
pub open spec fn shows_step(f: Finding, i: int, h: Hop) -> bool {
    let step = f.path@[i];
    &&& h.relation@ == verb_text(step.relation@)
    &&& h.node@ == short_text(step.to@)
    &&& h.is_cut == (text::opt_text(f.cut) == Some(step.signature_text()))
    &&& h.is_objective == (i == f.path@.len() - 1)
}

/// `l` shows the finding's path.
pub open spec fn shows_hops(f: Finding, l: HopList) -> bool {
    &&& l.entry@ == short_text(f.entry@)
    &&& l.internet_reachable == f.foothold
    &&& l.hops@.len() == f.path@.len()
    &&& forall|i: int| 0 <= i < l.hops@.len() ==> shows_step(f, i, #[trigger] l.hops@[i])
    &&& text::opt_text(l.cut_note) == cut_note_text(f)
}

fn cut_note(f: &Finding) -> (r: Option<String>)
    ensures
        text::opt_text(r) == cut_note_text(*f),
{
    match &f.cut {
        None => None,
        Some(_) => {
            let d = f.disposition.as_str();
            Some(
                if text::has(d, "durable-fix") {
                    "\u{2702} cut here (durable fix \u{2014} open a PR)".to_string()
                } else if text::has(d, "forbidden") {
                    "\u{2702} irreversible \u{2014} needs a human".to_string()
                } else {
                    "\u{2702} cut here (arm network)".to_string()
                },
            )
        },
    }
}

fn step_matches_cut(step: &PathStep, cut_sig: &str) -> (r: bool)
    ensures
        r == (step.signature_text() == cut_sig@),
{
    let s = step.signature();
    text::same(s.as_str(), cut_sig)
}

/// The hops of a finding's path.
pub fn hop_list(f: &Finding) -> (r: HopList)
    ensures
        shows_hops(*f, r),
{
    let mut hops: Vec<Hop> = Vec::new();
    let mut i: usize = 0;
    while i < f.path.len()
        invariant
            i <= f.path.len(),
            hops@.len() == i,
            forall|k: int| 0 <= k < i ==> shows_step(*f, k, #[trigger] hops@[k]),
        decreases f.path.len() - i,
    {
        let step = &f.path[i];
        let is_cut = match &f.cut {
            Some(sig) => step_matches_cut(step, sig.as_str()),
            None => false,
        };
        hops.push(
            Hop {
                relation: humanize_relation(step.relation.as_str()),
                node: NodeKey::short_of(step.to.as_str()).to_string(),
                is_cut,
                is_objective: i == f.path.len() - 1,
            },
        );
        i += 1;
    }
    HopList {
        entry: NodeKey::short_of(f.entry.as_str()).to_string(),
        internet_reachable: f.foothold,
        hops,
        cut_note: cut_note(f),
    }
}

/// A path has exactly one hop that lands on the objective, the last.
pub proof fn one_hop_is_the_objective(f: Finding, l: HopList, i: int)
    requires
        shows_hops(f, l),
        0 <= i < l.hops@.len(),
    ensures
        l.hops@[i].is_objective <==> i == l.hops@.len() - 1,
{
}

/// Without a cut no hop is marked and there is no note.
pub proof fn no_cut_no_mark(f: Finding, l: HopList, i: int)
    requires
        shows_hops(f, l),
        f.cut is None,
        0 <= i < l.hops@.len(),
    ensures
        !l.hops@[i].is_cut,
        l.cut_note is None,
{
}

} // verus!
