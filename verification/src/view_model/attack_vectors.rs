//! What an attacker could reach, by technique: how many objectives are reachable by each, and how
//! many the model affirmed.

use crate::state::EndpointFinding;
use crate::text;
use crate::text_set::TextSet;
use crate::view_model::endpoints::words::{flagged, flags};
use crate::view_model::triples::{keys, lemma_ordered, ordered, ordered_triples, Key, Triple};
use vstd::prelude::*;

verus! {

/// One technique.
#[derive(Debug, Clone, PartialEq, Eq)]
pub struct AttackVectorRow {
    pub tactic: String,
    pub technique_id: String,
    pub technique_name: String,
    /// How many distinct objectives it reaches.
    pub reachable: usize,
    /// How many of them the model affirmed.
    pub flagged: usize,
}

/// The techniques, by tactic and technique.
#[derive(Debug, Clone, PartialEq, Eq)]
pub struct AttackVectorsProps {
    pub rows: Vec<AttackVectorRow>,
}

/// The technique of a finding.
pub open spec fn vector_of(f: EndpointFinding) -> Key {
    Key { first: f.tactic_name@, second: f.technique@, third: f.technique_name@ }
}

/// The findings that bear on a breach.
pub open spec fn relevant(findings: Seq<EndpointFinding>) -> Seq<EndpointFinding> {
    findings.filter(|f: EndpointFinding| f.breach_relevant)
}

/// The techniques that occur, in order.
pub open spec fn vectors(findings: Seq<EndpointFinding>) -> Seq<Key> {
    ordered(relevant(findings).map_values(|f: EndpointFinding| vector_of(f)))
}

/// The objectives that the first `n` findings reach by a technique, or those of them that the model
/// affirmed.
pub open spec fn reached(findings: Seq<EndpointFinding>, k: Key, affirmed: bool, n: int) -> Set<
    Seq<char>,
>
    decreases n,
{
    if n <= 0 || n > findings.len() {
        Set::empty()
    } else {
        let f = findings[n - 1];
        let rest = reached(findings, k, affirmed, n - 1);
        if f.breach_relevant && vector_of(f) == k && (affirmed ==> flags(text::opt_text(f.verdict))) {
            rest.insert(f.objective@)
        } else {
            rest
        }
    }
}

/// `r` counts the distinct objectives of a technique.
pub open spec fn shows_vector(findings: Seq<EndpointFinding>, k: Key, r: AttackVectorRow) -> bool {
    let n = findings.len() as int;
    &&& r.tactic@ == k.first
    &&& r.technique_id@ == k.second
    &&& r.technique_name@ == k.third
    &&& r.reachable == reached(findings, k, false, n).len()
    &&& r.flagged == reached(findings, k, true, n).len()
}

/// `p` shows the techniques in order.
pub open spec fn shows_vectors(findings: Seq<EndpointFinding>, p: AttackVectorsProps) -> bool {
    &&& p.rows@.len() == vectors(findings).len()
    &&& forall|i: int|
        0 <= i < p.rows@.len() ==> shows_vector(findings, vectors(findings)[i], #[trigger] p.rows@[i])
}

fn vector_triple(f: &EndpointFinding) -> (r: Triple)
    ensures
        r@ == vector_of(*f),
{
    Triple {
        first: f.tactic_name.clone(),
        second: f.technique.clone(),
        third: f.technique_name.clone(),
    }
}

fn count_reached(findings: &[EndpointFinding], k: &Triple, affirmed: bool) -> (r: usize)
    ensures
        r == reached(findings@, k@, affirmed, findings@.len() as int).len(),
{
    let mut s = TextSet::new();
    let mut i: usize = 0;
    while i < findings.len()
        invariant
            i <= findings@.len(),
            s.wf(),
            s@ == reached(findings@, k@, affirmed, i as int),
        decreases findings@.len() - i,
    {
        let f = &findings[i];
        if f.breach_relevant {
            let t = vector_triple(f);
            let words = match &f.verdict {
                Some(v) => Some(v.as_str()),
                None => None,
            };
            if t.is_same(k) && (!affirmed || flagged(words)) {
                s.insert(f.objective.clone());
            }
        }
        i += 1;
    }
    s.len()
}

/// The techniques by which objectives are reachable.
pub fn attack_vectors_props(findings: &[EndpointFinding]) -> (r: AttackVectorsProps)
    ensures
        shows_vectors(findings@, r),
{
    let ghost p = |f: EndpointFinding| f.breach_relevant;
    let ghost v = |f: EndpointFinding| vector_of(f);
    let mut all: Vec<Triple> = Vec::new();
    let mut i: usize = 0;
    assert(keys(all@) =~= findings@.take(0).filter(p).map_values(v));
    while i < findings.len()
        invariant
            i <= findings@.len(),
            p == |f: EndpointFinding| f.breach_relevant,
            v == |f: EndpointFinding| vector_of(f),
            keys(all@) == findings@.take(i as int).filter(p).map_values(v),
        decreases findings@.len() - i,
    {
        broadcast use vstd::seq::Seq::lemma_filter_push;

        let ghost f = findings@[i as int];
        let ghost so_far = findings@.take(i as int).filter(p);
        assert(findings@.take(i + 1) =~= findings@.take(i as int).push(f));
        if findings[i].breach_relevant {
            let ghost before = all@;
            all.push(vector_triple(&findings[i]));
            assert(keys(all@) =~= keys(before).push(vector_of(f)));
            assert(so_far.push(f).map_values(v) =~= so_far.map_values(v).push(vector_of(f)));
        }
        i += 1;
    }
    assert(findings@.take(findings@.len() as int) =~= findings@);
    let triples = ordered_triples(&all);
    let mut rows: Vec<AttackVectorRow> = Vec::new();
    let mut k: usize = 0;
    while k < triples.len()
        invariant
            k <= triples.len(),
            keys(triples@) == vectors(findings@),
            rows@.len() == k,
            forall|j: int|
                0 <= j < k ==> shows_vector(
                    findings@,
                    vectors(findings@)[j],
                    #[trigger] rows@[j],
                ),
        decreases triples.len() - k,
    {
        let t = &triples[k];
        assert(vectors(findings@)[k as int] == t@);
        rows.push(
            AttackVectorRow {
                tactic: t.first.clone(),
                technique_id: t.second.clone(),
                technique_name: t.third.clone(),
                reachable: count_reached(findings, t, false),
                flagged: count_reached(findings, t, true),
            },
        );
        k += 1;
    }
    assert(vectors(findings@).len() == triples@.len());
    AttackVectorsProps { rows }
}

// ---------------------------------------------------------------------------
// Laws
// ---------------------------------------------------------------------------

proof fn lemma_reached(findings: Seq<EndpointFinding>, k: Key, n: int)
    requires
        0 <= n <= findings.len(),
    ensures
        reached(findings, k, true, n).subset_of(reached(findings, k, false, n)),
        reached(findings, k, true, n).finite(),
        reached(findings, k, false, n).finite(),
    decreases n,
{
    if n > 0 {
        lemma_reached(findings, k, n - 1);
    }
}

/// The model affirms only what is reachable.
pub proof fn flagged_is_at_most_reachable(findings: Seq<EndpointFinding>, k: Key, r: AttackVectorRow)
    requires
        shows_vector(findings, k, r),
    ensures
        r.flagged <= r.reachable,
{
    let n = findings.len() as int;
    lemma_reached(findings, k, n);
    vstd::set_lib::lemma_len_subset(
        reached(findings, k, true, n),
        reached(findings, k, false, n),
    );
}

/// Each technique shows once, and without a breach-relevant finding none shows.
pub proof fn techniques_show_once(findings: Seq<EndpointFinding>)
    ensures
        vectors(findings).no_duplicates(),
        relevant(findings).len() == 0 ==> vectors(findings).len() == 0,
{
    let v = relevant(findings).map_values(|f: EndpointFinding| vector_of(f));
    lemma_ordered(v);
    if relevant(findings).len() == 0 && vectors(findings).len() > 0 {
        assert(vectors(findings).contains(vectors(findings)[0]));
        assert(v.contains(vectors(findings)[0]));
    }
}

} // verus!
