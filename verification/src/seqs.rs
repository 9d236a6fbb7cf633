//! Facts about sequences that the laws of the views share.

use crate::order;
use vstd::prelude::*;

verus! {

/// A filter keeps exactly what passes it.
pub proof fn lemma_filter_member<A>(s: Seq<A>, p: spec_fn(A) -> bool, x: A)
    ensures
        s.filter(p).contains(x) <==> s.contains(x) && p(x),
{
    if s.filter(p).contains(x) {
        s.lemma_filter_contains_rev(p, x);
        let m = s.filter(p).index_of(x);
        s.lemma_filter_pred(p, m);
    }
    if s.contains(x) && p(x) {
        let m = s.index_of(x);
        s.lemma_filter_contains(p, m);
    }
}

/// A filtering map gives exactly what some element maps to.
pub proof fn lemma_filter_map_member<A, B>(s: Seq<A>, f: spec_fn(A) -> Option<B>, x: B)
    ensures
        s.filter_map(f).contains(x) <==> exists|k: int|
            0 <= k < s.len() && f(#[trigger] s[k]) == Some(x),
    decreases s.len(),
{
    if s.filter_map(f).contains(x) {
        s.lemma_filter_map_contains(f, x);
        let t = choose|t: A| #[trigger] s.contains(t) && f(t) == Some(x);
        let k = s.index_of(t);
        assert(f(s[k]) == Some(x));
    }
    if exists|k: int| 0 <= k < s.len() && f(#[trigger] s[k]) == Some(x) {
        let k = choose|k: int| 0 <= k < s.len() && f(#[trigger] s[k]) == Some(x);
        let d = s.drop_last();
        let l = s.last();
        if k < d.len() {
            assert(d[k] == s[k]);
            lemma_filter_map_member(d, f, x);
            let m = d.filter_map(f).index_of(x);
            assert(s.filter_map(f)[m] == x);
        } else {
            let n = d.filter_map(f).len() as int;
            assert(s.filter_map(f)[n] == x);
        }
    }
}

/// A filtering map of one element more.
pub proof fn lemma_filter_map_push<A, B>(s: Seq<A>, f: spec_fn(A) -> Option<B>, x: A)
    ensures
        s.push(x).filter_map(f) == (match f(x) {
            Some(y) => s.filter_map(f).push(y),
            None => s.filter_map(f),
        }),
{
    let t = s.push(x);
    assert(t.drop_last() =~= s);
    match f(x) {
        Some(y) => {
            assert(s.filter_map(f) + seq![y] =~= s.filter_map(f).push(y));
        },
        None => {},
    }
}

/// A filter of one element more.
pub proof fn lemma_filter_push<A>(s: Seq<A>, p: spec_fn(A) -> bool, x: A)
    ensures
        s.push(x).filter(p) == (if p(x) {
            s.filter(p).push(x)
        } else {
            s.filter(p)
        }),
        Seq::<A>::empty().filter(p) == Seq::<A>::empty(),
{
    broadcast use vstd::seq::Seq::lemma_filter_push;

    assert(Seq::<A>::empty().filter(p) =~= Seq::<A>::empty());
}

/// Sorting keeps what is there.
pub proof fn lemma_sorted_member<A>(s: Seq<A>, le: spec_fn(A, A) -> bool, x: A)
    ensures
        order::sorted(s, le).contains(x) <==> s.contains(x),
        order::sorted(s, le).len() == s.len(),
{
    broadcast use vstd::seq_lib::to_multiset_contains;

    order::sorting_permutes(s, le);
    assert(order::sorted(s, le).contains(x) <==> order::sorted(s, le).to_multiset().count(x) > 0);
    assert(s.contains(x) <==> s.to_multiset().count(x) > 0);
}

/// Two filters in a row keep what passes both.
pub proof fn lemma_filter_twice<A>(
    s: Seq<A>,
    p: spec_fn(A) -> bool,
    q: spec_fn(A) -> bool,
    both: spec_fn(A) -> bool,
)
    requires
        forall|x: A| #[trigger] both(x) <==> p(x) && q(x),
    ensures
        s.filter(p).filter(q) == s.filter(both),
    decreases s.len(),
{
    if s.len() == 0 {
        assert(s =~= Seq::empty());
        lemma_filter_push(s, p, arbitrary());
        lemma_filter_push(s, q, arbitrary());
        lemma_filter_push(s, both, arbitrary());
    } else {
        let d = s.drop_last();
        let l = s.last();
        lemma_filter_twice(d, p, q, both);
        assert(s =~= d.push(l));
        lemma_filter_push(d, p, l);
        lemma_filter_push(d.filter(p), q, l);
        lemma_filter_push(d, both, l);
    }
}

/// A filter that keeps everything changes nothing, and one that keeps nothing leaves nothing.
pub proof fn lemma_filter_all<A>(s: Seq<A>, p: spec_fn(A) -> bool)
    ensures
        (forall|i: int| 0 <= i < s.len() ==> p(#[trigger] s[i])) ==> s.filter(p) == s,
        (forall|i: int| 0 <= i < s.len() ==> !p(#[trigger] s[i])) ==> s.filter(p).len() == 0,
        s.filter(p).len() <= s.len(),
    decreases s.len(),
{
    if s.len() == 0 {
        assert(s =~= Seq::empty());
        lemma_filter_push(s, p, arbitrary());
    } else {
        let d = s.drop_last();
        let l = s.last();
        lemma_filter_all(d, p);
        assert(s =~= d.push(l));
        lemma_filter_push(d, p, l);
        if forall|i: int| 0 <= i < s.len() ==> p(#[trigger] s[i]) {
            assert(p(s[s.len() - 1]));
            assert forall|i: int| 0 <= i < d.len() implies p(#[trigger] d[i]) by {
                assert(p(s[i]));
            }
        }
        if forall|i: int| 0 <= i < s.len() ==> !p(#[trigger] s[i]) {
            assert(!p(s[s.len() - 1]));
            assert forall|i: int| 0 <= i < d.len() implies !p(#[trigger] d[i]) by {
                assert(!p(s[i]));
            }
        }
    }
}

/// A filter and its opposite part a sequence.
pub proof fn lemma_filter_parts<A>(s: Seq<A>, p: spec_fn(A) -> bool, q: spec_fn(A) -> bool)
    requires
        forall|x: A| #[trigger] q(x) <==> !p(x),
    ensures
        s.filter(p).len() + s.filter(q).len() == s.len(),
    decreases s.len(),
{
    if s.len() == 0 {
        assert(s =~= Seq::empty());
        lemma_filter_push(s, p, arbitrary());
        lemma_filter_push(s, q, arbitrary());
    } else {
        let d = s.drop_last();
        lemma_filter_parts(d, p, q);
        assert(s =~= d.push(s.last()));
        lemma_filter_push(d, p, s.last());
        lemma_filter_push(d, q, s.last());
    }
}

} // verus!
