//! Stable sorting, as a function on sequences and as an executable function on vectors.

use vstd::prelude::*;

verus! {

/// `s`, taken to be in order, with `x` put behind every element that comes at or before it.
pub open spec fn placed<T>(s: Seq<T>, x: T, le: spec_fn(T, T) -> bool) -> Seq<T>
    decreases s.len(),
{
    if s.len() == 0 || le(s.last(), x) {
        s.push(x)
    } else {
        placed(s.drop_last(), x, le).push(s.last())
    }
}

/// The elements of `s` in the order `le`, those that tie in the order they had.
pub open spec fn sorted<T>(s: Seq<T>, le: spec_fn(T, T) -> bool) -> Seq<T>
    decreases s.len(),
{
    if s.len() == 0 {
        s
    } else {
        placed(sorted(s.drop_last(), le), s.last(), le)
    }
}

/// `le` is a total preorder.
pub open spec fn is_order<T>(le: spec_fn(T, T) -> bool) -> bool {
    &&& forall|a: T, b: T| #[trigger] le(a, b) || le(b, a)
    &&& forall|a: T, b: T, c: T| #[trigger] le(a, b) && #[trigger] le(b, c) ==> le(a, c)
}

/// `s` is in the order `le`.
pub open spec fn in_order<T>(s: Seq<T>, le: spec_fn(T, T) -> bool) -> bool {
    forall|i: int, j: int| 0 <= i <= j < s.len() ==> i == j || le(#[trigger] s[i], #[trigger] s[j])
}

proof fn lemma_placed<T>(s: Seq<T>, x: T, le: spec_fn(T, T) -> bool)
    ensures
        placed(s, x, le).len() == s.len() + 1,
        placed(s, x, le).to_multiset() == s.to_multiset().insert(x),
    decreases s.len(),
{
    broadcast use vstd::seq_lib::to_multiset_build;

    if s.len() == 0 || le(s.last(), x) {
    } else {
        lemma_placed(s.drop_last(), x, le);
        assert(s =~= s.drop_last().push(s.last()));
        assert(s.to_multiset() == s.drop_last().to_multiset().insert(s.last()));
        assert(s.drop_last().to_multiset().insert(x).insert(s.last())
            =~= s.drop_last().to_multiset().insert(s.last()).insert(x));
    }
}

proof fn lemma_placed_in_order<T>(s: Seq<T>, x: T, le: spec_fn(T, T) -> bool)
    requires
        is_order(le),
        in_order(s, le),
    ensures
        in_order(placed(s, x, le), le),
        forall|k: int| 0 <= k < placed(s, x, le).len() ==> #[trigger] placed(s, x, le)[k] == x
            || s.contains(placed(s, x, le)[k]),
    decreases s.len(),
{
    let r = placed(s, x, le);
    if s.len() == 0 {
    } else if le(s.last(), x) {
        assert forall|i: int, j: int| 0 <= i <= j < r.len() implies i == j || le(
            #[trigger] r[i],
            #[trigger] r[j],
        ) by {
            if i < j && j == s.len() {
                if i < s.len() - 1 {
                    assert(le(s[i], s[s.len() - 1]));
                }
            }
        }
        assert forall|k: int| 0 <= k < r.len() implies #[trigger] r[k] == x || s.contains(r[k]) by {
            if k < s.len() {
                assert(s[k] == r[k]);
            }
        }
    } else {
        let d = s.drop_last();
        lemma_placed_in_order(d, x, le);
        lemma_placed(d, x, le);
        let q = placed(d, x, le);
        assert forall|k: int| 0 <= k < q.len() implies le(#[trigger] q[k], s.last()) by {
            if q[k] == x {
                assert(le(x, s.last()));
            } else {
                let m = choose|m: int| 0 <= m < d.len() && d[m] == q[k];
                assert(le(s[m], s[s.len() - 1]));
            }
        }
        assert forall|k: int| 0 <= k < r.len() implies #[trigger] r[k] == x || s.contains(r[k]) by {
            if k < q.len() {
                assert(r[k] == q[k]);
                if q[k] != x {
                    let m = choose|m: int| 0 <= m < d.len() && d[m] == q[k];
                    assert(s[m] == q[k]);
                }
            } else {
                assert(s[s.len() - 1] == r[k]);
            }
        }
    }
}

/// Sorting keeps every element.
pub proof fn sorting_permutes<T>(s: Seq<T>, le: spec_fn(T, T) -> bool)
    ensures
        sorted(s, le).len() == s.len(),
        sorted(s, le).to_multiset() == s.to_multiset(),
    decreases s.len(),
{
    broadcast use vstd::seq_lib::to_multiset_build;

    if s.len() > 0 {
        sorting_permutes(s.drop_last(), le);
        lemma_placed(sorted(s.drop_last(), le), s.last(), le);
        assert(s =~= s.drop_last().push(s.last()));
    }
}

/// Sorting by a total preorder puts the elements in that order.
pub proof fn sorting_orders<T>(s: Seq<T>, le: spec_fn(T, T) -> bool)
    requires
        is_order(le),
    ensures
        in_order(sorted(s, le), le),
    decreases s.len(),
{
    if s.len() > 0 {
        sorting_orders(s.drop_last(), le);
        lemma_placed_in_order(sorted(s.drop_last(), le), s.last(), le);
    }
}

proof fn lemma_placed_filter<T>(
    s: Seq<T>,
    x: T,
    le: spec_fn(T, T) -> bool,
    p: spec_fn(T) -> bool,
)
    requires
        forall|a: T, b: T| p(a) && p(b) ==> #[trigger] le(a, b),
    ensures
        placed(s, x, le).filter(p) == s.push(x).filter(p),
    decreases s.len(),
{
    broadcast use vstd::seq::Seq::lemma_filter_push;

    if s.len() == 0 || le(s.last(), x) {
    } else {
        let d = s.drop_last();
        lemma_placed_filter(d, x, le, p);
        assert(s =~= d.push(s.last()));
        let l = s.last();
        assert(placed(s, x, le) == placed(d, x, le).push(l));
        assert(s.push(x).filter(p) == (if p(x) {
            s.filter(p).push(x)
        } else {
            s.filter(p)
        }));
        assert(s.filter(p) == (if p(l) {
            d.filter(p).push(l)
        } else {
            d.filter(p)
        }));
        assert(!(p(l) && p(x)));
    }
}

/// Sorting is stable: elements that pairwise tie keep the order they had.
pub proof fn sorting_is_stable<T>(s: Seq<T>, le: spec_fn(T, T) -> bool, p: spec_fn(T) -> bool)
    requires
        forall|a: T, b: T| p(a) && p(b) ==> #[trigger] le(a, b),
    ensures
        sorted(s, le).filter(p) == s.filter(p),
    decreases s.len(),
{
    broadcast use vstd::seq::Seq::lemma_filter_push;

    if s.len() > 0 {
        sorting_is_stable(s.drop_last(), le, p);
        lemma_placed_filter(sorted(s.drop_last(), le), s.last(), le, p);
        assert(s =~= s.drop_last().push(s.last()));
    }
}

/// `le` tells the elements of `s` apart.
pub open spec fn tells_apart<T>(s: Seq<T>, le: spec_fn(T, T) -> bool) -> bool {
    forall|a: T, b: T|
        s.contains(a) && s.contains(b) && #[trigger] le(a, b) && #[trigger] le(b, a) ==> a == b
}

/// Two sequences of the same elements in the same order are equal, where the order tells them apart.
proof fn lemma_in_order_unique<T>(x: Seq<T>, y: Seq<T>, le: spec_fn(T, T) -> bool)
    requires
        in_order(x, le),
        in_order(y, le),
        x.to_multiset() == y.to_multiset(),
        tells_apart(x, le),
    ensures
        x == y,
    decreases x.len(),
{
    broadcast use vstd::seq_lib::to_multiset_contains, vstd::seq_lib::to_multiset_build;

    x.to_multiset_ensures();
    y.to_multiset_ensures();
    assert(x.len() == y.len());
    if x.len() == 0 {
        assert(x =~= y);
    } else {
        let (a, b) = (x.last(), y.last());
        assert(x[x.len() - 1] == a && y[y.len() - 1] == b);
        assert(x.contains(a) && y.contains(b));
        assert(x.to_multiset().count(a) > 0);
        assert(y.to_multiset().count(b) > 0);
        assert(y.contains(a));
        assert(x.contains(b));
        let i = y.index_of(a);
        let j = x.index_of(b);
        if i < y.len() - 1 && j < x.len() - 1 {
            assert(le(y[i], y[y.len() - 1]));
            assert(le(x[j], x[x.len() - 1]));
        }
        assert(a == b);
        let (u, v) = (x.drop_last(), y.drop_last());
        assert(x =~= u.push(a));
        assert(y =~= v.push(b));
        assert(u.to_multiset() =~= x.to_multiset().remove(a));
        assert(v.to_multiset() =~= y.to_multiset().remove(b));
        assert forall|p: T, q: T|
            u.contains(p) && u.contains(q) && #[trigger] le(p, q) && #[trigger] le(q, p) implies p
            == q by {
            let m = u.index_of(p);
            let n = u.index_of(q);
            assert(x[m] == p && x[n] == q);
        }
        lemma_in_order_unique(u, v, le);
    }
}

/// Sorting forgets the order that the elements had, where the order to sort by tells them apart.
pub proof fn sorting_forgets_order<T>(s: Seq<T>, t: Seq<T>, le: spec_fn(T, T) -> bool)
    requires
        is_order(le),
        s.to_multiset() == t.to_multiset(),
        tells_apart(s, le),
    ensures
        sorted(s, le) == sorted(t, le),
{
    broadcast use vstd::seq_lib::to_multiset_contains;

    sorting_permutes(s, le);
    sorting_permutes(t, le);
    sorting_orders(s, le);
    sorting_orders(t, le);
    let x = sorted(s, le);
    assert forall|a: T, b: T|
        x.contains(a) && x.contains(b) && #[trigger] le(a, b) && #[trigger] le(b, a) implies a
        == b by {
        assert(x.to_multiset().count(a) > 0 && x.to_multiset().count(b) > 0);
        assert(s.contains(a) && s.contains(b));
    }
    lemma_in_order_unique(x, sorted(t, le), le);
}

proof fn lemma_placed_related<A, B>(
    a: Seq<A>,
    x: A,
    b: Seq<B>,
    y: B,
    rel: spec_fn(A, B) -> bool,
    la: spec_fn(A, A) -> bool,
    lb: spec_fn(B, B) -> bool,
)
    requires
        a.len() == b.len(),
        forall|i: int| 0 <= i < a.len() ==> rel(#[trigger] a[i], b[i]),
        rel(x, y),
        forall|p: A, q: A, u: B, v: B| rel(p, u) && rel(q, v) ==> #[trigger] la(p, q) == #[trigger] lb(u, v),
    ensures
        placed(a, x, la).len() == placed(b, y, lb).len(),
        forall|i: int| 0 <= i < placed(a, x, la).len() ==> rel(#[trigger] placed(a, x, la)[i], placed(b, y, lb)[i]),
    decreases a.len(),
{
    if a.len() == 0 {
    } else {
        assert(rel(a[a.len() - 1], b[b.len() - 1]));
        assert(la(a.last(), x) == lb(b.last(), y));
        if !la(a.last(), x) {
            lemma_placed_related(a.drop_last(), x, b.drop_last(), y, rel, la, lb);
        }
    }
}

/// Two sequences that correspond element by element, with orders that agree, still do so sorted.
pub proof fn lemma_sorted_related<A, B>(
    a: Seq<A>,
    b: Seq<B>,
    rel: spec_fn(A, B) -> bool,
    la: spec_fn(A, A) -> bool,
    lb: spec_fn(B, B) -> bool,
)
    requires
        a.len() == b.len(),
        forall|i: int| 0 <= i < a.len() ==> rel(#[trigger] a[i], b[i]),
        forall|p: A, q: A, u: B, v: B| rel(p, u) && rel(q, v) ==> #[trigger] la(p, q) == #[trigger] lb(u, v),
    ensures
        sorted(a, la).len() == sorted(b, lb).len() == a.len(),
        forall|i: int| 0 <= i < a.len() ==> rel(#[trigger] sorted(a, la)[i], sorted(b, lb)[i]),
    decreases a.len(),
{
    sorting_permutes(a, la);
    sorting_permutes(b, lb);
    if a.len() > 0 {
        lemma_sorted_related(a.drop_last(), b.drop_last(), rel, la, lb);
        assert(rel(a[a.len() - 1], b[b.len() - 1]));
        lemma_placed_related(
            sorted(a.drop_last(), la),
            a.last(),
            sorted(b.drop_last(), lb),
            b.last(),
            rel,
            la,
            lb,
        );
    }
}

proof fn lemma_placed_at<T>(s: Seq<T>, x: T, le: spec_fn(T, T) -> bool, at: int)
    requires
        0 <= at <= s.len(),
        at == 0 || le(s[at - 1], x),
        forall|k: int| at <= k < s.len() ==> !le(#[trigger] s[k], x),
    ensures
        placed(s, x, le) == s.insert(at, x),
    decreases s.len(),
{
    if at == s.len() {
        assert(s.insert(at, x) =~= s.push(x));
    } else {
        lemma_placed_at(s.drop_last(), x, le, at);
        assert(!le(s[s.len() - 1], x));
        assert(s.drop_last().insert(at, x).push(s.last()) =~= s.insert(at, x));
    }
}

/// The elements of `v` in the order `le`, those that tie in the order they had.
pub fn sort_stable<T, F: Fn(&T, &T) -> bool>(
    v: Vec<T>,
    at_most: F,
    Ghost(le): Ghost<spec_fn(T, T) -> bool>,
) -> (r: Vec<T>)
    requires
        forall|a: &T, b: &T| call_requires(at_most, (a, b)),
        forall|a: &T, b: &T, o: bool| call_ensures(at_most, (a, b), o) ==> o == le(*a, *b),
    ensures
        r@ == sorted(v@, le),
{
    let ghost given = v@;
    let mut rest = v;
    let mut r: Vec<T> = Vec::new();
    let n = rest.len();
    let mut i: usize = 0;
    assert(given.take(0) =~= Seq::empty());
    while i < n
        invariant
            i <= n,
            n == given.len(),
            rest@ == given.skip(i as int),
            r@ == sorted(given.take(i as int), le),
            r.len() == i,
            forall|a: &T, b: &T| call_requires(at_most, (a, b)),
            forall|a: &T, b: &T, o: bool| call_ensures(at_most, (a, b), o) ==> o == le(*a, *b),
        decreases n - i,
    {
        let x = rest.remove(0);
        let mut at: usize = r.len();
        while at > 0 && !at_most(&r[at - 1], &x)
            invariant
                at <= r.len(),
                forall|k: int| at <= k < r.len() ==> !le(#[trigger] r@[k], x),
                forall|a: &T, b: &T| call_requires(at_most, (a, b)),
                forall|a: &T, b: &T, o: bool| call_ensures(at_most, (a, b), o) ==> o == le(*a, *b),
            ensures
                at <= r.len(),
                forall|k: int| at <= k < r.len() ==> !le(#[trigger] r@[k], x),
                at == 0 || le(r@[at - 1], x),
            decreases at,
        {
            at -= 1;
        }
        proof {
            lemma_placed_at(r@, x, le, at as int);
            assert(given.take(i + 1).drop_last() =~= given.take(i as int));
            assert(given.take(i + 1).last() == x);
            sorting_permutes(given.take(i + 1), le);
        }
        r.insert(at, x);
        i += 1;
        assert(rest@ =~= given.skip(i as int));
    }
    assert(given.take(n as int) =~= given);
    r
}

} // verus!
