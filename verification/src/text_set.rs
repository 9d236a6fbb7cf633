//! Ordered sets of texts.

use crate::order;
use crate::text;
use vstd::prelude::*;
use vstd::string::*;

verus! {

/// Each text strictly before the next.
pub open spec fn ascending(v: Seq<Seq<char>>) -> bool {
    forall|i: int, j: int|
        0 <= i < j < v.len() ==> text::text_lt(#[trigger] v[i], #[trigger] v[j])
}

/// Two ascending sequences of the same texts are the same sequence.
pub proof fn ascending_is_unique(a: Seq<Seq<char>>, b: Seq<Seq<char>>)
    requires
        ascending(a),
        ascending(b),
        a.to_set() == b.to_set(),
    ensures
        a == b,
    decreases a.len(),
{
    assert forall|x: Seq<char>| a.contains(x) == b.contains(x) by {
        assert(a.to_set().contains(x) == a.contains(x));
        assert(b.to_set().contains(x) == b.contains(x));
    }
    if a.len() == 0 {
        if b.len() > 0 {
            assert(b.contains(b[0]));
        }
        assert(a =~= b);
    } else {
        assert(a.contains(a[0]));
        assert(b.len() > 0);
        let la = a.last();
        let lb = b.last();
        assert(a.contains(la) && b.contains(lb));
        let i = choose|i: int| 0 <= i < b.len() && b[i] == la;
        let j = choose|j: int| 0 <= j < a.len() && a[j] == lb;
        if la != lb {
            assert(text::text_lt(b[i], b[b.len() - 1]));
            assert(text::text_lt(a[j], a[a.len() - 1]));
            text::lemma_text_le_total(la, lb);
        }
        let da = a.drop_last();
        let db = b.drop_last();
        assert(da.to_set() =~= db.to_set()) by {
            assert forall|x: Seq<char>| da.contains(x) == db.contains(x) by {
                if da.contains(x) {
                    let k = choose|k: int| 0 <= k < da.len() && da[k] == x;
                    assert(text::text_lt(a[k], a[a.len() - 1]));
                    assert(a.contains(x));
                    let m = choose|m: int| 0 <= m < b.len() && b[m] == x;
                    assert(m < db.len());
                    assert(db[m] == x);
                }
                if db.contains(x) {
                    let k = choose|k: int| 0 <= k < db.len() && db[k] == x;
                    assert(text::text_lt(b[k], b[b.len() - 1]));
                    assert(b.contains(x));
                    let m = choose|m: int| 0 <= m < a.len() && a[m] == x;
                    assert(m < da.len());
                    assert(da[m] == x);
                }
            }
        }
        ascending_is_unique(da, db);
        assert(a =~= da.push(la));
        assert(b =~= db.push(lb));
    }
}

/// Each text once, where it comes first.
pub open spec fn distinct(v: Seq<Seq<char>>) -> Seq<Seq<char>>
    decreases v.len(),
{
    if v.len() == 0 {
        Seq::empty()
    } else {
        let rest = distinct(v.drop_last());
        if rest.contains(v.last()) {
            rest
        } else {
            rest.push(v.last())
        }
    }
}

/// Each text once, where it comes first.
pub fn distinct_texts(all: &Vec<String>) -> (r: Vec<String>)
    ensures
        text::texts(r@) == distinct(text::texts(all@)),
{
    let ghost t = text::texts(all@);
    let mut r: Vec<String> = Vec::new();
    let mut i: usize = 0;
    assert(text::texts(r@) =~= distinct(t.take(0)));
    while i < all.len()
        invariant
            i <= all.len(),
            t == text::texts(all@),
            text::texts(r@) == distinct(t.take(i as int)),
        decreases all.len() - i,
    {
        let mut known = false;
        let mut k: usize = 0;
        while k < r.len()
            invariant
                k <= r.len(),
                i < all.len(),
                t == text::texts(all@),
                known == exists|j: int| 0 <= j < k && #[trigger] text::texts(r@)[j] == t[i as int],
            decreases r.len() - k,
        {
            assert(text::texts(r@)[k as int] == r@[k as int]@);
            if text::same(r[k].as_str(), all[i].as_str()) {
                known = true;
            }
            k += 1;
        }
        assert(known == text::texts(r@).contains(t[i as int]));
        assert(t.take(i + 1).drop_last() =~= t.take(i as int));
        assert(t.take(i + 1).last() == t[i as int]);
        if !known {
            let ghost before = r@;
            r.push(all[i].clone());
            assert(text::texts(r@) =~= text::texts(before).push(t[i as int]));
        }
        i += 1;
    }
    assert(t.take(t.len() as int) =~= t);
    r
}

/// Taking each text once keeps every text, and holds none twice.
pub proof fn lemma_distinct(v: Seq<Seq<char>>)
    ensures
        distinct(v).no_duplicates(),
        forall|x: Seq<char>| #[trigger] distinct(v).contains(x) <==> v.contains(x),
    decreases v.len(),
{
    if v.len() > 0 {
        let d = v.drop_last();
        lemma_distinct(d);
        assert(v =~= d.push(v.last()));
        assert forall|x: Seq<char>| #[trigger] distinct(v).contains(x) <==> v.contains(x) by {
            vstd::seq_lib::lemma_seq_contains_after_push(d, v.last(), x);
            vstd::seq_lib::lemma_seq_contains_after_push(distinct(d), v.last(), x);
        }
    }
}

/// The texts of a set in ascending order.
pub open spec fn listed(s: Set<Seq<char>>) -> Seq<Seq<char>> {
    choose|v: Seq<Seq<char>>| #[trigger] ascending(v) && v.to_set() == s
}

/// Any ascending sequence of the texts of a set is the one that lists it.
pub proof fn lemma_listed(v: Seq<Seq<char>>)
    requires
        ascending(v),
    ensures
        listed(v.to_set()) == v,
{
    let w = listed(v.to_set());
    assert(ascending(w) && w.to_set() == v.to_set());
    ascending_is_unique(w, v);
}

/// Every set of listed texts can be listed in ascending order.
pub proof fn lemma_listable(v: Seq<Seq<char>>)
    ensures
        ascending(listed(v.to_set())),
        listed(v.to_set()).to_set() == v.to_set(),
{
    broadcast use vstd::seq_lib::to_multiset_contains;

    let d = distinct(v);
    let le = |a: Seq<char>, b: Seq<char>| text::text_le(a, b);
    lemma_distinct(v);
    assert forall|a: Seq<char>, b: Seq<char>| #[trigger] le(a, b) || le(b, a) by {
        text::lemma_text_le_total(a, b);
    }
    assert forall|a: Seq<char>, b: Seq<char>, c: Seq<char>| #[trigger]
        le(a, b) && #[trigger] le(b, c) implies le(a, c) by {
        text::lemma_text_le_trans(a, b, c);
    }
    order::sorting_permutes(d, le);
    order::sorting_orders(d, le);
    let s = order::sorted(d, le);
    d.lemma_multiset_has_no_duplicates();
    s.lemma_multiset_has_no_duplicates_conv();
    assert forall|i: int, j: int| 0 <= i < j < s.len() implies text::text_lt(
        #[trigger] s[i],
        #[trigger] s[j],
    ) by {
        assert(le(s[i], s[j]));
    }
    assert forall|x: Seq<char>| s.to_set().contains(x) == v.to_set().contains(x) by {
        assert(s.contains(x) <==> s.to_multiset().count(x) > 0);
        assert(d.contains(x) <==> d.to_multiset().count(x) > 0);
        assert(d.contains(x) <==> v.contains(x));
    }
    assert(s.to_set() =~= v.to_set());
    lemma_listed(s);
}

/// A set of texts, held in ascending order.
#[derive(Debug, Clone, PartialEq, Eq)]
pub struct TextSet {
    pub items: Vec<String>,
}

impl View for TextSet {
    type V = Set<Seq<char>>;

    open spec fn view(&self) -> Set<Seq<char>> {
        text::texts(self.items@).to_set()
    }
}

impl TextSet {
    /// The texts are in ascending order, and so each is held once.
    pub open spec fn wf(&self) -> bool {
        ascending(text::texts(self.items@))
    }

    /// The empty set.
    pub fn new() -> (r: TextSet)
        ensures
            r.wf(),
            r@ == Set::<Seq<char>>::empty(),
    {
        let r = TextSet { items: Vec::new() };
        assert(r@ =~= Set::<Seq<char>>::empty());
        r
    }

    /// A set holds as many texts as its list.
    pub proof fn lemma_len(&self)
        requires
            self.wf(),
        ensures
            self@.len() == self.items@.len(),
            self@.finite(),
    {
        let t = text::texts(self.items@);
        assert(t.no_duplicates());
        t.unique_seq_to_set();
    }

    /// How many texts the set holds.
    pub fn len(&self) -> (r: usize)
        requires
            self.wf(),
        ensures
            r == self@.len(),
    {
        proof {
            self.lemma_len();
        }
        self.items.len()
    }

    /// Whether the set holds `s`.
    pub fn contains(&self, s: &str) -> (r: bool)
        ensures
            r == self@.contains(s@),
    {
        let ghost t = text::texts(self.items@);
        let mut i: usize = 0;
        while i < self.items.len()
            invariant
                i <= self.items.len(),
                t == text::texts(self.items@),
                forall|k: int| 0 <= k < i ==> #[trigger] t[k] != s@,
            decreases self.items.len() - i,
        {
            if text::same(self.items[i].as_str(), s) {
                assert(t[i as int] == s@);
                return true;
            }
            i += 1;
        }
        false
    }

    /// Adds a text; one that is held already changes nothing.
    pub fn insert(&mut self, s: String)
        requires
            old(self).wf(),
        ensures
            final(self).wf(),
            final(self)@ == old(self)@.insert(s@),
    {
        let ghost t = text::texts(self.items@);
        let mut i: usize = 0;
        while i < self.items.len() && !text::at_most(s.as_str(), self.items[i].as_str())
            invariant
                i <= self.items.len(),
                t == text::texts(self.items@),
                forall|k: int| 0 <= k < i ==> !text::text_le(s@, #[trigger] t[k]),
            decreases self.items.len() - i,
        {
            i += 1;
        }
        if i < self.items.len() && text::same(s.as_str(), self.items[i].as_str()) {
            assert(t[i as int] == s@);
            assert(old(self)@.insert(s@) =~= self@);
            return;
        }
        proof {
            assert forall|k: int| 0 <= k < i implies text::text_lt(#[trigger] t[k], s@) by {
                text::lemma_text_le_total(t[k], s@);
            }
            assert forall|k: int| i <= k < t.len() implies text::text_lt(s@, #[trigger] t[k]) by {
                assert(text::text_le(s@, t[i as int]));
                if i < k {
                    assert(text::text_lt(t[i as int], t[k]));
                    text::lemma_text_le_trans(s@, t[i as int], t[k]);
                    if s@ == t[k] {
                        text::lemma_text_le_total(t[i as int], t[k]);
                    }
                }
            }
        }
        let ghost added = s@;
        self.items.insert(i, s);
        proof {
            let u = text::texts(self.items@);
            assert(u =~= t.insert(i as int, added));
            assert forall|p: int, q: int| 0 <= p < q < u.len() implies text::text_lt(
                #[trigger] u[p],
                #[trigger] u[q],
            ) by {
                if p < i {
                    assert(u[p] == t[p]);
                } else if p > i {
                    assert(u[p] == t[p - 1]);
                }
                if q < i {
                    assert(u[q] == t[q]);
                } else if q > i {
                    assert(u[q] == t[q - 1]);
                }
            }
            assert(self@ =~= old(self)@.insert(added)) by {
                assert forall|x: Seq<char>| self@.contains(x) == old(self)@.insert(added).contains(
                    x,
                ) by {
                    if u.contains(x) {
                        let k = choose|k: int| 0 <= k < u.len() && u[k] == x;
                        if k < i {
                            assert(t[k] == x);
                        } else if k > i {
                            assert(t[k - 1] == x);
                        }
                    }
                    if t.contains(x) {
                        let k = choose|k: int| 0 <= k < t.len() && t[k] == x;
                        if k < i {
                            assert(u[k] == x);
                        } else {
                            assert(u[k + 1] == x);
                        }
                    }
                    assert(u[i as int] == added);
                }
            }
        }
    }

    /// The texts of this set that `other` does not hold, in ascending order.
    pub fn difference(&self, other: &TextSet) -> (r: Vec<String>)
        requires
            self.wf(),
        ensures
            ascending(text::texts(r@)),
            text::texts(r@).to_set() == self@.difference(other@),
    {
        let mut r: Vec<String> = Vec::new();
        let ghost t = text::texts(self.items@);
        let mut i: usize = 0;
        while i < self.items.len()
            invariant
                i <= self.items.len(),
                self.wf(),
                t == text::texts(self.items@),
                ascending(text::texts(r@)),
                forall|x: Seq<char>| #[trigger]
                    text::texts(r@).contains(x) <==> t.take(i as int).contains(x)
                        && !other@.contains(x),
            decreases self.items.len() - i,
        {
            let ghost before = text::texts(r@);
            proof {
                assert(t.take(i + 1) =~= t.take(i as int).push(t[i as int]));
                assert forall|x: Seq<char>| #[trigger] t.take(i + 1).contains(x) <==> (t.take(
                    i as int,
                ).contains(x) || x == t[i as int]) by {
                    vstd::seq_lib::lemma_seq_contains_after_push(t.take(i as int), t[i as int], x);
                }
            }
            if !other.contains(self.items[i].as_str()) {
                r.push(self.items[i].clone());
                proof {
                    let u = text::texts(r@);
                    assert(u =~= before.push(t[i as int]));
                    assert forall|p: int, q: int| 0 <= p < q < u.len() implies text::text_lt(
                        #[trigger] u[p],
                        #[trigger] u[q],
                    ) by {
                        assert(u[p] == before[p]);
                        if q == u.len() - 1 {
                            assert(before.contains(before[p]));
                            let k = t.take(i as int).index_of(before[p]);
                            assert(t.take(i as int).contains(before[p]));
                            assert(t[k] == before[p]);
                            assert(text::text_lt(t[k], t[i as int]));
                        } else {
                            assert(u[q] == before[q]);
                        }
                    }
                    assert forall|x: Seq<char>| #[trigger] u.contains(x) <==> (before.contains(x)
                        || x == t[i as int]) by {
                        vstd::seq_lib::lemma_seq_contains_after_push(before, t[i as int], x);
                    }
                }
            }
            i += 1;
        }
        assert(t.take(t.len() as int) =~= t);
        assert(text::texts(r@).to_set() =~= self@.difference(other@));
        r
    }
}

} // verus!
