//! Distinct triples of texts in lexicographic order: the keys of the tables that group by three
//! columns.

use crate::order;
use crate::text;
use vstd::prelude::*;

verus! {

/// Three texts.
pub struct Key {
    pub first: Seq<char>,
    pub second: Seq<char>,
    pub third: Seq<char>,
}

/// Three texts in executable form.
#[derive(Debug, Clone, PartialEq, Eq)]
pub struct Triple {
    pub first: String,
    pub second: String,
    pub third: String,
}

impl View for Triple {
    type V = Key;

    open spec fn view(&self) -> Key {
        Key { first: self.first@, second: self.second@, third: self.third@ }
    }
}

/// The views of triples.
pub open spec fn keys(v: Seq<Triple>) -> Seq<Key> {
    v.map_values(|t: Triple| t@)
}

/// The lexicographic order.
pub open spec fn key_le(a: Key, b: Key) -> bool {
    if a.first != b.first {
        text::text_le(a.first, b.first)
    } else if a.second != b.second {
        text::text_le(a.second, b.second)
    } else {
        text::text_le(a.third, b.third)
    }
}

/// Each key once, where it comes first.
pub open spec fn distinct_keys(v: Seq<Key>) -> Seq<Key>
    decreases v.len(),
{
    if v.len() == 0 {
        Seq::empty()
    } else {
        let rest = distinct_keys(v.drop_last());
        if rest.contains(v.last()) {
            rest
        } else {
            rest.push(v.last())
        }
    }
}

/// Each key once, in lexicographic order.
pub open spec fn ordered(v: Seq<Key>) -> Seq<Key> {
    order::sorted(distinct_keys(v), |a: Key, b: Key| key_le(a, b))
}

impl Triple {
    /// An equal value.
    pub fn duplicate(&self) -> (r: Triple)
        ensures
            r == *self,
    {
        Triple {
            first: self.first.clone(),
            second: self.second.clone(),
            third: self.third.clone(),
        }
    }

    /// Whether two triples hold the same texts.
    pub fn is_same(&self, o: &Triple) -> (r: bool)
        ensures
            r == (self@ == o@),
    {
        text::same(self.first.as_str(), o.first.as_str()) && text::same(
            self.second.as_str(),
            o.second.as_str(),
        ) && text::same(self.third.as_str(), o.third.as_str())
    }

    fn at_most(&self, o: &Triple) -> (r: bool)
        ensures
            r == key_le(self@, o@),
    {
        if !text::same(self.first.as_str(), o.first.as_str()) {
            text::at_most(self.first.as_str(), o.first.as_str())
        } else if !text::same(self.second.as_str(), o.second.as_str()) {
            text::at_most(self.second.as_str(), o.second.as_str())
        } else {
            text::at_most(self.third.as_str(), o.third.as_str())
        }
    }
}

/// Each triple once, in lexicographic order.
pub fn ordered_triples(v: &Vec<Triple>) -> (r: Vec<Triple>)
    ensures
        keys(r@) == ordered(keys(v@)),
{
    let ghost all = keys(v@);
    let mut d: Vec<Triple> = Vec::new();
    let mut i: usize = 0;
    assert(keys(d@) =~= distinct_keys(all.take(0)));
    while i < v.len()
        invariant
            i <= v.len(),
            all == keys(v@),
            keys(d@) == distinct_keys(all.take(i as int)),
        decreases v.len() - i,
    {
        let mut known = false;
        let mut k: usize = 0;
        while k < d.len()
            invariant
                k <= d.len(),
                i < v.len(),
                all == keys(v@),
                known == exists|j: int| 0 <= j < k && #[trigger] keys(d@)[j] == all[i as int],
            decreases d.len() - k,
        {
            assert(keys(d@)[k as int] == d@[k as int]@);
            if d[k].is_same(&v[i]) {
                known = true;
            }
            k += 1;
        }
        assert(known == keys(d@).contains(all[i as int]));
        assert(all.take(i + 1).drop_last() =~= all.take(i as int));
        assert(all.take(i + 1).last() == all[i as int]);
        if !known {
            let ghost before = d@;
            d.push(v[i].duplicate());
            assert(keys(d@) =~= keys(before).push(all[i as int]));
        }
        i += 1;
    }
    assert(all.take(all.len() as int) =~= all);
    let ghost le = |a: Triple, b: Triple| key_le(a@, b@);
    let ghost kle = |a: Key, b: Key| key_le(a, b);
    proof {
        order::lemma_sorted_related(keys(d@), d@, |k: Key, t: Triple| t@ == k, kle, le);
    }
    let at_most = |a: &Triple, b: &Triple| -> (o: bool)
        ensures
            o == key_le(a@, b@),
        { a.at_most(b) };
    let r = order::sort_stable(d, at_most, Ghost(le));
    assert(keys(r@) =~= ordered(all));
    r
}

// ---------------------------------------------------------------------------
// What holds of the ordered keys
// ---------------------------------------------------------------------------

proof fn lemma_distinct_keys(v: Seq<Key>)
    ensures
        distinct_keys(v).no_duplicates(),
        forall|x: Key| #[trigger] distinct_keys(v).contains(x) <==> v.contains(x),
    decreases v.len(),
{
    if v.len() > 0 {
        let d = v.drop_last();
        lemma_distinct_keys(d);
        assert(v =~= d.push(v.last()));
        assert forall|x: Key| #[trigger] distinct_keys(v).contains(x) <==> v.contains(x) by {
            vstd::seq_lib::lemma_seq_contains_after_push(d, v.last(), x);
            vstd::seq_lib::lemma_seq_contains_after_push(distinct_keys(d), v.last(), x);
        }
    }
}

/// The ordered keys are those given, each once, in order.
pub proof fn lemma_ordered(v: Seq<Key>)
    ensures
        ordered(v).no_duplicates(),
        forall|x: Key| #[trigger] ordered(v).contains(x) <==> v.contains(x),
        forall|i: int, j: int|
            0 <= i < j < ordered(v).len() ==> key_le(#[trigger] ordered(v)[i], #[trigger] ordered(v)[j]),
{
    broadcast use vstd::seq_lib::to_multiset_contains;

    let d = distinct_keys(v);
    let le = |a: Key, b: Key| key_le(a, b);
    lemma_distinct_keys(v);
    assert forall|a: Key, b: Key| #[trigger] le(a, b) || le(b, a) by {
        text::lemma_text_le_total(a.first, b.first);
        text::lemma_text_le_total(a.second, b.second);
        text::lemma_text_le_total(a.third, b.third);
    }
    assert forall|a: Key, b: Key, c: Key| #[trigger] le(a, b) && #[trigger] le(b, c) implies le(a, c) by {
        lemma_key_le_trans(a, b, c);
    }
    order::sorting_permutes(d, le);
    order::sorting_orders(d, le);
    let s = ordered(v);
    d.lemma_multiset_has_no_duplicates();
    s.lemma_multiset_has_no_duplicates_conv();
    assert forall|x: Key| #[trigger] s.contains(x) <==> v.contains(x) by {
        assert(s.contains(x) <==> s.to_multiset().count(x) > 0);
        assert(d.contains(x) <==> d.to_multiset().count(x) > 0);
        assert(d.contains(x) <==> v.contains(x));
    }
    assert forall|i: int, j: int| 0 <= i < j < s.len() implies key_le(#[trigger] s[i], #[trigger] s[j]) by {
        assert(le(s[i], s[j]));
    }
}

proof fn lemma_key_le_trans(a: Key, b: Key, c: Key)
    requires
        key_le(a, b),
        key_le(b, c),
    ensures
        key_le(a, c),
{
    if a.first != b.first && b.first != c.first {
        text::lemma_text_le_trans(a.first, b.first, c.first);
        text::lemma_text_le_total(a.first, b.first);
    } else if a.first == b.first && b.first == c.first {
        if a.second != b.second && b.second != c.second {
            text::lemma_text_le_trans(a.second, b.second, c.second);
            text::lemma_text_le_total(a.second, b.second);
        } else if a.second == b.second && b.second == c.second {
            text::lemma_text_le_trans(a.third, b.third, c.third);
        }
    }
}

} // verus!
