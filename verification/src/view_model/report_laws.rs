//! What holds of the report as a whole.

use crate::order;
use crate::text;
use crate::text_set::{lemma_listable, listed};
use crate::view_model::report_data::{
    act_le, acted_on, acting, breach_of, breaches, clears, decisions_on, elapsed, entries_of,
    episodes, in_window, is_cleared, is_open, left_alone, lemma_decided, lifetime, longest_closed,
    reports, shows_act, shows_left, started, starts, time_order, window_start, Breach, JournalEntry,
    Report, WouldActEntry,
};
use vstd::prelude::*;

verus! {

proof fn lemma_acting(ds: Seq<Breach>)
    ensures
        0 <= episodes(ds) <= acting(ds),
        episodes(ds) > 0 <==> acting(ds) > 0,
        ds.len() > 0 && ds.last().acts() ==> episodes(ds) > 0,
    decreases ds.len(),
{
    broadcast use vstd::seq::Seq::lemma_filter_push;

    let p = |b: Breach| b.acts();
    if ds.len() == 0 {
        assert(ds.filter(p) =~= Seq::empty());
    } else {
        let d = ds.drop_last();
        lemma_acting(d);
        assert(ds =~= d.push(ds.last()));
        if ds.last().acts() && !starts(ds) {
            assert(d.last() == ds[ds.len() - 2]);
        }
    }
}

/// There is at least one decision per episode, and an episode exactly where a decision affirms
/// exploitability.
pub proof fn episodes_are_runs_of_decisions(ds: Seq<Breach>)
    ensures
        episodes(ds) <= acting(ds),
        episodes(ds) > 0 <==> acting(ds) > 0,
{
    lemma_acting(ds);
}

/// An entry whose last verdict affirms exploitability is among those acted on, and an open episode
/// is never short-lived.
pub proof fn open_is_never_short_lived(
    entry: Seq<char>,
    ds: Seq<Breach>,
    now_ms: u64,
    short_lived_secs: u64,
    w: WouldActEntry,
)
    requires
        shows_act(entry, ds, now_ms, short_lived_secs, w),
    ensures
        w.open ==> !w.short_lived && w.episodes > 0,
{
    lemma_acting(ds);
}

/// No entry is reported twice. One that was decided on in the window is reported as acted on exactly
/// where a decision affirms exploitability, and as left alone exactly where none does and the last
/// one clears it. Any other is in neither list: what is uncertain is not reported as cleared.
pub proof fn no_entry_is_reported_twice(bs: Seq<Breach>, now_ms: u64, entry: Seq<char>)
    requires
        entries_of(bs).contains(entry),
    ensures
        acted_on(bs, now_ms).contains(entry) <==> acting(decisions_on(bs, entry)) > 0,
        left_alone(bs).contains(entry) <==> acting(decisions_on(bs, entry)) == 0 && clears(
            decisions_on(bs, entry).last().verdict@,
        ),
        !(acted_on(bs, now_ms).contains(entry) && left_alone(bs).contains(entry)),
{
    let f = |b: Breach| b.entry@;
    let yes = |e: Seq<char>| episodes(decisions_on(bs, e)) > 0;
    let no = |e: Seq<char>| is_cleared(decisions_on(bs, e));
    let le = |a: Seq<char>, b: Seq<char>| act_le(bs, now_ms, a, b);
    lemma_acting(decisions_on(bs, entry));
    lemma_decided(bs, entry);
    lemma_listable(bs.map_values(f));
    let names = listed(entries_of(bs));
    assert(names.to_set().contains(entry));
    assert(names.contains(entry));
    let k = names.index_of(entry);
    order::sorting_permutes(names.filter(yes), le);
    broadcast use vstd::seq_lib::to_multiset_contains;

    assert(acted_on(bs, now_ms).contains(entry) <==> names.filter(yes).contains(entry)) by {
        assert(acted_on(bs, now_ms).contains(entry) <==> acted_on(bs, now_ms).to_multiset().count(
            entry,
        ) > 0);
        assert(names.filter(yes).contains(entry) <==> names.filter(yes).to_multiset().count(entry)
            > 0);
    }
    if yes(entry) {
        names.lemma_filter_contains(yes, k);
    } else if names.filter(yes).contains(entry) {
        let m = names.filter(yes).index_of(entry);
        names.lemma_filter_pred(yes, m);
    }
    if no(entry) {
        names.lemma_filter_contains(no, k);
    } else if names.filter(no).contains(entry) {
        let m = names.filter(no).index_of(entry);
        names.lemma_filter_pred(no, m);
    }
}

/// Whoever is left alone was cleared by the model's last word on it.
pub proof fn only_the_cleared_are_left_alone(bs: Seq<Breach>, i: int)
    requires
        0 <= i < left_alone(bs).len(),
    ensures
        is_cleared(decisions_on(bs, left_alone(bs)[i])),
{
    listed(entries_of(bs)).lemma_filter_pred(
        |e: Seq<char>| is_cleared(decisions_on(bs, e)),
        i,
    );
}

/// No episode outlives the lifetime that is reported: neither a closed one nor the open one.
pub proof fn lifetime_is_the_longest(ds: Seq<Breach>, now_ms: u64)
    ensures
        longest_closed(ds) <= lifetime(ds, now_ms),
        is_open(ds) ==> elapsed(started(ds), now_ms as int) <= lifetime(ds, now_ms),
{
}

/// What is still open shows first, and among the rest the longer lifetime.
pub proof fn sustained_shows_first(bs: Seq<Breach>, now_ms: u64, i: int, j: int)
    requires
        0 <= i < j < acted_on(bs, now_ms).len(),
    ensures
        ({
            let a = decisions_on(bs, acted_on(bs, now_ms)[i]);
            let b = decisions_on(bs, acted_on(bs, now_ms)[j]);
            &&& is_open(b) ==> is_open(a)
            &&& is_open(a) == is_open(b) ==> lifetime(a, now_ms) / 1000 >= lifetime(b, now_ms) / 1000
        }),
{
    let le = |a: Seq<char>, b: Seq<char>| act_le(bs, now_ms, a, b);
    assert forall|a: Seq<char>, b: Seq<char>| #[trigger] le(a, b) || le(b, a) by {
        text::lemma_text_le_total(a, b);
    }
    assert forall|a: Seq<char>, b: Seq<char>, c: Seq<char>| #[trigger]
        le(a, b) && #[trigger] le(b, c) implies le(a, c) by {
        if text::text_le(a, b) && text::text_le(b, c) {
            text::lemma_text_le_trans(a, b, c);
        }
    }
    let names = listed(entries_of(bs)).filter(
        |e: Seq<char>| episodes(decisions_on(bs, e)) > 0,
    );
    order::sorting_orders(names, le);
    assert(le(acted_on(bs, now_ms)[i], acted_on(bs, now_ms)[j]));
}

/// An empty journal reports nothing.
pub proof fn empty_journal_reports_nothing(
    entries: Seq<JournalEntry>,
    now_ms: u64,
    window_secs: u64,
    short_lived_secs: u64,
    r: Report,
)
    requires
        reports(entries, now_ms, window_secs, short_lived_secs, r),
        r.journal_empty,
    ensures
        r.decisions_in_window == 0,
        r.would_act@.len() == 0,
        r.left_alone@.len() == 0,
{
    let bs = in_window(entries, now_ms, window_secs);
    let yes = |e: Seq<char>| episodes(decisions_on(bs, e)) > 0;
    let no = |e: Seq<char>| is_cleared(decisions_on(bs, e));
    let le = |a: Seq<char>, b: Seq<char>| act_le(bs, now_ms, a, b);
    breaches(entries).lemma_filter_len(
        |b: Breach| b.at_ms >= window_start(now_ms, window_secs),
    );
    let names = listed(entries_of(bs));
    let v = bs.map_values(|b: Breach| b.entry@);
    assert(v.len() == 0);
    lemma_listable(v);
    if names.len() > 0 {
        assert(names.contains(names[0]));
        assert(names.to_set().contains(names[0]));
        assert(v.to_set().contains(names[0]));
        assert(v.contains(names[0]));
    }
    names.lemma_filter_len(yes);
    names.lemma_filter_len(no);
    order::sorting_permutes(names.filter(yes), le);
}

/// What one element adds when the others are gone through.
proof fn lemma_filter_map_without(s: Seq<JournalEntry>, i: int)
    requires
        0 <= i < s.len(),
    ensures
        ({
            let f = |e: JournalEntry| breach_of(e);
            let rest = s.remove(i).filter_map(f).to_multiset();
            s.filter_map(f).to_multiset() == (match breach_of(s[i]) {
                Some(b) => rest.insert(b),
                None => rest,
            })
        }),
    decreases s.len(),
{
    broadcast use vstd::seq_lib::to_multiset_build;

    let f = |e: JournalEntry| breach_of(e);
    let n = s.len() - 1;
    let d = s.drop_last();
    let l = s.last();
    lemma_filter_map_push(d, l);
    assert(s =~= d.push(l));
    if i == n {
        assert(s.remove(i) =~= d);
    } else {
        lemma_filter_map_without(d, i);
        let r = d.remove(i);
        assert(s.remove(i) =~= r.push(l));
        lemma_filter_map_push(r, l);
        match (breach_of(s[i]), breach_of(l)) {
            (Some(b), Some(c)) => {
                assert(r.filter_map(f).to_multiset().insert(b).insert(c)
                    =~= r.filter_map(f).to_multiset().insert(c).insert(b));
            },
            _ => {},
        }
    }
}

proof fn lemma_filter_map_push(s: Seq<JournalEntry>, e: JournalEntry)
    ensures
        ({
            let f = |e: JournalEntry| breach_of(e);
            s.push(e).filter_map(f) == (match breach_of(e) {
                Some(b) => s.filter_map(f).push(b),
                None => s.filter_map(f),
            })
        }),
{
    let f = |e: JournalEntry| breach_of(e);
    let t = s.push(e);
    t.lemma_filter_map_take_succ(f, s.len() as int);
    assert(t.take(s.len() as int + 1) =~= t);
    assert(t.take(s.len() as int) =~= s);
    match breach_of(e) {
        Some(b) => {
            assert(s.filter_map(f) + seq![b] =~= s.filter_map(f).push(b));
        },
        None => {
            assert(s.filter_map(f) + Seq::<Breach>::empty() =~= s.filter_map(f));
        },
    }
}

proof fn lemma_same_breaches(e: Seq<JournalEntry>, p: Seq<JournalEntry>)
    requires
        e.to_multiset() == p.to_multiset(),
    ensures
        e.filter_map(|x: JournalEntry| breach_of(x)).to_multiset() == p.filter_map(
            |x: JournalEntry| breach_of(x),
        ).to_multiset(),
    decreases e.len(),
{
    broadcast use
        vstd::seq_lib::to_multiset_contains,
        vstd::seq_lib::to_multiset_build,
        vstd::seq_lib::to_multiset_remove,
    ;

    e.to_multiset_ensures();
    p.to_multiset_ensures();
    assert(e.len() == p.len());
    if e.len() == 0 {
        assert(e =~= p);
    } else {
        let n = e.len() - 1;
        let l = e[n];
        assert(e.contains(l));
        assert(e.to_multiset().count(l) > 0);
        assert(p.contains(l));
        let i = p.index_of(l);
        assert(e.remove(n).to_multiset() =~= e.to_multiset().remove(l));
        assert(p.remove(i).to_multiset() =~= p.to_multiset().remove(l));
        lemma_same_breaches(e.remove(n), p.remove(i));
        lemma_filter_map_without(e, n);
        lemma_filter_map_without(p, i);
    }
}

/// The moments of a journal differ.
pub open spec fn at_distinct_times(entries: Seq<JournalEntry>) -> bool {
    forall|i: int, j: int|
        0 <= i < entries.len() && 0 <= j < entries.len() && (#[trigger] entries[i]).at_ms == (
        #[trigger] entries[j]).at_ms ==> i == j
}

/// Where no two lines are of one moment, the order in which they are handed over does not matter:
/// a report of one order is a report of any other.
pub proof fn order_of_journal_does_not_matter(
    e: Seq<JournalEntry>,
    p: Seq<JournalEntry>,
    now_ms: u64,
    window_secs: u64,
    short_lived_secs: u64,
    r: Report,
)
    requires
        e.to_multiset() == p.to_multiset(),
        at_distinct_times(e),
    ensures
        breaches(e) == breaches(p),
        reports(e, now_ms, window_secs, short_lived_secs, r) == reports(
            p,
            now_ms,
            window_secs,
            short_lived_secs,
            r,
        ),
{
    let f = |x: JournalEntry| breach_of(x);
    let s = e.filter_map(f);
    lemma_same_breaches(e, p);
    assert forall|a: Breach, b: Breach|
        s.contains(a) && s.contains(b) && #[trigger] time_order()(a, b) && #[trigger] time_order()(
            b,
            a,
        ) implies a == b by {
        e.lemma_filter_map_contains(f, a);
        e.lemma_filter_map_contains(f, b);
        let x = choose|t: JournalEntry| #[trigger] e.contains(t) && f(t) == Some(a);
        let y = choose|t: JournalEntry| #[trigger] e.contains(t) && f(t) == Some(b);
        let i = e.index_of(x);
        let j = e.index_of(y);
        assert(e[i].at_ms == e[j].at_ms);
    }
    order::sorting_forgets_order(s, p.filter_map(f), time_order());
}

/// The reports read the same.
pub open spec fn reads_same(a: Report, b: Report) -> bool {
    &&& a.window_secs == b.window_secs
    &&& a.short_lived_secs == b.short_lived_secs
    &&& a.decisions_in_window == b.decisions_in_window
    &&& a.journal_empty == b.journal_empty
    &&& a.would_act@.len() == b.would_act@.len()
    &&& forall|i: int|
        #![trigger a.would_act@[i]]
        0 <= i < a.would_act@.len() ==> {
            let (x, y) = (a.would_act@[i], b.would_act@[i]);
            &&& x.entry@ == y.entry@
            &&& x.last_verdict@ == y.last_verdict@
            &&& x == (WouldActEntry { entry: x.entry, last_verdict: x.last_verdict, ..y })
        }
    &&& a.left_alone@.len() == b.left_alone@.len()
    &&& forall|i: int|
        #![trigger a.left_alone@[i]]
        0 <= i < a.left_alone@.len() ==> a.left_alone@[i].entry@ == b.left_alone@[i].entry@
            && a.left_alone@[i].verdict@ == b.left_alone@[i].verdict@
}

/// Reports of one journal in two orders read the same, where no two lines are of one moment.
pub proof fn reports_of_any_order_read_same(
    e: Seq<JournalEntry>,
    p: Seq<JournalEntry>,
    now_ms: u64,
    window_secs: u64,
    short_lived_secs: u64,
    a: Report,
    b: Report,
)
    requires
        e.to_multiset() == p.to_multiset(),
        at_distinct_times(e),
        reports(e, now_ms, window_secs, short_lived_secs, a),
        reports(p, now_ms, window_secs, short_lived_secs, b),
    ensures
        reads_same(a, b),
{
    order_of_journal_does_not_matter(e, p, now_ms, window_secs, short_lived_secs, b);
    let bs = in_window(e, now_ms, window_secs);
    assert forall|i: int| #![trigger a.would_act@[i]] 0 <= i < a.would_act@.len() implies {
        let (x, y) = (a.would_act@[i], b.would_act@[i]);
        &&& x.entry@ == y.entry@
        &&& x.last_verdict@ == y.last_verdict@
        &&& x == (WouldActEntry { entry: x.entry, last_verdict: x.last_verdict, ..y })
    } by {
        let name = acted_on(bs, now_ms)[i];
        let ds = decisions_on(bs, name);
        assert(shows_act(name, ds, now_ms, short_lived_secs, a.would_act@[i]));
        assert(shows_act(name, ds, now_ms, short_lived_secs, b.would_act@[i]));
    }
    assert forall|i: int| #![trigger a.left_alone@[i]] 0 <= i < a.left_alone@.len() implies
        a.left_alone@[i].entry@ == b.left_alone@[i].entry@ && a.left_alone@[i].verdict@
        == b.left_alone@[i].verdict@ by {
        let ds = decisions_on(bs, left_alone(bs)[i]);
        assert(shows_left(left_alone(bs)[i], ds, a.left_alone@[i]));
        assert(shows_left(left_alone(bs)[i], ds, b.left_alone@[i]));
    }
}

} // verus!
