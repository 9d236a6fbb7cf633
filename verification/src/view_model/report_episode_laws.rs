//! What the report says of an entry, in terms of the decisions on it.

use crate::order;
use crate::seqs::{
    lemma_filter_map_member, lemma_filter_member, lemma_filter_push, lemma_sorted_member,
};
use crate::text;
use crate::text_laws::lemma_begins;
use crate::view_model::report_data::{
    acted_on, acting, affirms, breach_of, breaches, clears, decisions_on, elapsed, episodes,
    in_window, is_on, is_open, last_acting, left_alone, longest_closed, reports, shows_act,
    shows_left, started, starts, time_order, window_start, Breach, JournalEntry, Report,
    ReportQuery, WouldActEntry,
};
use crate::view_model::report_laws::sustained_shows_first;
use vstd::prelude::*;

verus! {

/// The decision at `i` starts an episode: it affirms exploitability and the one before does not.
pub open spec fn starts_at(ds: Seq<Breach>, i: int) -> bool {
    0 <= i < ds.len() && ds[i].acts() && (i == 0 || !ds[i - 1].acts())
}

/// An episode starts at `i`, and `j` is the first later decision that does not affirm.
pub open spec fn closes(ds: Seq<Breach>, i: int, j: int) -> bool {
    &&& starts_at(ds, i)
    &&& i < j < ds.len()
    &&& forall|k: int| i <= k < j ==> (#[trigger] ds[k]).acts()
    &&& !ds[j].acts()
}

/// An episode starts at `i`, and every later decision affirms.
pub open spec fn runs_on(ds: Seq<Breach>, i: int) -> bool {
    &&& starts_at(ds, i)
    &&& forall|k: int| i <= k < ds.len() ==> (#[trigger] ds[k]).acts()
}

/// The decisions are in time order.
pub open spec fn in_time_order(ds: Seq<Breach>) -> bool {
    forall|i: int, j: int|
        0 <= i <= j < ds.len() ==> (#[trigger] ds[i]).at_ms <= (#[trigger] ds[j]).at_ms
}

proof fn lemma_started(ds: Seq<Breach>, i: int)
    requires
        runs_on(ds, i),
    ensures
        started(ds) == ds[i].at_ms,
    decreases ds.len(),
{
    let n = ds.len() - 1;
    if i == n {
        assert(starts(ds));
    } else {
        assert(ds[n - 1].acts());
        assert(ds[n].acts());
        let d = ds.drop_last();
        assert(runs_on(d, i)) by {
            assert(d[i] == ds[i]);
            if i > 0 {
                assert(d[i - 1] == ds[i - 1]);
            }
            assert forall|k: int| i <= k < d.len() implies (#[trigger] d[k]).acts() by {
                assert(d[k] == ds[k]);
            }
        }
        lemma_started(d, i);
    }
}

proof fn lemma_runs_on(ds: Seq<Breach>) -> (i: int)
    requires
        is_open(ds),
    ensures
        runs_on(ds, i),
    decreases ds.len(),
{
    let n = ds.len() - 1;
    if n == 0 || !ds[n - 1].acts() {
        n
    } else {
        let d = ds.drop_last();
        let i = lemma_runs_on(d);
        assert(d[i] == ds[i]);
        if i > 0 {
            assert(d[i - 1] == ds[i - 1]);
        }
        assert forall|k: int| i <= k < ds.len() implies (#[trigger] ds[k]).acts() by {
            if k < n {
                assert(d[k] == ds[k]);
            }
        }
        i
    }
}

proof fn lemma_closes_before(ds: Seq<Breach>, i: int, j: int)
    requires
        ds.len() > 0,
    ensures
        closes(ds.drop_last(), i, j) <==> closes(ds, i, j) && j < ds.len() - 1,
{
    let d = ds.drop_last();
    if 0 <= i < j < d.len() {
        assert(d[i] == ds[i] && d[j] == ds[j]);
        if i > 0 {
            assert(d[i - 1] == ds[i - 1]);
        }
        if closes(d, i, j) {
            assert forall|k: int| i <= k < j implies (#[trigger] ds[k]).acts() by {
                assert(d[k] == ds[k]);
            }
        }
        if closes(ds, i, j) {
            assert forall|k: int| i <= k < j implies (#[trigger] d[k]).acts() by {
                assert(d[k] == ds[k]);
            }
        }
    }
}

proof fn lemma_closed_counts(ds: Seq<Breach>, i: int, j: int)
    requires
        closes(ds, i, j),
    ensures
        longest_closed(ds) >= elapsed(ds[i].at_ms as int, ds[j].at_ms as int),
    decreases ds.len(),
{
    let d = ds.drop_last();
    lemma_closes_before(ds, i, j);
    if j == ds.len() - 1 {
        assert(ds[j - 1].acts());
        assert(runs_on(d, i)) by {
            assert(d[i] == ds[i]);
            if i > 0 {
                assert(d[i - 1] == ds[i - 1]);
            }
            assert forall|k: int| i <= k < d.len() implies (#[trigger] d[k]).acts() by {
                assert(d[k] == ds[k]);
            }
        }
        lemma_started(d, i);
    } else {
        lemma_closed_counts(d, i, j);
    }
}

/// The longest is that of some closed episode, and nothing where none closed.
proof fn lemma_longest_is_one(ds: Seq<Breach>)
    ensures
        (exists|i: int, j: int|
            #[trigger] closes(ds, i, j) && longest_closed(ds) == elapsed(
                ds[i].at_ms as int,
                ds[j].at_ms as int,
            )) || ((forall|i: int, j: int| !#[trigger] closes(ds, i, j)) && longest_closed(ds) == 0),
    decreases ds.len(),
{
    if ds.len() > 0 {
        let d = ds.drop_last();
        let n = ds.len() - 1;
        lemma_longest_is_one(d);
        assert forall|i: int, j: int| closes(ds, i, j) implies #[trigger] closes(d, i, j) || j == n by {
            lemma_closes_before(ds, i, j);
        }
        if exists|i: int, j: int|
            #[trigger] closes(d, i, j) && longest_closed(d) == elapsed(
                d[i].at_ms as int,
                d[j].at_ms as int,
            ) {
            let (i, j) = choose|i: int, j: int|
                #[trigger] closes(d, i, j) && longest_closed(d) == elapsed(
                    d[i].at_ms as int,
                    d[j].at_ms as int,
                );
            lemma_closes_before(ds, i, j);
            assert(closes(ds, i, j));
            assert(ds[i] == d[i] && ds[j] == d[j]);
        }
        if !ds[n].acts() && n >= 1 && ds[n - 1].acts() {
            assert(is_open(d));
            let i = lemma_runs_on(d);
            lemma_started(d, i);
            assert(d[i] == ds[i]);
            assert(closes(ds, i, n)) by {
                if i > 0 {
                    assert(d[i - 1] == ds[i - 1]);
                }
                assert forall|k: int| i <= k < n implies (#[trigger] ds[k]).acts() by {
                    assert(d[k] == ds[k]);
                }
            }
        } else {
            assert forall|i: int, j: int| #[trigger] closes(ds, i, j) implies j < n by {
                if j == n {
                    assert(ds[j - 1].acts());
                }
            }
            assert(longest_closed(ds) == longest_closed(d));
            assert forall|i: int, j: int| #[trigger] closes(ds, i, j) implies closes(d, i, j) by {
                lemma_closes_before(ds, i, j);
            }
        }
    }
}

proof fn lemma_some_closed(ds: Seq<Breach>, k: int) -> (r: (int, int))
    requires
        0 <= k < ds.len(),
        ds[k].acts(),
        !is_open(ds),
    ensures
        closes(ds, r.0, r.1),
    decreases ds.len(),
{
    let n = ds.len() - 1;
    let d = ds.drop_last();
    assert(d[k] == ds[k]);
    if ds[n - 1].acts() {
        let i = lemma_runs_on(d);
        assert(d[i] == ds[i]);
        if i > 0 {
            assert(d[i - 1] == ds[i - 1]);
        }
        assert forall|m: int| i <= m < n implies (#[trigger] ds[m]).acts() by {
            assert(d[m] == ds[m]);
        }
        (i, n)
    } else {
        let r = lemma_some_closed(d, k);
        lemma_closes_before(ds, r.0, r.1);
        r
    }
}

/// Every closed episode counts: the lifetime that is reported is at least its own.
pub proof fn no_closed_episode_is_longer(
    entry: Seq<char>,
    ds: Seq<Breach>,
    now_ms: u64,
    short_lived_secs: u64,
    w: WouldActEntry,
    i: int,
    j: int,
)
    requires
        shows_act(entry, ds, now_ms, short_lived_secs, w),
        closes(ds, i, j),
    ensures
        w.max_lifetime_secs >= (ds[j].at_ms - ds[i].at_ms) / 1000,
{
    lemma_closed_counts(ds, i, j);
}

/// An open episode lives until now, and the lifetime that is reported is at least its own.
pub proof fn open_episode_lives_until_now(
    entry: Seq<char>,
    ds: Seq<Breach>,
    now_ms: u64,
    short_lived_secs: u64,
    w: WouldActEntry,
    i: int,
)
    requires
        shows_act(entry, ds, now_ms, short_lived_secs, w),
        runs_on(ds, i),
    ensures
        w.open,
        w.max_lifetime_secs >= (now_ms - ds[i].at_ms) / 1000,
{
    lemma_started(ds, i);
    assert(ds[ds.len() - 1].acts());
}

/// The lifetime that is reported is that of some episode: a closed one, or where the last episode is
/// open, that one up to now.
pub proof fn lifetime_is_that_of_an_episode(
    entry: Seq<char>,
    ds: Seq<Breach>,
    now_ms: u64,
    short_lived_secs: u64,
    w: WouldActEntry,
)
    requires
        shows_act(entry, ds, now_ms, short_lived_secs, w),
        in_time_order(ds),
        exists|k: int| 0 <= k < ds.len() && (#[trigger] ds[k]).acts(),
    ensures
        !w.open ==> exists|i: int, j: int| #[trigger]
            closes(ds, i, j) && w.max_lifetime_secs == (ds[j].at_ms - ds[i].at_ms) / 1000,
        w.open ==> (exists|i: int, j: int| #[trigger]
            closes(ds, i, j) && w.max_lifetime_secs == (ds[j].at_ms - ds[i].at_ms) / 1000) || (
        exists|i: int| #[trigger]
            runs_on(ds, i) && w.max_lifetime_secs == elapsed(ds[i].at_ms as int, now_ms as int)
                / 1000),
{
    lemma_longest_is_one(ds);
    let k = choose|k: int| 0 <= k < ds.len() && (#[trigger] ds[k]).acts();
    if exists|i: int, j: int|
        #[trigger] closes(ds, i, j) && longest_closed(ds) == elapsed(
            ds[i].at_ms as int,
            ds[j].at_ms as int,
        ) {
        let (i, j) = choose|i: int, j: int|
            #[trigger] closes(ds, i, j) && longest_closed(ds) == elapsed(
                ds[i].at_ms as int,
                ds[j].at_ms as int,
            );
        assert(ds[i].at_ms <= ds[j].at_ms);
        assert(closes(ds, i, j));
    }
    if is_open(ds) {
        let i = lemma_runs_on(ds);
        lemma_started(ds, i);
        assert(runs_on(ds, i));
    } else {
        let r = lemma_some_closed(ds, k);
        assert(closes(ds, r.0, r.1));
    }
}

/// Short-lived are those that ended, every episode below the threshold.
pub proof fn short_lived_ended_below_the_threshold(
    entry: Seq<char>,
    ds: Seq<Breach>,
    now_ms: u64,
    short_lived_secs: u64,
    w: WouldActEntry,
)
    requires
        shows_act(entry, ds, now_ms, short_lived_secs, w),
        in_time_order(ds),
        exists|k: int| 0 <= k < ds.len() && (#[trigger] ds[k]).acts(),
    ensures
        w.short_lived <==> !ds.last().acts() && forall|i: int, j: int| #[trigger]
            closes(ds, i, j) ==> ds[j].at_ms - ds[i].at_ms < short_lived_secs * 1000,
{
    lemma_longest_is_one(ds);
    let k = choose|k: int| 0 <= k < ds.len() && (#[trigger] ds[k]).acts();
    assert forall|i: int, j: int| #[trigger] closes(ds, i, j) implies longest_closed(ds)
        >= ds[j].at_ms - ds[i].at_ms by {
        lemma_closed_counts(ds, i, j);
    }
    if !is_open(ds) {
        let r = lemma_some_closed(ds, k);
        assert(closes(ds, r.0, r.1));
        let (i, j) = choose|i: int, j: int|
            #[trigger] closes(ds, i, j) && longest_closed(ds) == elapsed(
                ds[i].at_ms as int,
                ds[j].at_ms as int,
            );
        assert(ds[i].at_ms <= ds[j].at_ms);
    }
}

/// One more decision starts one more episode exactly where it affirms and the last one does not, and
/// is one more affirming decision exactly where it affirms.
pub proof fn one_more_decision(ds: Seq<Breach>, b: Breach)
    ensures
        episodes(Seq::empty()) == 0,
        acting(Seq::empty()) == 0,
        episodes(ds.push(b)) == episodes(ds) + (if b.acts() && (ds.len() == 0 || !ds.last().acts()) {
            1int
        } else {
            0int
        }),
        acting(ds.push(b)) == acting(ds) + (if b.acts() {
            1int
        } else {
            0int
        }),
{
    broadcast use vstd::seq::Seq::lemma_filter_push;

    let p = |b: Breach| b.acts();
    assert(Seq::<Breach>::empty().filter(p) =~= Seq::empty());
    let t = ds.push(b);
    assert(t.drop_last() =~= ds);
    assert(t.last() == b);
    if ds.len() > 0 {
        assert(t[t.len() - 2] == ds.last());
    }
}

proof fn lemma_last_acting(ds: Seq<Breach>, i: int)
    requires
        0 <= i < ds.len(),
        ds[i].acts(),
        forall|k: int| i < k < ds.len() ==> !(#[trigger] ds[k]).acts(),
    ensures
        last_acting(ds) == Some(ds[i]),
    decreases ds.len(),
{
    let n = ds.len() - 1;
    if i < n {
        assert(!ds[n].acts());
        let d = ds.drop_last();
        assert forall|k: int| i < k < d.len() implies !(#[trigger] d[k]).acts() by {
            assert(d[k] == ds[k]);
        }
        assert(d[i] == ds[i]);
        lemma_last_acting(d, i);
    }
}

/// The verdict that is reported is that of the last decision that affirms, and a gap is reported
/// exactly where some decision affirms while neither a CVE nor a behavior backs it.
pub proof fn last_word_and_gap(
    entry: Seq<char>,
    ds: Seq<Breach>,
    now_ms: u64,
    short_lived_secs: u64,
    w: WouldActEntry,
    i: int,
)
    requires
        shows_act(entry, ds, now_ms, short_lived_secs, w),
        0 <= i < ds.len(),
        ds[i].acts(),
        forall|k: int| i < k < ds.len() ==> !(#[trigger] ds[k]).acts(),
    ensures
        w.entry@ == entry,
        w.last_verdict@ == ds[i].verdict@,
        w.open <==> i == ds.len() - 1,
        w.coverage_gap <==> exists|k: int|
            0 <= k < ds.len() && (#[trigger] ds[k]).acts() && (ds[k].coverage matches Some(c)
                && !c.cve_evidence && !c.behavioral_signal),
{
    lemma_last_acting(ds, i);
    if i < ds.len() - 1 {
        assert(!ds[ds.len() - 1].acts());
    }
}

proof fn lemma_filter_in_order(bs: Seq<Breach>, p: spec_fn(Breach) -> bool)
    requires
        in_time_order(bs),
    ensures
        in_time_order(bs.filter(p)),
        forall|i: int|
            0 <= i < bs.filter(p).len() ==> exists|k: int|
                0 <= k < bs.len() && #[trigger] bs[k] == #[trigger] bs.filter(p)[i],
    decreases bs.len(),
{
    broadcast use vstd::seq::Seq::lemma_filter_push;

    if bs.len() == 0 {
        assert(bs.filter(p) =~= Seq::empty());
    } else {
        let d = bs.drop_last();
        let f = d.filter(p);
        let l = bs.last();
        assert(bs =~= d.push(l));
        assert(in_time_order(d)) by {
            assert forall|i: int, j: int| 0 <= i <= j < d.len() implies (#[trigger] d[i]).at_ms <= (
            #[trigger] d[j]).at_ms by {
                assert(d[i] == bs[i] && d[j] == bs[j]);
            }
        }
        lemma_filter_in_order(d, p);
        let g = bs.filter(p);
        assert forall|i: int| 0 <= i < g.len() implies exists|k: int|
            0 <= k < bs.len() && #[trigger] bs[k] == #[trigger] g[i] by {
            if i < f.len() {
                assert(g[i] == f[i]);
                let k = choose|k: int| 0 <= k < d.len() && #[trigger] d[k] == f[i];
                assert(bs[k] == g[i]);
            } else {
                assert(bs[bs.len() - 1] == g[i]);
            }
        }
        assert forall|i: int, j: int| 0 <= i <= j < g.len() implies (#[trigger] g[i]).at_ms <= (
        #[trigger] g[j]).at_ms by {
            if j < f.len() {
                assert(g[i] == f[i] && g[j] == f[j]);
            } else {
                let k = choose|k: int| 0 <= k < bs.len() && #[trigger] bs[k] == g[i];
                assert(g[j] == bs[bs.len() - 1]);
            }
        }
    }
}

proof fn lemma_decisions_in_order(bs: Seq<Breach>, entry: Seq<char>)
    requires
        in_time_order(bs),
    ensures
        in_time_order(decisions_on(bs, entry)),
{
    lemma_filter_in_order(bs, |b: Breach| is_on(b, entry));
}

/// The decisions of the window are in time order, and so are those on one entry.
pub proof fn decisions_are_in_time_order(
    entries: Seq<JournalEntry>,
    now_ms: u64,
    window_secs: u64,
    entry: Seq<char>,
)
    ensures
        in_time_order(in_window(entries, now_ms, window_secs)),
        in_time_order(decisions_on(in_window(entries, now_ms, window_secs), entry)),
{
    let all = entries.filter_map(|e: JournalEntry| breach_of(e));
    assert(order::is_order(time_order()));
    order::sorting_orders(all, time_order());
    let bs = breaches(entries);
    assert forall|i: int, j: int| 0 <= i <= j < bs.len() implies (#[trigger] bs[i]).at_ms <= (
    #[trigger] bs[j]).at_ms by {
        if i < j {
            assert(time_order()(bs[i], bs[j]));
        }
    }
    lemma_filter_in_order(bs, |b: Breach| b.at_ms >= window_start(now_ms, window_secs));
    lemma_decisions_in_order(in_window(entries, now_ms, window_secs), entry);
}

/// A journalled breach decision counts in the window exactly where it is at most as old as the
/// window is long; a decision from ahead of now counts too.
pub proof fn window_holds_what_is_recent(
    entries: Seq<JournalEntry>,
    now_ms: u64,
    window_secs: u64,
    b: Breach,
)
    ensures
        in_window(entries, now_ms, window_secs).contains(b) <==> (exists|k: int|
            0 <= k < entries.len() && breach_of(#[trigger] entries[k]) == Some(b)) && b.at_ms
            + window_secs * 1000 >= now_ms,
{
    let f = |e: JournalEntry| breach_of(e);
    let p = |b: Breach| b.at_ms >= window_start(now_ms, window_secs);
    lemma_sorted_member(entries.filter_map(f), time_order(), b);
    lemma_filter_map_member(entries, f, b);
    lemma_filter_member(breaches(entries), p, b);
}

/// The decisions on an entry are those of the window that name it, in their order.
pub proof fn decisions_name_their_entry(bs: Seq<Breach>, b: Breach, entry: Seq<char>)
    ensures
        decisions_on(Seq::empty(), entry).len() == 0,
        decisions_on(bs.push(b), entry) == (if b.entry@ == entry {
            decisions_on(bs, entry).push(b)
        } else {
            decisions_on(bs, entry)
        }),
{
    lemma_filter_push(bs, |b: Breach| is_on(b, entry), b);
}

/// A report counts the decisions of its window, and each of its lines reads as the decisions on the
/// entry that it names: open ones first, then the longer lifetime, and a path that was left alone in
/// the words of the last decision on it.
pub proof fn lines_read_as_their_decisions(
    entries: Seq<JournalEntry>,
    now_ms: u64,
    window_secs: u64,
    short_lived_secs: u64,
    r: Report,
)
    requires
        reports(entries, now_ms, window_secs, short_lived_secs, r),
    ensures
        r.decisions_in_window == in_window(entries, now_ms, window_secs).len(),
        r.window_secs == window_secs,
        r.short_lived_secs == short_lived_secs,
        r.journal_empty <==> forall|k: int|
            0 <= k < entries.len() ==> breach_of(#[trigger] entries[k]) is None,
        forall|i: int|
            0 <= i < r.would_act@.len() ==> shows_act(
                (#[trigger] r.would_act@[i]).entry@,
                decisions_on(in_window(entries, now_ms, window_secs), r.would_act@[i].entry@),
                now_ms,
                short_lived_secs,
                r.would_act@[i],
            ),
        forall|i: int, j: int|
            0 <= i < j < r.would_act@.len() ==> ((#[trigger] r.would_act@[j]).open ==> (
            #[trigger] r.would_act@[i]).open) && (r.would_act@[i].open == r.would_act@[j].open
                ==> r.would_act@[i].max_lifetime_secs >= r.would_act@[j].max_lifetime_secs),
        forall|i: int|
            0 <= i < r.left_alone@.len() ==> ({
                let ds = decisions_on(
                    in_window(entries, now_ms, window_secs),
                    (#[trigger] r.left_alone@[i]).entry@,
                );
                ds.len() > 0 && r.left_alone@[i].verdict@ == ds.last().verdict@
            }),
{
    let bs = in_window(entries, now_ms, window_secs);
    let f = |e: JournalEntry| breach_of(e);
    let all = entries.filter_map(f);
    order::sorting_permutes(all, time_order());
    if all.len() > 0 {
        assert(all.contains(all[0]));
        lemma_filter_map_member(entries, f, all[0]);
        let k = choose|k: int| 0 <= k < entries.len() && f(#[trigger] entries[k]) == Some(all[0]);
        assert(breach_of(entries[k]) is Some);
    } else {
        assert forall|k: int| 0 <= k < entries.len() implies breach_of(#[trigger] entries[k]) is None by {
            match breach_of(entries[k]) {
                Some(b) => {
                    assert(f(entries[k]) == Some(b));
                    lemma_filter_map_member(entries, f, b);
                },
                None => {},
            }
        }
    }
    assert forall|i: int, j: int| 0 <= i < j < r.would_act@.len() implies ((
    #[trigger] r.would_act@[j]).open ==> (#[trigger] r.would_act@[i]).open) && (
    r.would_act@[i].open == r.would_act@[j].open ==> r.would_act@[i].max_lifetime_secs
        >= r.would_act@[j].max_lifetime_secs) by {
        assert(r.would_act@[i].entry@ == acted_on(bs, now_ms)[i]);
        assert(r.would_act@[j].entry@ == acted_on(bs, now_ms)[j]);
        sustained_shows_first(bs, now_ms, i, j);
    }
    assert forall|i: int| 0 <= i < r.left_alone@.len() implies ({
        let ds = decisions_on(bs, (#[trigger] r.left_alone@[i]).entry@);
        ds.len() > 0 && r.left_alone@[i].verdict@ == ds.last().verdict@
    }) by {
        assert(shows_left(
            left_alone(bs)[i],
            decisions_on(bs, left_alone(bs)[i]),
            r.left_alone@[i],
        ));
    }
}

/// Words that affirm never clear, and words that clear never affirm. What they begin with decides,
/// whatever follows.
pub proof fn affirming_and_clearing_words(rest: Seq<char>, verdict: Seq<char>)
    ensures
        affirms("exploitable"@ + rest),
        affirms("confirmed"@ + rest),
        clears("not exploitable"@ + rest),
        clears("refuted"@ + rest),
        !(affirms(verdict) && clears(verdict)),
{
    reveal_strlit("exploitable");
    reveal_strlit("confirmed");
    reveal_strlit("not exploitable");
    reveal_strlit("refuted");
    lemma_begins("exploitable"@, rest);
    lemma_begins("confirmed"@, rest);
    lemma_begins("not exploitable"@, rest);
    lemma_begins("refuted"@, rest);
    let v = text::lower(text::trim_start(verdict));
    assert("exploitable"@[0] == 'e' && "confirmed"@[0] == 'c' && "not exploitable"@[0] == 'n'
        && "refuted"@[0] == 'r');
    if affirms(verdict) && clears(verdict) {
        if "exploitable"@.is_prefix_of(v) {
            assert(v[0] == 'e');
        } else {
            assert(v[0] == 'c');
        }
        if "not exploitable"@.is_prefix_of(v) {
            assert(v[0] == 'n');
        } else {
            assert(v[0] == 'r');
        }
    }
}

/// A window is as long as is asked: in hours where they are given, else in days, else a week. One
/// that is too long to count is the longest there is. An episode is short-lived below the threshold
/// that is asked, else below five minutes.
pub proof fn window_is_as_asked(q: ReportQuery)
    ensures
        q.hours matches Some(h) ==> (h * 3600 <= u64::MAX ==> q.window_asked() == h * 3600) && (h
            * 3600 > u64::MAX ==> q.window_asked() == u64::MAX),
        q.hours is None ==> (q.days matches Some(d) ==> (d * 86400 <= u64::MAX ==> q.window_asked()
            == d * 86400) && (d * 86400 > u64::MAX ==> q.window_asked() == u64::MAX)),
        q.hours is None && q.days is None ==> q.window_asked() == 7 * 86400,
        q.short_lived_secs matches Some(s) ==> q.short_lived_asked() == s,
        q.short_lived_secs is None ==> q.short_lived_asked() == 5 * 60,
{
}

} // verus!
