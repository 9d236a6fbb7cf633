//! What the engine would have done: the breach decisions of the journal, aggregated over a rolling
//! window into the workloads it would have isolated and those it cleared.
//!
//! An entry's decisions, in time order, fall into episodes: runs of verdicts that affirm
//! exploitability. An episode's lifetime runs from its first decision to the decision that ends
//! it, or to now while nothing has ended it.

use crate::order;
use crate::text;
use crate::text_set::{lemma_listed, listed, TextSet};
use crate::view_model::posture::{age_text, human_age};
use vstd::prelude::*;
use vstd::string::*;

verus! {

/// The default window, in hours: seven days.
pub const DEFAULT_WINDOW_HOURS: u64 = 168;

/// The default threshold below which a closed episode is short-lived, in seconds.
pub const DEFAULT_SHORT_LIVED_SECS: u64 = 300;

/// The window and threshold that a reader asks for.
#[derive(Debug, Clone, PartialEq, Eq, Default)]
pub struct ReportQuery {
    pub hours: Option<u64>,
    /// Ignored where `hours` is set.
    pub days: Option<u64>,
    pub short_lived_secs: Option<u64>,
}

/// The product, or the largest number where it does not fit.
pub open spec fn capped(n: int) -> int {
    if n > u64::MAX {
        u64::MAX as int
    } else {
        n
    }
}

fn times(a: u64, b: u64) -> (r: u64)
    ensures
        r == capped(a * b),
{
    assert(0 <= a * b <= u64::MAX * u64::MAX) by (nonlinear_arith)
        requires
            0 <= a <= u64::MAX,
            0 <= b <= u64::MAX,
    ;
    let n: u128 = (a as u128) * (b as u128);
    if n > u64::MAX as u128 {
        u64::MAX
    } else {
        n as u64
    }
}

impl ReportQuery {
    /// The hours that are asked for: the hours, else the days, else the default.
    pub open spec fn hours_asked(self) -> int {
        match self.hours {
            Some(h) => h as int,
            None => match self.days {
                Some(d) => capped(d * 24),
                None => DEFAULT_WINDOW_HOURS as int,
            },
        }
    }

    /// The window that is asked for, in seconds.
    pub open spec fn window_asked(self) -> int {
        capped(self.hours_asked() * 3600)
    }

    /// The threshold that is asked for, in seconds.
    pub open spec fn short_lived_asked(self) -> int {
        match self.short_lived_secs {
            Some(s) => s as int,
            None => DEFAULT_SHORT_LIVED_SECS as int,
        }
    }

    /// The window, in seconds.
    pub fn window(&self) -> (r: u64)
        ensures
            r == self.window_asked(),
    {
        let hours: u64 = match self.hours {
            Some(h) => h,
            None => match self.days {
                Some(d) => times(d, 24),
                None => DEFAULT_WINDOW_HOURS,
            },
        };
        times(hours, 3600)
    }

    /// The threshold for a short-lived episode, in seconds.
    pub fn short_lived(&self) -> (r: u64)
        ensures
            r == self.short_lived_asked(),
    {
        match self.short_lived_secs {
            Some(s) => s,
            None => DEFAULT_SHORT_LIVED_SECS,
        }
    }
}

/// What the model had to weigh when it decided.
#[derive(Debug, Clone, Copy, PartialEq, Eq)]
pub struct EnrichmentCoverage {
    pub cve_evidence: bool,
    pub behavioral_signal: bool,
}

impl EnrichmentCoverage {
    /// There was something to weigh.
    pub open spec fn backed(self) -> bool {
        self.cve_evidence || self.behavioral_signal
    }

    /// Whether there was something to weigh.
    pub fn is_backed(&self) -> (r: bool)
        ensures
            r == self.backed(),
    {
        self.cve_evidence || self.behavioral_signal
    }
}

/// A journalled decision.
#[derive(Debug, Clone, PartialEq, Eq)]
pub enum Decision {
    /// The model decided on an exposed entry. Old records carry no coverage.
    Breach { entry: String, verdict: String, coverage: Option<EnrichmentCoverage> },
    /// Anything else that is journalled.
    Other,
}

/// One line of the journal.
#[derive(Debug, Clone, PartialEq, Eq)]
pub struct JournalEntry {
    /// Milliseconds since the Unix epoch.
    pub at_ms: u64,
    pub decision: Decision,
}

/// A workload the engine would have isolated.
#[derive(Debug, Clone, PartialEq, Eq)]
pub struct WouldActEntry {
    pub entry: String,
    /// How many episodes there were.
    pub episodes: usize,
    /// How many decisions affirmed exploitability.
    pub would_act_decisions: usize,
    /// The longest lifetime of its episodes, an open one living until now.
    pub max_lifetime_secs: u64,
    /// The last episode is still open.
    pub open: bool,
    /// Closed, and below the threshold.
    pub short_lived: bool,
    /// Some decision affirmed exploitability with nothing to weigh.
    pub coverage_gap: bool,
    /// The last verdict that affirmed exploitability.
    pub last_verdict: String,
}

/// A proven path the model cleared.
#[derive(Debug, Clone, PartialEq, Eq)]
pub struct LeftAloneEntry {
    pub entry: String,
    pub verdict: String,
}

/// What the engine would have done.
#[derive(Debug, Clone, PartialEq, Eq)]
pub struct Report {
    pub window_secs: u64,
    pub short_lived_secs: u64,
    pub decisions_in_window: usize,
    /// The journal holds no breach decision at all.
    pub journal_empty: bool,
    pub would_act: Vec<WouldActEntry>,
    pub left_alone: Vec<LeftAloneEntry>,
}

impl Report {
    /// How many workloads would have been isolated.
    pub fn would_act_count(&self) -> (r: usize)
        ensures
            r == self.would_act@.len(),
    {
        self.would_act.len()
    }

    /// How many proven paths were cleared.
    pub fn left_alone_count(&self) -> (r: usize)
        ensures
            r == self.left_alone@.len(),
    {
        self.left_alone.len()
    }

    /// How many of them were short-lived.
    pub fn short_lived_count(&self) -> (r: usize)
        ensures
            r == self.would_act@.filter(|w: WouldActEntry| w.short_lived).len(),
    {
        let ghost p = |w: WouldActEntry| w.short_lived;
        let mut n: usize = 0;
        let mut i: usize = 0;
        assert(self.would_act@.take(0).filter(p) =~= Seq::empty());
        while i < self.would_act.len()
            invariant
                i <= self.would_act.len(),
                n <= i,
                p == |w: WouldActEntry| w.short_lived,
                n == self.would_act@.take(i as int).filter(p).len(),
            decreases self.would_act.len() - i,
        {
            broadcast use vstd::seq::Seq::lemma_filter_push;

            assert(self.would_act@.take(i + 1) =~= self.would_act@.take(i as int).push(
                self.would_act@[i as int],
            ));
            if self.would_act[i].short_lived {
                n += 1;
            }
            i += 1;
        }
        assert(self.would_act@.take(self.would_act@.len() as int) =~= self.would_act@);
        n
    }

    /// How many of them had a decision with nothing to weigh.
    pub fn coverage_gap_count(&self) -> (r: usize)
        ensures
            r == self.would_act@.filter(|w: WouldActEntry| w.coverage_gap).len(),
    {
        let ghost p = |w: WouldActEntry| w.coverage_gap;
        let mut n: usize = 0;
        let mut i: usize = 0;
        assert(self.would_act@.take(0).filter(p) =~= Seq::empty());
        while i < self.would_act.len()
            invariant
                i <= self.would_act.len(),
                n <= i,
                p == |w: WouldActEntry| w.coverage_gap,
                n == self.would_act@.take(i as int).filter(p).len(),
            decreases self.would_act.len() - i,
        {
            broadcast use vstd::seq::Seq::lemma_filter_push;

            assert(self.would_act@.take(i + 1) =~= self.would_act@.take(i as int).push(
                self.would_act@[i as int],
            ));
            if self.would_act[i].coverage_gap {
                n += 1;
            }
            i += 1;
        }
        assert(self.would_act@.take(self.would_act@.len() as int) =~= self.would_act@);
        n
    }
}

// ---------------------------------------------------------------------------
// Decisions
// ---------------------------------------------------------------------------

/// A verdict affirms exploitability when its words begin with `exploitable` or `confirmed`,
/// whatever the case and leading space.
pub open spec fn affirms(verdict: Seq<char>) -> bool {
    let v = text::lower(text::trim_start(verdict));
    "exploitable"@.is_prefix_of(v) || "confirmed"@.is_prefix_of(v)
}

/// Whether a verdict affirms exploitability.
pub fn verdict_would_act(verdict: &str) -> (r: bool)
    ensures
        r == affirms(verdict@),
{
    let t = text::trimmed_start(verdict);
    let v = text::lowered(t.as_str());
    text::leads(v.as_str(), "exploitable") || text::leads(v.as_str(), "confirmed")
}

/// A verdict clears an entry when its words begin with `not exploitable` or `refuted`, whatever the
/// case and leading space. What is uncertain clears nothing.
pub open spec fn clears(verdict: Seq<char>) -> bool {
    let v = text::lower(text::trim_start(verdict));
    "not exploitable"@.is_prefix_of(v) || "refuted"@.is_prefix_of(v)
}

/// Whether a verdict clears an entry.
pub fn verdict_clears(verdict: &str) -> (r: bool)
    ensures
        r == clears(verdict@),
{
    let t = text::trimmed_start(verdict);
    let v = text::lowered(t.as_str());
    text::leads(v.as_str(), "not exploitable") || text::leads(v.as_str(), "refuted")
}

/// There was nothing to weigh. A record without coverage says nothing, and is no gap.
pub open spec fn is_gap(coverage: Option<EnrichmentCoverage>) -> bool {
    coverage matches Some(c) && !c.backed()
}

/// Whether there was nothing to weigh.
pub fn is_coverage_gap(coverage: Option<&EnrichmentCoverage>) -> (r: bool)
    ensures
        coverage matches Some(c) ==> r == is_gap(Some(*c)),
        coverage is None ==> r == is_gap(None),
{
    match coverage {
        Some(c) => !c.is_backed(),
        None => false,
    }
}

/// A breach decision.
pub struct Breach {
    pub at_ms: u64,
    pub entry: String,
    pub verdict: String,
    pub coverage: Option<EnrichmentCoverage>,
}

impl Breach {
    /// The decision affirms exploitability.
    pub open spec fn acts(self) -> bool {
        affirms(self.verdict@)
    }
}

/// The breach decision that a line holds.
pub open spec fn breach_of(e: JournalEntry) -> Option<Breach> {
    match e.decision {
        Decision::Breach { entry, verdict, coverage } => Some(
            Breach { at_ms: e.at_ms, entry, verdict, coverage },
        ),
        Decision::Other => None,
    }
}

/// The order of time.
pub open spec fn time_order() -> spec_fn(Breach, Breach) -> bool {
    |a: Breach, b: Breach| a.at_ms <= b.at_ms
}

/// The journal's breach decisions in time order, those of one moment as they were journalled.
pub open spec fn breaches(entries: Seq<JournalEntry>) -> Seq<Breach> {
    order::sorted(entries.filter_map(|e: JournalEntry| breach_of(e)), time_order())
}

/// When the window starts.
pub open spec fn window_start(now_ms: u64, window_secs: u64) -> int {
    if window_secs * 1000 > now_ms {
        0
    } else {
        now_ms - window_secs * 1000
    }
}

/// The breach decisions that fall in the window.
pub open spec fn in_window(entries: Seq<JournalEntry>, now_ms: u64, window_secs: u64) -> Seq<Breach> {
    breaches(entries).filter(|b: Breach| b.at_ms >= window_start(now_ms, window_secs))
}

/// The entries that were decided on.
pub open spec fn entries_of(bs: Seq<Breach>) -> Set<Seq<char>> {
    bs.map_values(|b: Breach| b.entry@).to_set()
}

/// The decision is on this entry.
pub open spec fn is_on(b: Breach, entry: Seq<char>) -> bool {
    b.entry@ == entry
}

/// The decisions on one entry.
pub open spec fn decisions_on(bs: Seq<Breach>, entry: Seq<char>) -> Seq<Breach> {
    bs.filter(|b: Breach| is_on(b, entry))
}

// ---------------------------------------------------------------------------
// Episodes
// ---------------------------------------------------------------------------

/// The last decision starts an episode.
pub open spec fn starts(ds: Seq<Breach>) -> bool {
    ds.last().acts() && (ds.len() == 1 || !ds[ds.len() - 2].acts())
}

/// The last decision ends an episode.
pub open spec fn ends(ds: Seq<Breach>) -> bool {
    !ds.last().acts() && ds.len() >= 2 && ds[ds.len() - 2].acts()
}

/// How many episodes there are.
pub open spec fn episodes(ds: Seq<Breach>) -> int
    decreases ds.len(),
{
    if ds.len() == 0 {
        0
    } else {
        episodes(ds.drop_last()) + (if starts(ds) {
            1int
        } else {
            0int
        })
    }
}

/// How many decisions affirm exploitability.
pub open spec fn acting(ds: Seq<Breach>) -> int {
    ds.filter(|b: Breach| b.acts()).len() as int
}

/// Some decision affirms exploitability with nothing to weigh.
pub open spec fn has_gap(ds: Seq<Breach>) -> bool {
    exists|i: int| 0 <= i < ds.len() && (#[trigger] ds[i]).acts() && is_gap(ds[i].coverage)
}

/// When the last episode started.
pub open spec fn started(ds: Seq<Breach>) -> int
    decreases ds.len(),
{
    if ds.len() == 0 {
        0
    } else if starts(ds) {
        ds.last().at_ms as int
    } else {
        started(ds.drop_last())
    }
}

/// The last episode is still open.
pub open spec fn is_open(ds: Seq<Breach>) -> bool {
    ds.len() > 0 && ds.last().acts()
}

/// The larger of two numbers.
pub open spec fn larger(a: int, b: int) -> int {
    if a >= b {
        a
    } else {
        b
    }
}

/// The time from one moment to a later one, none where it is not later.
pub open spec fn elapsed(from: int, to: int) -> int {
    larger(to - from, 0)
}

/// The longest lifetime of the closed episodes.
pub open spec fn longest_closed(ds: Seq<Breach>) -> int
    decreases ds.len(),
{
    if ds.len() == 0 {
        0
    } else {
        let rest = longest_closed(ds.drop_last());
        if ends(ds) {
            larger(rest, elapsed(started(ds.drop_last()), ds.last().at_ms as int))
        } else {
            rest
        }
    }
}

/// The longest lifetime of the episodes, an open one living until now.
pub open spec fn lifetime(ds: Seq<Breach>, now_ms: u64) -> int {
    if is_open(ds) {
        larger(longest_closed(ds), elapsed(started(ds), now_ms as int))
    } else {
        longest_closed(ds)
    }
}

/// The last decision that affirms exploitability.
pub open spec fn last_acting(ds: Seq<Breach>) -> Option<Breach>
    decreases ds.len(),
{
    if ds.len() == 0 {
        None
    } else if ds.last().acts() {
        Some(ds.last())
    } else {
        last_acting(ds.drop_last())
    }
}

/// `w` says what would have been done about an entry with these decisions.
pub open spec fn shows_act(
    entry: Seq<char>,
    ds: Seq<Breach>,
    now_ms: u64,
    short_lived_secs: u64,
    w: WouldActEntry,
) -> bool {
    &&& w.entry@ == entry
    &&& w.episodes == episodes(ds)
    &&& w.would_act_decisions == acting(ds)
    &&& w.max_lifetime_secs == lifetime(ds, now_ms) / 1000
    &&& w.open == is_open(ds)
    &&& w.short_lived == (!is_open(ds) && lifetime(ds, now_ms) < short_lived_secs * 1000)
    &&& w.coverage_gap == has_gap(ds)
    &&& w.last_verdict@ == (match last_acting(ds) {
        Some(b) => b.verdict@,
        None => Seq::empty(),
    })
}

/// `l` says that an entry with these decisions was left alone, in the words of the last.
pub open spec fn shows_left(entry: Seq<char>, ds: Seq<Breach>, l: LeftAloneEntry) -> bool {
    &&& l.entry@ == entry
    &&& ds.len() > 0
    &&& l.verdict@ == ds.last().verdict@
}

/// The order of what would have been done: what is open first, then the longer lifetime, then by
/// entry.
pub open spec fn act_le(bs: Seq<Breach>, now_ms: u64, a: Seq<char>, b: Seq<char>) -> bool {
    let (da, db) = (decisions_on(bs, a), decisions_on(bs, b));
    let (la, lb) = (lifetime(da, now_ms) / 1000, lifetime(db, now_ms) / 1000);
    if is_open(da) != is_open(db) {
        is_open(da)
    } else if la != lb {
        la > lb
    } else {
        text::text_le(a, b)
    }
}

/// The entries that would have been isolated, in order.
pub open spec fn acted_on(bs: Seq<Breach>, now_ms: u64) -> Seq<Seq<char>> {
    order::sorted(
        listed(entries_of(bs)).filter(|e: Seq<char>| episodes(decisions_on(bs, e)) > 0),
        |a: Seq<char>, b: Seq<char>| act_le(bs, now_ms, a, b),
    )
}

/// Nothing would have been done about an entry with these decisions, and the last of them clears it.
pub open spec fn is_cleared(ds: Seq<Breach>) -> bool {
    episodes(ds) <= 0 && ds.len() > 0 && clears(ds.last().verdict@)
}

/// The entries that were cleared and left alone, in ascending order.
pub open spec fn left_alone(bs: Seq<Breach>) -> Seq<Seq<char>> {
    listed(entries_of(bs)).filter(|e: Seq<char>| is_cleared(decisions_on(bs, e)))
}

/// `r` reports on the journal.
pub open spec fn reports(
    entries: Seq<JournalEntry>,
    now_ms: u64,
    window_secs: u64,
    short_lived_secs: u64,
    r: Report,
) -> bool {
    let bs = in_window(entries, now_ms, window_secs);
    &&& r.window_secs == window_secs
    &&& r.short_lived_secs == short_lived_secs
    &&& r.decisions_in_window == bs.len()
    &&& r.journal_empty == (breaches(entries).len() == 0)
    &&& r.would_act@.len() == acted_on(bs, now_ms).len()
    &&& forall|i: int|
        0 <= i < r.would_act@.len() ==> shows_act(
            acted_on(bs, now_ms)[i],
            decisions_on(bs, acted_on(bs, now_ms)[i]),
            now_ms,
            short_lived_secs,
            #[trigger] r.would_act@[i],
        )
    &&& r.left_alone@.len() == left_alone(bs).len()
    &&& forall|i: int|
        0 <= i < r.left_alone@.len() ==> shows_left(
            left_alone(bs)[i],
            decisions_on(bs, left_alone(bs)[i]),
            #[trigger] r.left_alone@[i],
        )
}

/// The decisions on one entry.
fn decisions(bs: &Vec<Breach>, entry: &str) -> (r: Vec<usize>)
    ensures
        r@.len() == decisions_on(bs@, entry@).len(),
        forall|k: int|
            0 <= k < r@.len() ==> (#[trigger] r@[k]) < bs@.len() && bs@[r@[k] as int] == decisions_on(
                bs@,
                entry@,
            )[k],
{
    let ghost p = |b: Breach| is_on(b, entry@);
    let mut r: Vec<usize> = Vec::new();
    let mut i: usize = 0;
    assert(bs@.take(0).filter(p) =~= Seq::empty());
    while i < bs.len()
        invariant
            i <= bs.len(),
            p == |b: Breach| is_on(b, entry@),
            r@.len() == bs@.take(i as int).filter(p).len(),
            forall|k: int|
                0 <= k < r@.len() ==> (#[trigger] r@[k]) < bs@.len() && bs@[r@[k] as int]
                    == bs@.take(i as int).filter(p)[k],
        decreases bs.len() - i,
    {
        broadcast use vstd::seq::Seq::lemma_filter_push;

        assert(bs@.take(i + 1) =~= bs@.take(i as int).push(bs@[i as int]));
        if text::same(bs[i].entry.as_str(), entry) {
            r.push(i);
        }
        i += 1;
    }
    assert(bs@.take(bs@.len() as int) =~= bs@);
    r
}

/// What became of an entry.
enum Outcome {
    Acted(WouldActEntry),
    Left(LeftAloneEntry),
    /// The model neither affirmed nor cleared it.
    Undecided,
}

/// What became of an entry with these decisions.
fn outcome(bs: &Vec<Breach>, entry: &str, now_ms: u64, short_lived_secs: u64) -> (r: Outcome)
    requires
        decisions_on(bs@, entry@).len() > 0,
    ensures
        match r {
            Outcome::Acted(w) => episodes(decisions_on(bs@, entry@)) > 0 && shows_act(
                entry@,
                decisions_on(bs@, entry@),
                now_ms,
                short_lived_secs,
                w,
            ),
            Outcome::Left(l) => is_cleared(decisions_on(bs@, entry@)) && shows_left(
                entry@,
                decisions_on(bs@, entry@),
                l,
            ),
            Outcome::Undecided => episodes(decisions_on(bs@, entry@)) <= 0 && !is_cleared(
                decisions_on(bs@, entry@),
            ),
        },
{
    let ids = decisions(bs, entry);
    let ghost ds = decisions_on(bs@, entry@);
    let ghost p = |b: Breach| b.acts();
    let mut count: usize = 0;
    let mut acts: usize = 0;
    let mut longest: u64 = 0;
    let mut start: u64 = 0;
    let mut gap = false;
    let mut was_acting = false;
    let mut last = String::new();
    let mut k: usize = 0;
    assert(ds.take(0).filter(p) =~= Seq::empty());
    while k < ids.len()
        invariant
            k <= ids.len(),
            ids@.len() == ds.len(),
            p == |b: Breach| b.acts(),
            forall|j: int|
                0 <= j < ids@.len() ==> (#[trigger] ids@[j]) < bs@.len() && bs@[ids@[j] as int]
                    == ds[j],
            count <= k,
            acts <= k,
            count == episodes(ds.take(k as int)),
            acts == ds.take(k as int).filter(p).len(),
            longest == longest_closed(ds.take(k as int)),
            start == started(ds.take(k as int)),
            gap == has_gap(ds.take(k as int)),
            was_acting == is_open(ds.take(k as int)),
            last@ == (match last_acting(ds.take(k as int)) {
                Some(b) => b.verdict@,
                None => Seq::empty(),
            }),
        decreases ids.len() - k,
    {
        broadcast use vstd::seq::Seq::lemma_filter_push;

        let ghost now = ds.take(k + 1);
        let ghost was = ds.take(k as int);
        proof {
            assert(now =~= was.push(ds[k as int]));
            assert(now.drop_last() =~= was);
            assert(now.last() == ds[k as int]);
            if k > 0 {
                assert(was.last() == ds[k - 1]);
                assert(now[now.len() - 2] == ds[k - 1]);
            }
        }
        let b = &bs[ids[k]];
        let acting_now = verdict_would_act(b.verdict.as_str());
        let no_backing = is_coverage_gap(b.coverage.as_ref());
        proof {
            if acting_now && no_backing {
                assert(now[k as int].acts() && is_gap(now[k as int].coverage));
            }
            if has_gap(was) {
                let j = choose|j: int|
                    0 <= j < was.len() && (#[trigger] was[j]).acts() && is_gap(was[j].coverage);
                assert(now[j].acts() && is_gap(now[j].coverage));
            }
            if has_gap(now) && !(acting_now && no_backing) {
                let j = choose|j: int|
                    0 <= j < now.len() && (#[trigger] now[j]).acts() && is_gap(now[j].coverage);
                assert(was[j].acts() && is_gap(was[j].coverage));
            }
        }
        if acting_now {
            acts += 1;
            if !was_acting {
                count += 1;
                start = b.at_ms;
            }
            if no_backing {
                gap = true;
            }
            last = b.verdict.clone();
        } else if was_acting {
            let life: u64 = if b.at_ms > start {
                b.at_ms - start
            } else {
                0
            };
            if life > longest {
                longest = life;
            }
        }
        was_acting = acting_now;
        k += 1;
    }
    assert(ds.take(ds.len() as int) =~= ds);
    if count > 0 {
        let life: u64 = if was_acting && now_ms > start && now_ms - start > longest {
            now_ms - start
        } else {
            longest
        };
        Outcome::Acted(
            WouldActEntry {
                entry: entry.to_string(),
                episodes: count,
                would_act_decisions: acts,
                max_lifetime_secs: life / 1000,
                open: was_acting,
                short_lived: !was_acting && (life as u128) < (short_lived_secs as u128) * 1000,
                coverage_gap: gap,
                last_verdict: last,
            },
        )
    } else {
        let b = &bs[ids[ids.len() - 1]];
        if verdict_clears(b.verdict.as_str()) {
            Outcome::Left(LeftAloneEntry { entry: entry.to_string(), verdict: b.verdict.clone() })
        } else {
            Outcome::Undecided
        }
    }
}

/// The journal's breach decisions in time order.
fn collect_breaches(entries: &[JournalEntry]) -> (r: Vec<Breach>)
    ensures
        r@ == breaches(entries@),
{
    let ghost f = |e: JournalEntry| breach_of(e);
    let mut v: Vec<Breach> = Vec::new();
    let mut i: usize = 0;
    assert(v@ =~= entries@.take(0).filter_map(f));
    while i < entries.len()
        invariant
            i <= entries.len(),
            f == |e: JournalEntry| breach_of(e),
            v@ == entries@.take(i as int).filter_map(f),
        decreases entries.len() - i,
    {
        let ghost so_far = v@;
        proof {
            entries@.lemma_filter_map_take_succ(f, i as int);
        }
        match &entries[i].decision {
            Decision::Breach { entry, verdict, coverage } => {
                let b = Breach {
                    at_ms: entries[i].at_ms,
                    entry: entry.clone(),
                    verdict: verdict.clone(),
                    coverage: *coverage,
                };
                let ghost added = b;
                v.push(b);
                assert(entries@.take(i + 1).filter_map(f) =~= so_far.push(added));
            },
            Decision::Other => {
                assert(entries@.take(i + 1).filter_map(f) =~= so_far);
            },
        }
        i += 1;
    }
    assert(entries@.take(entries@.len() as int) =~= entries@);
    let at_most = |a: &Breach, b: &Breach| -> (o: bool)
        ensures
            o == (a.at_ms <= b.at_ms),
        { a.at_ms <= b.at_ms };
    order::sort_stable(v, at_most, Ghost(time_order()))
}

/// The breach decisions that fall in the window.
fn keep_recent(all: Vec<Breach>, start_ms: u64) -> (r: Vec<Breach>)
    ensures
        r@ == all@.filter(|b: Breach| b.at_ms >= start_ms),
{
    let ghost p = |b: Breach| b.at_ms >= start_ms;
    let ghost given = all@;
    let mut rest = all;
    let n = rest.len();
    let mut r: Vec<Breach> = Vec::new();
    let mut i: usize = 0;
    assert(given.take(0).filter(p) =~= Seq::empty());
    while i < n
        invariant
            i <= n,
            n == given.len(),
            rest@ == given.skip(i as int),
            p == |b: Breach| b.at_ms >= start_ms,
            r@ == given.take(i as int).filter(p),
        decreases n - i,
    {
        broadcast use vstd::seq::Seq::lemma_filter_push;

        let b = rest.remove(0);
        assert(b == given[i as int]);
        assert(rest@ =~= given.skip(i + 1));
        assert(given.take(i + 1) =~= given.take(i as int).push(b));
        if b.at_ms >= start_ms {
            r.push(b);
        }
        i += 1;
    }
    assert(given.take(n as int) =~= given);
    r
}

/// The entries that were decided on.
fn decided_entries(bs: &Vec<Breach>) -> (r: TextSet)
    ensures
        r.wf(),
        r@ == entries_of(bs@),
{
    let ghost f = |b: Breach| b.entry@;
    let mut r = TextSet::new();
    let mut i: usize = 0;
    assert(r@ =~= bs@.take(0).map_values(f).to_set());
    while i < bs.len()
        invariant
            i <= bs.len(),
            f == |b: Breach| b.entry@,
            r.wf(),
            r@ == bs@.take(i as int).map_values(f).to_set(),
        decreases bs.len() - i,
    {
        let ghost was = bs@.take(i as int).map_values(f);
        r.insert(bs[i].entry.clone());
        proof {
            assert(bs@.take(i + 1).map_values(f) =~= was.push(bs@[i as int].entry@));
            was.lemma_push_to_set_commute(bs@[i as int].entry@);
        }
        i += 1;
    }
    assert(bs@.take(bs@.len() as int) =~= bs@);
    r
}

/// An entry that was decided on has decisions.
pub proof fn lemma_decided(bs: Seq<Breach>, entry: Seq<char>)
    requires
        entries_of(bs).contains(entry),
    ensures
        decisions_on(bs, entry).len() > 0,
{
    let f = |b: Breach| b.entry@;
    let p = |b: Breach| is_on(b, entry);
    let v = bs.map_values(f);
    assert(v.contains(entry));
    let i = v.index_of(entry);
    assert(bs[i].entry@ == entry);
    bs.lemma_filter_contains(p, i);
    assert(decisions_on(bs, entry).contains(bs[i]));
}

fn act_at_most(a: &WouldActEntry, b: &WouldActEntry) -> (r: bool)
    ensures
        r == (if a.open != b.open {
            a.open
        } else if a.max_lifetime_secs != b.max_lifetime_secs {
            a.max_lifetime_secs > b.max_lifetime_secs
        } else {
            text::text_le(a.entry@, b.entry@)
        }),
{
    if a.open != b.open {
        a.open
    } else if a.max_lifetime_secs != b.max_lifetime_secs {
        a.max_lifetime_secs > b.max_lifetime_secs
    } else {
        text::at_most(a.entry.as_str(), b.entry.as_str())
    }
}

/// Aggregates the journal's breach decisions over the window that ends now. Times are in
/// milliseconds since the Unix epoch, the window and the threshold in seconds; a window longer than
/// all of time holds everything.
pub fn aggregate_report(
    entries: &[JournalEntry],
    now_ms: u64,
    window_secs: u64,
    short_lived_secs: u64,
) -> (r: Report)
    ensures
        reports(entries@, now_ms, window_secs, short_lived_secs, r),
{
    let window_ms: u128 = (window_secs as u128) * 1000;
    let start_ms: u64 = if window_ms > now_ms as u128 {
        0
    } else {
        now_ms - window_ms as u64
    };
    let all = collect_breaches(entries);
    let journal_empty = all.len() == 0;
    let bs = keep_recent(all, start_ms);
    let ghost model = in_window(entries@, now_ms, window_secs);
    proof {
        let p = |b: Breach| b.at_ms >= start_ms;
        let q = |b: Breach| b.at_ms >= window_start(now_ms, window_secs);
        assert(p =~= q);
        assert(bs@ == model);
    }
    let keys = decided_entries(&bs);
    let ghost names = text::texts(keys.items@);
    proof {
        lemma_listed(names);
    }
    let ghost yes = |e: Seq<char>| episodes(decisions_on(model, e)) > 0;
    let ghost no = |e: Seq<char>| is_cleared(decisions_on(model, e));
    let mut would_act: Vec<WouldActEntry> = Vec::new();
    let mut left: Vec<LeftAloneEntry> = Vec::new();
    let mut i: usize = 0;
    assert(names.take(0).filter(yes) =~= Seq::empty() && names.take(0).filter(no) =~= Seq::empty());
    while i < keys.items.len()
        invariant
            i <= keys.items.len(),
            bs@ == model,
            names == text::texts(keys.items@),
            names.to_set() == entries_of(model),
            yes == |e: Seq<char>| episodes(decisions_on(model, e)) > 0,
            no == |e: Seq<char>| is_cleared(decisions_on(model, e)),
            would_act@.len() == names.take(i as int).filter(yes).len(),
            forall|k: int|
                0 <= k < would_act@.len() ==> shows_act(
                    names.take(i as int).filter(yes)[k],
                    decisions_on(model, names.take(i as int).filter(yes)[k]),
                    now_ms,
                    short_lived_secs,
                    #[trigger] would_act@[k],
                ),
            left@.len() == names.take(i as int).filter(no).len(),
            forall|k: int|
                0 <= k < left@.len() ==> shows_left(
                    names.take(i as int).filter(no)[k],
                    decisions_on(model, names.take(i as int).filter(no)[k]),
                    #[trigger] left@[k],
                ),
        decreases keys.items.len() - i,
    {
        broadcast use vstd::seq::Seq::lemma_filter_push;

        let ghost name = names[i as int];
        proof {
            assert(names.contains(name));
            assert(names.to_set().contains(name));
            lemma_decided(model, name);
            assert(names.take(i + 1) =~= names.take(i as int).push(name));
        }
        match outcome(&bs, keys.items[i].as_str(), now_ms, short_lived_secs) {
            Outcome::Acted(w) => {
                would_act.push(w);
            },
            Outcome::Left(l) => {
                left.push(l);
            },
            Outcome::Undecided => {},
        }
        i += 1;
    }
    assert(names.take(names.len() as int) =~= names);
    assert(names.len() == keys.items@.len());
    let ghost le = |a: WouldActEntry, b: WouldActEntry|
        if a.open != b.open {
            a.open
        } else if a.max_lifetime_secs != b.max_lifetime_secs {
            a.max_lifetime_secs > b.max_lifetime_secs
        } else {
            text::text_le(a.entry@, b.entry@)
        };
    let ghost by_key = |a: Seq<char>, b: Seq<char>| act_le(model, now_ms, a, b);
    proof {
        order::lemma_sorted_related(
            names.filter(yes),
            would_act@,
            |e: Seq<char>, w: WouldActEntry|
                shows_act(e, decisions_on(model, e), now_ms, short_lived_secs, w),
            by_key,
            le,
        );
    }
    let at_most = |a: &WouldActEntry, b: &WouldActEntry| -> (o: bool)
        ensures
            o == (if a.open != b.open {
                a.open
            } else if a.max_lifetime_secs != b.max_lifetime_secs {
                a.max_lifetime_secs > b.max_lifetime_secs
            } else {
                text::text_le(a.entry@, b.entry@)
            }),
        { act_at_most(a, b) };
    let sorted = order::sort_stable(would_act, at_most, Ghost(le));
    Report {
        window_secs,
        short_lived_secs,
        decisions_in_window: bs.len(),
        journal_empty,
        would_act: sorted,
        left_alone: left,
    }
}

/// A span of time in the largest unit that it fills.
pub fn human_span(secs: u64) -> (r: String)
    ensures
        r@ == age_text(secs as nat),
{
    human_age(secs)
}

} // verus!
