//! What holds of the rows of the Findings view as a whole.

use crate::order;
use crate::props::findings::{FindingProps, LiveTag, Posture};
use crate::state::{Finding, Judgement};
use crate::text;
use crate::view_model::folding::{
    fanned, fanout_at, findings_shown, is_better, is_first, is_folded, is_replica,
    is_representative, keeps_row, kept, pods_of, replicas_folded, row_le, rows_of, rows_shown,
    urgency, workload_at, FANOUT_THRESHOLD,
};
use vstd::prelude::*;

verus! {

// ---------------------------------------------------------------------------
// Order
// ---------------------------------------------------------------------------

proof fn lemma_row_le_is_order()
    ensures
        order::is_order(|a: FindingProps, b: FindingProps| row_le(a, b)),
{
    let le = |a: FindingProps, b: FindingProps| row_le(a, b);
    assert forall|a: FindingProps, b: FindingProps| #[trigger] le(a, b) || le(b, a) by {
        text::lemma_text_le_total(a.entry@, b.entry@);
        text::lemma_text_le_total(a.objective@, b.objective@);
    }
    assert forall|a: FindingProps, b: FindingProps, c: FindingProps|
        #[trigger] le(a, b) && #[trigger] le(b, c) implies le(a, c) by {
        if urgency(a) == urgency(b) && urgency(b) == urgency(c) {
            if a.entry@ != b.entry@ && b.entry@ != c.entry@ {
                text::lemma_text_le_trans(a.entry@, b.entry@, c.entry@);
                text::lemma_text_le_total(a.entry@, b.entry@);
            } else if a.entry@ == b.entry@ && b.entry@ == c.entry@ {
                text::lemma_text_le_trans(a.objective@, b.objective@, c.objective@);
            }
        }
    }
}

/// The rows show by urgency, then by entry, then by objective: a row never shows below a less urgent
/// one, and rows of one urgency show in ascending order.
pub proof fn urgent_rows_come_first(
    findings: Seq<Finding>,
    judgements: Seq<Judgement>,
    blind: Set<Seq<char>>,
    out: Seq<FindingProps>,
    i: int,
    j: int,
)
    requires
        findings_shown(findings, judgements, blind, out),
        0 <= i <= j < out.len(),
    ensures
        urgency(out[i]) <= urgency(out[j]),
        urgency(out[i]) == urgency(out[j]) ==> text::text_le(out[i].entry@, out[j].entry@),
        urgency(out[i]) == urgency(out[j]) && out[i].entry@ == out[j].entry@ ==> text::text_le(
            out[i].objective@,
            out[j].objective@,
        ),
{
    let le = |a: FindingProps, b: FindingProps| row_le(a, b);
    let (rows, folded) = choose|rows: Seq<FindingProps>, folded: Seq<FindingProps>|
        {
            &&& #[trigger] rows_shown(findings, judgements, blind, rows)
            &&& #[trigger] replicas_folded(rows, folded)
            &&& out == order::sorted(
                fanned(folded, folded.len() as int),
                |a: FindingProps, b: FindingProps| row_le(a, b),
            )
        };
    lemma_row_le_is_order();
    order::sorting_orders(fanned(folded, folded.len() as int), le);
    text::lemma_text_le_total(out[i].entry@, out[j].entry@);
    text::lemma_text_le_total(out[i].objective@, out[j].objective@);
    if i < j {
        assert(le(out[i], out[j]));
    }
}

/// Urgency ranks a live breach before a promoted one, both before an escalation, that before an
/// uncertain row, that before an awaiting one, and a cleared row last.
pub proof fn urgency_is_not_severity(f: FindingProps)
    ensures
        urgency(f) == 0 <==> f.posture == Posture::Breach && f.live_tag == LiveTag::Live,
        urgency(f) <= 1 <==> f.posture == Posture::Breach,
        urgency(f) == 5 <==> f.posture == Posture::Cleared && !(f.delta is Escalated),
{
}

// ---------------------------------------------------------------------------
// Replicas
// ---------------------------------------------------------------------------

proof fn lemma_better_total(a: FindingProps, b: FindingProps, c: FindingProps)
    ensures
        is_better(a, b) ==> !is_better(b, a),
        is_better(a, b) && !is_better(c, b) ==> is_better(a, c),
        is_better(a, b) && is_better(b, c) ==> is_better(a, c),
{
    text::lemma_text_le_total(a.entry@, b.entry@);
    text::lemma_text_le_total(b.entry@, c.entry@);
    text::lemma_text_le_total(a.entry@, c.entry@);
    if text::text_le(a.entry@, b.entry@) && text::text_le(b.entry@, c.entry@) {
        text::lemma_text_le_trans(a.entry@, b.entry@, c.entry@);
    }
}

/// Of the first `n` rows of a workload, the first of the best.
spec fn is_best_below(rows: Seq<FindingProps>, w: (Seq<char>, Seq<char>), n: int, i: int) -> bool {
    &&& 0 <= i < n
    &&& workload_at(rows, i) == Some(w)
    &&& forall|j: int|
        0 <= j < n && #[trigger] workload_at(rows, j) == Some(w) ==> {
            &&& j < i ==> is_better(rows[i], rows[j])
            &&& j > i ==> !is_better(rows[j], rows[i])
        }
}

proof fn lemma_best_exists(rows: Seq<FindingProps>, w: (Seq<char>, Seq<char>), n: int) -> (i: int)
    requires
        0 <= n <= rows.len(),
        pods_of(rows, w, n) > 0,
    ensures
        is_best_below(rows, w, n, i),
    decreases n,
{
    if n <= 0 {
        0
    } else if pods_of(rows, w, n - 1) > 0 {
        let b = lemma_best_exists(rows, w, n - 1);
        if workload_at(rows, n - 1) == Some(w) && is_better(rows[n - 1], rows[b]) {
            assert forall|j: int| 0 <= j < n && #[trigger] workload_at(rows, j) == Some(w) implies {
                &&& j < n - 1 ==> is_better(rows[n - 1], rows[j])
                &&& j > n - 1 ==> !is_better(rows[j], rows[n - 1])
            } by {
                if j < n - 1 {
                    lemma_better_total(rows[n - 1], rows[b], rows[j]);
                }
            }
            n - 1
        } else {
            b
        }
    } else {
        assert(workload_at(rows, n - 1) == Some(w));
        lemma_no_pods(rows, w, n - 1);
        n - 1
    }
}

proof fn lemma_rows_of_some(rows: Seq<FindingProps>, entry: Seq<char>, n: int)
    requires
        0 <= n <= rows.len(),
    ensures
        0 <= rows_of(rows, entry, n),
        rows_of(rows, entry, n) > 0 <==> exists|k: int|
            0 <= k < n && (#[trigger] rows[k]).entry@ == entry,
    decreases n,
{
    if n > 0 {
        lemma_rows_of_some(rows, entry, n - 1);
        if rows[n - 1].entry@ == entry {
            assert(rows[n - 1].entry@ == entry);
        } else if exists|k: int| 0 <= k < n && (#[trigger] rows[k]).entry@ == entry {
            let k = choose|k: int| 0 <= k < n && (#[trigger] rows[k]).entry@ == entry;
            assert(0 <= k < n - 1);
        }
    }
}

proof fn lemma_no_pods(rows: Seq<FindingProps>, w: (Seq<char>, Seq<char>), n: int)
    requires
        0 <= n <= rows.len(),
        pods_of(rows, w, n) <= 0,
    ensures
        forall|j: int| 0 <= j < n ==> #[trigger] workload_at(rows, j) != Some(w),
        pods_of(rows, w, n) == 0,
    decreases n,
{
    lemma_pods_nonneg(rows, w, n);
    if n > 0 {
        lemma_pods_nonneg(rows, w, n - 1);
        lemma_no_pods(rows, w, n - 1);
        if workload_at(rows, n - 1) == Some(w) {
            lemma_rows_of_some(rows, rows[n - 1].entry@, n - 1);
            let k = choose|k: int| 0 <= k < n - 1 && (#[trigger] rows[k]).entry@ == rows[n - 1].entry@;
            assert(workload_at(rows, k) == Some(w));
        }
    }
}

proof fn lemma_lone_pod(rows: Seq<FindingProps>, w: (Seq<char>, Seq<char>), entry: Seq<char>, n: int)
    requires
        0 <= n <= rows.len(),
        forall|j: int|
            0 <= j < rows.len() && #[trigger] workload_at(rows, j) == Some(w) ==> rows[j].entry@
                == entry,
    ensures
        pods_of(rows, w, n) <= 1,
        pods_of(rows, w, n) > 0 ==> rows_of(rows, entry, n) > 0,
    decreases n,
{
    lemma_rows_of_some(rows, entry, n);
    if n > 0 {
        lemma_lone_pod(rows, w, entry, n - 1);
        lemma_rows_of_some(rows, entry, n - 1);
        lemma_pods_nonneg(rows, w, n - 1);
    }
}

/// A lone pod is no set of replicas, however many objectives it reaches: where all rows of a
/// workload are about one pod, each keeps its own row.
pub proof fn lone_pod_is_no_set(rows: Seq<FindingProps>, i: int)
    requires
        0 <= i < rows.len(),
        forall|j: int|
            0 <= j < rows.len() && #[trigger] workload_at(rows, j) == workload_at(rows, i) ==> rows[j].entry@
                == rows[i].entry@,
    ensures
        !is_replica(rows, i),
        keeps_row(rows, i),
{
    match workload_at(rows, i) {
        Some(w) => lemma_lone_pod(rows, w, rows[i].entry@, rows.len() as int),
        None => {},
    }
}

/// Two pods of one workload are replicas of it.
pub proof fn two_pods_are_replicas(rows: Seq<FindingProps>, i: int, j: int)
    requires
        0 <= i < j < rows.len(),
        workload_at(rows, i) is Some,
        workload_at(rows, i) == workload_at(rows, j),
        rows[i].entry@ != rows[j].entry@,
    ensures
        is_replica(rows, i),
        is_replica(rows, j),
{
    let w = workload_at(rows, i).unwrap();
    let n = rows.len() as int;
    if pods_of(rows, w, n) <= 1 {
        lemma_one_pod(rows, w, n, i, j);
    }
}

proof fn lemma_one_pod(rows: Seq<FindingProps>, w: (Seq<char>, Seq<char>), n: int, i: int, j: int)
    requires
        0 <= i < n <= rows.len(),
        0 <= j < n,
        pods_of(rows, w, n) <= 1,
        workload_at(rows, i) == Some(w),
        workload_at(rows, j) == Some(w),
    ensures
        rows[i].entry@ == rows[j].entry@,
    decreases n,
{
    let e = rows[n - 1].entry@;
    lemma_pods_nonneg(rows, w, n - 1);
    if workload_at(rows, n - 1) == Some(w) {
        lemma_rows_of_some(rows, e, n - 1);
        if is_first(rows, n - 1) {
            lemma_no_pods(rows, w, n - 1);
            assert(i == n - 1);
            assert(j == n - 1);
        } else {
            let k = choose|k: int| 0 <= k < n - 1 && (#[trigger] rows[k]).entry@ == e;
            assert(workload_at(rows, k) == Some(w));
            let a = if i == n - 1 {
                k
            } else {
                i
            };
            let b = if j == n - 1 {
                k
            } else {
                j
            };
            lemma_one_pod(rows, w, n - 1, a, b);
        }
    } else {
        lemma_one_pod(rows, w, n - 1, i, j);
    }
}

proof fn lemma_pods_nonneg(rows: Seq<FindingProps>, w: (Seq<char>, Seq<char>), n: int)
    ensures
        pods_of(rows, w, n) >= 0,
    decreases n,
{
    if n > 0 {
        lemma_pods_nonneg(rows, w, n - 1);
    }
}

/// Several replicas of one workload keep exactly one row, which is one of theirs: unrelated pods are
/// never merged.
pub proof fn replicas_keep_one_row(rows: Seq<FindingProps>, i: int) -> (rep: int)
    requires
        0 <= i < rows.len(),
        is_replica(rows, i),
    ensures
        0 <= rep < rows.len(),
        workload_at(rows, rep) == workload_at(rows, i),
        keeps_row(rows, rep),
        forall|j: int|
            0 <= j < rows.len() && #[trigger] workload_at(rows, j) == workload_at(rows, i) && keeps_row(
                rows,
                j,
            ) ==> j == rep,
{
    let w = workload_at(rows, i).unwrap();
    let rep = lemma_best_exists(rows, w, rows.len() as int);
    assert(is_representative(rows, rep));
    assert forall|j: int|
        0 <= j < rows.len() && #[trigger] workload_at(rows, j) == workload_at(rows, i) && keeps_row(
            rows,
            j,
        ) implies j == rep by {
        assert(is_replica(rows, j));
        assert(is_representative(rows, j));
        assert(workload_at(rows, rep) == workload_at(rows, j));
    }
    rep
}

/// The row that stands for replicas is as urgent as any of them: folding never hides a breach.
pub proof fn representative_is_worst(rows: Seq<FindingProps>, rep: int, j: int)
    requires
        0 <= rep < rows.len(),
        0 <= j < rows.len(),
        is_representative(rows, rep),
        workload_at(rows, j) == workload_at(rows, rep),
    ensures
        urgency(rows[rep]) <= urgency(rows[j]),
        rows[j].posture == Posture::Breach ==> rows[rep].posture == Posture::Breach,
{
    if j < rep {
        assert(is_better(rows[rep], rows[j]));
    } else if j > rep {
        assert(!is_better(rows[j], rows[rep]));
    }
}

/// A row that is no replica, or the only one of its workload, keeps its own row as it is.
pub proof fn others_stay_as_they_are(rows: Seq<FindingProps>, i: int, o: FindingProps)
    requires
        0 <= i < rows.len(),
        !is_replica(rows, i),
        is_folded(rows, i, o),
    ensures
        keeps_row(rows, i),
        o == rows[i],
{
}

// ---------------------------------------------------------------------------
// Fan-out
// ---------------------------------------------------------------------------

proof fn lemma_rows_of_push(rows: Seq<FindingProps>, r: FindingProps, entry: Seq<char>, n: int)
    requires
        0 <= n <= rows.len(),
    ensures
        rows_of(rows.push(r), entry, n) == rows_of(rows, entry, n),
    decreases n,
{
    if n > 0 {
        lemma_rows_of_push(rows, r, entry, n - 1);
    }
}

proof fn lemma_rows_of_bounds(rows: Seq<FindingProps>, entry: Seq<char>, n: int)
    requires
        0 <= n <= rows.len(),
    ensures
        0 <= rows_of(rows, entry, n) <= n,
    decreases n,
{
    if n > 0 {
        lemma_rows_of_bounds(rows, entry, n - 1);
    }
}

proof fn lemma_fanned(rows: Seq<FindingProps>, entry: Seq<char>, n: int)
    requires
        0 <= n <= rows.len(),
    ensures
        ({
            let total = rows_of(rows, entry, rows.len() as int);
            let seen = rows_of(rows, entry, n);
            let out = fanned(rows, n);
            rows_of(out, entry, out.len() as int) == (if total <= FANOUT_THRESHOLD {
                seen
            } else if seen > 0 {
                1
            } else {
                0
            })
        }),
    decreases n,
{
    if n > 0 {
        lemma_fanned(rows, entry, n - 1);
        lemma_rows_of_bounds(rows, entry, n - 1);
        let rest = fanned(rows, n - 1);
        let row = rows[n - 1];
        let out = fanned(rows, n);
        if fanout_at(rows, n - 1) <= FANOUT_THRESHOLD {
            lemma_rows_of_push(rest, row, entry, rest.len() as int);
            assert(out[out.len() - 1] == row);
        } else if is_first(rows, n - 1) {
            let folded = FindingProps { fanout: Some(fanout_at(rows, n - 1) as usize), ..row };
            lemma_rows_of_push(rest, folded, entry, rest.len() as int);
            assert(out[out.len() - 1] == folded);
        }
    }
}

/// An entry with more rows than the threshold shows in one row; any other keeps all its rows.
pub proof fn fanout_shows_once(rows: Seq<FindingProps>, entry: Seq<char>)
    ensures
        ({
            let total = rows_of(rows, entry, rows.len() as int);
            let out = fanned(rows, rows.len() as int);
            rows_of(out, entry, out.len() as int) == (if total <= FANOUT_THRESHOLD {
                total
            } else {
                1
            })
        }),
{
    lemma_fanned(rows, entry, rows.len() as int);
}

// ---------------------------------------------------------------------------
// The whole
// ---------------------------------------------------------------------------

proof fn lemma_kept_len(rows: Seq<FindingProps>, n: int)
    requires
        0 <= n,
    ensures
        kept(rows, n).len() <= n,
    decreases n,
{
    if n > 0 {
        lemma_kept_len(rows, n - 1);
    }
}

proof fn lemma_fanned_len(rows: Seq<FindingProps>, n: int)
    requires
        0 <= n,
    ensures
        fanned(rows, n).len() <= n,
    decreases n,
{
    if n > 0 {
        lemma_fanned_len(rows, n - 1);
    }
}

/// Only breach-relevant findings show: there are never more rows than there are of them.
pub proof fn only_relevant_findings_show(
    findings: Seq<Finding>,
    judgements: Seq<Judgement>,
    blind: Set<Seq<char>>,
    out: Seq<FindingProps>,
)
    requires
        findings_shown(findings, judgements, blind, out),
    ensures
        out.len() <= findings.filter(|f: Finding| f.breach_relevant).len(),
{
    let le = |a: FindingProps, b: FindingProps| row_le(a, b);
    let (rows, folded) = choose|rows: Seq<FindingProps>, folded: Seq<FindingProps>|
        {
            &&& #[trigger] rows_shown(findings, judgements, blind, rows)
            &&& #[trigger] replicas_folded(rows, folded)
            &&& out == order::sorted(
                fanned(folded, folded.len() as int),
                |a: FindingProps, b: FindingProps| row_le(a, b),
            )
        };
    lemma_kept_len(rows, rows.len() as int);
    lemma_fanned_len(folded, folded.len() as int);
    order::sorting_permutes(fanned(folded, folded.len() as int), le);
}

proof fn lemma_filter_twice(findings: Seq<Finding>)
    ensures
        findings.filter(|f: Finding| f.breach_relevant).filter(|f: Finding| f.breach_relevant)
            == findings.filter(|f: Finding| f.breach_relevant),
    decreases findings.len(),
{
    broadcast use vstd::seq::Seq::lemma_filter_push;

    let p = |f: Finding| f.breach_relevant;
    if findings.len() == 0 {
        assert(findings.filter(p) =~= Seq::empty());
        assert(findings.filter(p).filter(p) =~= Seq::empty());
    } else {
        lemma_filter_twice(findings.drop_last());
        assert(findings =~= findings.drop_last().push(findings.last()));
    }
}

/// Findings that are not breach-relevant change nothing: without them the same rows show.
pub proof fn irrelevant_findings_change_nothing(
    findings: Seq<Finding>,
    judgements: Seq<Judgement>,
    blind: Set<Seq<char>>,
    out: Seq<FindingProps>,
)
    ensures
        findings_shown(findings, judgements, blind, out) == findings_shown(
            findings.filter(|f: Finding| f.breach_relevant),
            judgements,
            blind,
            out,
        ),
{
    lemma_filter_twice(findings);
    let less = findings.filter(|f: Finding| f.breach_relevant);
    assert forall|rows: Seq<FindingProps>| #[trigger]
        rows_shown(findings, judgements, blind, rows) == rows_shown(less, judgements, blind, rows) by {}
    if findings_shown(findings, judgements, blind, out) {
        let (rows, folded) = choose|rows: Seq<FindingProps>, folded: Seq<FindingProps>|
            {
                &&& #[trigger] rows_shown(findings, judgements, blind, rows)
                &&& #[trigger] replicas_folded(rows, folded)
                &&& out == order::sorted(
                    fanned(folded, folded.len() as int),
                    |a: FindingProps, b: FindingProps| row_le(a, b),
                )
            };
        assert(rows_shown(less, judgements, blind, rows));
    }
    if findings_shown(less, judgements, blind, out) {
        let (rows, folded) = choose|rows: Seq<FindingProps>, folded: Seq<FindingProps>|
            {
                &&& #[trigger] rows_shown(less, judgements, blind, rows)
                &&& #[trigger] replicas_folded(rows, folded)
                &&& out == order::sorted(
                    fanned(folded, folded.len() as int),
                    |a: FindingProps, b: FindingProps| row_le(a, b),
                )
            };
        assert(rows_shown(findings, judgements, blind, rows));
    }
}

} // verus!
