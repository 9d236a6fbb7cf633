//! How rows are folded, in terms of the names of their entries and of the rows themselves.

use crate::props::findings::{FindingProps, LiveTag, Posture};
use crate::text;
use crate::text_laws::{comes_apart_behind, comes_apart_in_front, stays_whole};
use crate::view_model::folding::{
    fanned, group_key, is_better, is_digit, is_folded, is_lower, is_ordinal, is_replica,
    is_representative, looks_hashed, pods_of, rows_of, stem_of, urgency, workload_at, workload_of,
};
use vstd::prelude::*;

verus! {

/// Urgency in full: a breach first, live before promoted, then what escalated, what is uncertain,
/// what awaits judgement, and what was cleared.
pub proof fn urgency_in_order(f: FindingProps)
    ensures
        f.posture == Posture::Breach ==> urgency(f) == (if f.live_tag == LiveTag::Live {
            0int
        } else {
            1int
        }),
        f.posture != Posture::Breach && f.delta is Escalated ==> urgency(f) == 2,
        f.posture == Posture::Uncertain && !(f.delta is Escalated) ==> urgency(f) == 3,
        f.posture == Posture::Awaiting && !(f.delta is Escalated) ==> urgency(f) == 4,
        f.posture == Posture::Cleared && !(f.delta is Escalated) ==> urgency(f) == 5,
{
}

proof fn lemma_dash()
    ensures
        "-"@ == seq!['-'],
{
    reveal_strlit("-");
    assert("-"@ =~= seq!['-']);
}

/// Letters and digits hold no hyphen.
proof fn lemma_plain(seg: Seq<char>)
    requires
        forall|i: int| 0 <= i < seg.len() ==> is_lower(#[trigger] seg[i]) || is_digit(seg[i]),
    ensures
        !seg.contains('-'),
{
    if seg.contains('-') {
        let i = seg.index_of('-');
        assert(is_lower(seg[i]) || is_digit(seg[i]));
    }
}

/// A pod of a replica set is named after its workload: the workload's name, the set's hash and the
/// pod's, and the name is what is left without them.
pub proof fn replica_set_pod_is_named_after_its_workload(
    name: Seq<char>,
    set: Seq<char>,
    pod: Seq<char>,
)
    requires
        name.len() > 0,
        looks_hashed(set, 5, 10),
        looks_hashed(pod, 5, 5),
    ensures
        stem_of((name + "-"@ + set) + "-"@ + pod) == Some(name),
{
    lemma_dash();
    lemma_plain(set);
    lemma_plain(pod);
    comes_apart_behind(name + "-"@ + set, "-"@, pod, 0);
    comes_apart_behind(name, "-"@, set, 0);
    assert(!is_ordinal(pod)) by {
        let i = choose|i: int| 0 <= i < pod.len() && is_lower(#[trigger] pod[i]);
        if is_ordinal(pod) {
            assert(is_digit(pod[i]));
        }
    }
}

/// A pod of a stateful set is named after its workload and its ordinal.
pub proof fn ordinal_pod_is_named_after_its_workload(name: Seq<char>, ordinal: Seq<char>)
    requires
        name.len() > 0,
        is_ordinal(ordinal),
    ensures
        stem_of(name + "-"@ + ordinal) == Some(name),
{
    lemma_dash();
    assert forall|i: int| 0 <= i < ordinal.len() implies is_lower(#[trigger] ordinal[i]) || is_digit(
        ordinal[i],
    ) by {}
    lemma_plain(ordinal);
    comes_apart_behind(name, "-"@, ordinal, 0);
}

/// A pod of a daemon set is named after its workload and one hash, where the workload's name does
/// not end in a hash itself.
pub proof fn daemon_pod_is_named_after_its_workload(name: Seq<char>, pod: Seq<char>)
    requires
        name.len() > 0,
        looks_hashed(pod, 5, 5),
        !name.contains('-'),
    ensures
        stem_of(name + "-"@ + pod) == Some(name),
{
    lemma_dash();
    lemma_plain(pod);
    comes_apart_behind(name, "-"@, pod, 0);
    stays_whole(name, "-"@, 0);
    assert(!is_ordinal(pod)) by {
        let i = choose|i: int| 0 <= i < pod.len() && is_lower(#[trigger] pod[i]);
        if is_ordinal(pod) {
            assert(is_digit(pod[i]));
        }
    }
}

/// A name that ends in neither an ordinal nor a pod's hash is no replica's, and neither is one
/// without a hyphen.
pub proof fn plain_name_is_no_replica(name: Seq<char>, last: Seq<char>)
    requires
        !last.contains('-'),
        !is_ordinal(last),
        !looks_hashed(last, 5, 5),
    ensures
        stem_of(name + "-"@ + last) is None,
        stem_of(last) is None,
{
    lemma_dash();
    comes_apart_behind(name, "-"@, last, 0);
    stays_whole(last, "-"@, 0);
}

/// A pod belongs to the workload of its namespace that it is named after; nothing but a pod belongs
/// to one.
pub proof fn pod_belongs_to_its_workload(ns: Seq<char>, kind: Seq<char>, name: Seq<char>)
    requires
        ns.len() > 0 && !ns.contains('/'),
        !kind.contains('/'),
        name.len() > 0,
    ensures
        kind == "Pod"@ ==> workload_of(ns + "/"@ + (kind + "/"@ + name)) == (match stem_of(name) {
            Some(w) => Some((ns, w)),
            None => None,
        }),
        kind != "Pod"@ ==> workload_of(ns + "/"@ + (kind + "/"@ + name)) is None,
        kind == "Pod"@ ==> group_key(ns + "/"@ + (kind + "/"@ + name)) == (match stem_of(name) {
            Some(w) => Some(ns + "/Pod/"@ + w),
            None => None,
        }),
{
    reveal_strlit("/");
    assert("/"@ =~= seq!['/']);
    comes_apart_in_front(ns, "/"@, kind + "/"@ + name, 0);
    comes_apart_in_front(kind, "/"@, name, 0);
}

proof fn lemma_rows_of(rows: Seq<FindingProps>, entry: Seq<char>, n: int)
    requires
        0 <= n <= rows.len(),
    ensures
        rows_of(rows, entry, n) == 0 <==> forall|j: int|
            0 <= j < n ==> (#[trigger] rows[j]).entry@ != entry,
        rows_of(rows, entry, n) >= 0,
    decreases n,
{
    if n > 0 {
        lemma_rows_of(rows, entry, n - 1);
        if rows[n - 1].entry@ == entry {
            assert(!(forall|j: int| 0 <= j < n ==> (#[trigger] rows[j]).entry@ != entry));
        }
    }
}

/// Pods are counted once each: one more row counts exactly where it is of the workload and about a
/// pod that no earlier row is about.
pub proof fn pods_are_counted_once(rows: Seq<FindingProps>, w: (Seq<char>, Seq<char>), n: int)
    requires
        0 <= n < rows.len(),
    ensures
        pods_of(rows, w, 0) == 0,
        pods_of(rows, w, n + 1) == pods_of(rows, w, n) + (if workload_of(rows[n].entry@) == Some(w)
            && forall|j: int| 0 <= j < n ==> (#[trigger] rows[j]).entry@ != rows[n].entry@ {
            1int
        } else {
            0int
        }),
{
    lemma_rows_of(rows, rows[n].entry@, n);
}

/// Of replicas that are as urgent, the one that stands for them is the first by name.
pub proof fn first_by_name_stands(rows: Seq<FindingProps>, rep: int, j: int)
    requires
        0 <= rep < rows.len(),
        0 <= j < rows.len(),
        is_representative(rows, rep),
        workload_at(rows, j) == workload_at(rows, rep),
        urgency(rows[j]) == urgency(rows[rep]),
    ensures
        text::text_le(rows[rep].entry@, rows[j].entry@),
{
    text::lemma_text_le_total(rows[rep].entry@, rows[j].entry@);
    if j < rep {
        assert(is_better(rows[rep], rows[j]));
    } else if j > rep {
        assert(!is_better(rows[j], rows[rep]));
    }
}

/// The row that stands for replicas names the workload and says how many pods there are; all else it
/// shows is its own.
pub proof fn folded_row_names_the_workload(rows: Seq<FindingProps>, i: int, o: FindingProps)
    requires
        0 <= i < rows.len(),
        is_replica(rows, i),
        is_folded(rows, i, o),
    ensures
        workload_of(rows[i].entry@) matches Some(w) && o.entry@ == w.0 + "/"@ + w.1 && (
        o.replicas matches Some(n) && n == pods_of(rows, w, rows.len() as int) && n >= 2),
        o.id == rows[i].id,
        o.posture == rows[i].posture,
        o.live_tag == rows[i].live_tag,
        o.objective == rows[i].objective,
        o.foothold == rows[i].foothold,
        o.path == rows[i].path,
        o.paths == rows[i].paths,
        o.evidence == rows[i].evidence,
        o.judgement == rows[i].judgement,
        o.fanout == rows[i].fanout,
{
}

/// `o` is the row at `i` as it shows: the first of more than eight of its entry, which says how many
/// there are, or any other as it is.
pub open spec fn stands_for(rows: Seq<FindingProps>, i: int, o: FindingProps) -> bool {
    let count = rows_of(rows, rows[i].entry@, rows.len() as int);
    if count > 8 {
        &&& o.fanout matches Some(c) && c == count
        &&& o == (FindingProps { fanout: o.fanout, ..rows[i] })
        &&& forall|j: int| 0 <= j < i ==> (#[trigger] rows[j]).entry@ != rows[i].entry@
    } else {
        o == rows[i]
    }
}

/// Every row behind a fan-out is one of those in front of it. An entry with more than eight rows
/// shows by its first, which says how many there are; any other row stays as it is.
pub proof fn fanned_row_is_one_of_them(rows: Seq<FindingProps>, n: int, k: int) -> (i: int)
    requires
        0 <= n <= rows.len(),
        0 <= k < fanned(rows, n).len(),
        rows.len() <= usize::MAX,
    ensures
        0 <= i < n,
        stands_for(rows, i, fanned(rows, n)[k]),
    decreases n,
{
    let rest = fanned(rows, n - 1);
    if k < rest.len() {
        assert(fanned(rows, n)[k] == rest[k]);
        fanned_row_is_one_of_them(rows, n - 1, k)
    } else {
        lemma_rows_of(rows, rows[n - 1].entry@, n - 1);
        lemma_rows_bound(rows, rows[n - 1].entry@, rows.len() as int);
        n - 1
    }
}

proof fn lemma_rows_bound(rows: Seq<FindingProps>, entry: Seq<char>, n: int)
    requires
        0 <= n <= rows.len(),
    ensures
        0 <= rows_of(rows, entry, n) <= n,
    decreases n,
{
    if n > 0 {
        lemma_rows_bound(rows, entry, n - 1);
    }
}

} // verus!
