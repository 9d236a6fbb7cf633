//! Which findings share a row, and in what order the rows show.
//!
//! Pods that are clearly replicas of one workload fold to the most urgent of them. An entry that
//! reaches many objectives folds to one row. The rows then show by urgency, which is not severity.

use crate::order;
use crate::props::findings::{DeltaProps, FindingProps, LiveTag, Posture};
use crate::state::{Finding, Judgement};
use crate::text;
use crate::text_set::TextSet;
use crate::view_model::findings::{finding_props, shows_finding};
use vstd::prelude::*;
use vstd::string::*;

verus! {

// ---------------------------------------------------------------------------
// Urgency
// ---------------------------------------------------------------------------

/// How urgent a row is; less is more urgent. A live breach comes first, then a promoted one, an
/// escalation, an uncertain row, an awaiting one, and the cleared ones last.
pub open spec fn urgency(f: FindingProps) -> int {
    if f.posture == Posture::Breach && f.live_tag == LiveTag::Live {
        0
    } else if f.posture == Posture::Breach {
        1
    } else if f.delta is Escalated {
        2
    } else if f.posture == Posture::Uncertain {
        3
    } else if f.posture == Posture::Awaiting {
        4
    } else {
        5
    }
}

/// How urgent a row is.
pub fn urgency_rank(f: &FindingProps) -> (r: u8)
    ensures
        r == urgency(*f),
{
    match f.posture {
        Posture::Breach => match f.live_tag {
            LiveTag::Live => 0,
            _ => 1,
        },
        _ => match &f.delta {
            DeltaProps::Escalated => 2,
            _ => match f.posture {
                Posture::Uncertain => 3,
                Posture::Awaiting => 4,
                _ => 5,
            },
        },
    }
}

/// The order of rows: by urgency, then by entry, then by objective.
pub open spec fn row_le(a: FindingProps, b: FindingProps) -> bool {
    if urgency(a) != urgency(b) {
        urgency(a) < urgency(b)
    } else if a.entry@ != b.entry@ {
        text::text_le(a.entry@, b.entry@)
    } else {
        text::text_le(a.objective@, b.objective@)
    }
}

fn row_at_most(a: &FindingProps, b: &FindingProps) -> (r: bool)
    ensures
        r == row_le(*a, *b),
{
    let (x, y): (u8, u8) = (urgency_rank(a), urgency_rank(b));
    if x != y {
        x < y
    } else if !text::same(a.entry.as_str(), b.entry.as_str()) {
        text::at_most(a.entry.as_str(), b.entry.as_str())
    } else {
        text::at_most(a.objective.as_str(), b.objective.as_str())
    }
}

// ---------------------------------------------------------------------------
// Replicas
// ---------------------------------------------------------------------------

/// A lower-case ASCII letter.
pub open spec fn is_lower(c: char) -> bool {
    'a' <= c <= 'z'
}

/// A decimal digit.
pub open spec fn is_digit(c: char) -> bool {
    '0' <= c <= '9'
}

/// A generated hash: of this length, of lower-case letters and digits, with both among them. A tail
/// of letters alone is a word, not a hash.
pub open spec fn looks_hashed(seg: Seq<char>, min: int, max: int) -> bool {
    &&& min <= seg.len() <= max
    &&& forall|i: int| 0 <= i < seg.len() ==> is_lower(#[trigger] seg[i]) || is_digit(seg[i])
    &&& exists|i: int| 0 <= i < seg.len() && is_lower(#[trigger] seg[i])
    &&& exists|i: int| 0 <= i < seg.len() && is_digit(#[trigger] seg[i])
}

/// A StatefulSet ordinal.
pub open spec fn is_ordinal(seg: Seq<char>) -> bool {
    seg.len() > 0 && forall|i: int| 0 <= i < seg.len() ==> is_digit(#[trigger] seg[i])
}

/// The workload's name in the name of one of its pods: the stem before an ordinal
/// (`name-0`), before a ReplicaSet hash and a pod hash (`name-<hash>-<hash>`), or before a pod hash
/// (`name-<hash>`). Any other name is not taken apart.
pub open spec fn stem_of(pod: Seq<char>) -> Option<Seq<char>> {
    match text::rsplit_once(pod, "-"@) {
        Some((stem, last)) => if stem.len() > 0 && is_ordinal(last) {
            Some(stem)
        } else {
            match text::rsplit_once(stem, "-"@) {
                Some((name, middle)) => if name.len() > 0 && looks_hashed(last, 5, 5) && looks_hashed(
                    middle,
                    5,
                    10,
                ) {
                    Some(name)
                } else if stem.len() > 0 && looks_hashed(last, 5, 5) {
                    Some(stem)
                } else {
                    None
                },
                None => if stem.len() > 0 && looks_hashed(last, 5, 5) {
                    Some(stem)
                } else {
                    None
                },
            }
        },
        None => None,
    }
}

/// The namespace and workload of a pod's label `<namespace>/Pod/<name>`, where the name is that of
/// a replica.
pub open spec fn workload_of(entry: Seq<char>) -> Option<(Seq<char>, Seq<char>)> {
    match text::split_once(entry, "/"@) {
        Some((ns, rest)) => match text::split_once(rest, "/"@) {
            Some((kind, name)) => if kind == "Pod"@ && ns.len() > 0 && name.len() > 0 {
                match stem_of(name) {
                    Some(workload) => Some((ns, workload)),
                    None => None,
                }
            } else {
                None
            },
            None => None,
        },
        None => None,
    }
}

/// The key of a pod's workload.
pub open spec fn group_key(entry: Seq<char>) -> Option<Seq<char>> {
    match workload_of(entry) {
        Some((ns, workload)) => Some(ns + "/Pod/"@ + workload),
        None => None,
    }
}

fn is_mixed_hash(seg: &str, min: usize, max: usize) -> (r: bool)
    ensures
        r == looks_hashed(seg@, min as int, max as int),
{
    let cs = text::chars_of(seg);
    if cs.len() < min || cs.len() > max {
        return false;
    }
    let mut has_alpha = false;
    let mut has_digit = false;
    let mut i: usize = 0;
    while i < cs.len()
        invariant
            i <= cs.len(),
            cs@ == seg@,
            forall|k: int| 0 <= k < i ==> is_lower(#[trigger] cs@[k]) || is_digit(cs@[k]),
            has_alpha == exists|k: int| 0 <= k < i && is_lower(#[trigger] cs@[k]),
            has_digit == exists|k: int| 0 <= k < i && is_digit(#[trigger] cs@[k]),
        decreases cs.len() - i,
    {
        let c = cs[i];
        if 'a' <= c && c <= 'z' {
            assert(is_lower(cs@[i as int]));
            has_alpha = true;
        } else if '0' <= c && c <= '9' {
            assert(is_digit(cs@[i as int]));
            has_digit = true;
        } else {
            assert(!is_lower(seg@[i as int]) && !is_digit(seg@[i as int]));
            return false;
        }
        i += 1;
    }
    has_alpha && has_digit
}

fn is_pod_hash(seg: &str) -> (r: bool)
    ensures
        r == looks_hashed(seg@, 5, 5),
{
    is_mixed_hash(seg, 5, 5)
}

fn is_replicaset_hash(seg: &str) -> (r: bool)
    ensures
        r == looks_hashed(seg@, 5, 10),
{
    is_mixed_hash(seg, 5, 10)
}

fn all_digits(seg: &str) -> (r: bool)
    ensures
        r == is_ordinal(seg@),
{
    let cs = text::chars_of(seg);
    let mut i: usize = 0;
    while i < cs.len()
        invariant
            i <= cs.len(),
            cs@ == seg@,
            forall|k: int| 0 <= k < i ==> is_digit(#[trigger] cs@[k]),
        decreases cs.len() - i,
    {
        if !('0' <= cs[i] && cs[i] <= '9') {
            assert(!is_digit(seg@[i as int]));
            return false;
        }
        i += 1;
    }
    cs.len() > 0
}

/// The workload's name in the name of one of its pods, where that is clear.
pub fn strip_replica_suffix(pod_name: &str) -> (r: Option<String>)
    ensures
        text::opt_text(r) == stem_of(pod_name@),
{
    match text::rcut(pod_name, "-") {
        Some(t) => {
            let (stem, last) = t;
            let there = !stem.as_str().is_empty();
            if there && all_digits(last.as_str()) {
                return Some(stem);
            }
            let hashed = is_pod_hash(last.as_str());
            match text::rcut(stem.as_str(), "-") {
                Some(u) => {
                    let (name, middle) = u;
                    if !name.as_str().is_empty() && hashed && is_replicaset_hash(middle.as_str()) {
                        return Some(name);
                    }
                },
                None => {},
            }
            if there && hashed {
                Some(stem)
            } else {
                None
            }
        },
        None => None,
    }
}

/// The namespace and workload of a pod's label, where the name is that of a replica.
fn workload_parts(short_entry: &str) -> (r: Option<(String, String)>)
    ensures
        r matches Some(t) ==> workload_of(short_entry@) == Some((t.0@, t.1@)),
        r is None ==> workload_of(short_entry@) is None,
{
    match text::cut(short_entry, "/") {
        Some(t) => match text::cut(t.1.as_str(), "/") {
            Some(u) => if text::same(u.0.as_str(), "Pod") && !t.0.as_str().is_empty()
                && !u.1.as_str().is_empty() {
                match strip_replica_suffix(u.1.as_str()) {
                    Some(workload) => Some((t.0, workload)),
                    None => None,
                }
            } else {
                None
            },
            None => None,
        },
        None => None,
    }
}

/// The key of a pod's workload, where the pod is clearly a replica.
pub fn workload_group_key(short_entry: &str) -> (r: Option<String>)
    ensures
        text::opt_text(r) == group_key(short_entry@),
{
    match workload_parts(short_entry) {
        Some(t) => Some(t.0.concat("/Pod/").concat(t.1.as_str())),
        None => None,
    }
}

/// The workload of the row at `i`.
pub open spec fn workload_at(rows: Seq<FindingProps>, i: int) -> Option<(Seq<char>, Seq<char>)> {
    workload_of(rows[i].entry@)
}

/// How many of the first `n` rows have this entry.
pub open spec fn rows_of(rows: Seq<FindingProps>, entry: Seq<char>, n: int) -> int
    decreases n,
{
    if n <= 0 {
        0
    } else {
        rows_of(rows, entry, n - 1) + (if rows[n - 1].entry@ == entry {
            1int
        } else {
            0int
        })
    }
}

/// The row at `i` is the first with its entry.
pub open spec fn is_first(rows: Seq<FindingProps>, i: int) -> bool {
    rows_of(rows, rows[i].entry@, i) == 0
}

/// How many pods of the workload the first `n` rows are about. A pod with several rows counts once,
/// with the first of them.
pub open spec fn pods_of(rows: Seq<FindingProps>, w: (Seq<char>, Seq<char>), n: int) -> int
    decreases n,
{
    if n <= 0 {
        0
    } else {
        pods_of(rows, w, n - 1) + (if workload_at(rows, n - 1) == Some(w) && is_first(rows, n - 1) {
            1int
        } else {
            0int
        })
    }
}

/// The row at `i` is one of several replicas.
pub open spec fn is_replica(rows: Seq<FindingProps>, i: int) -> bool {
    match workload_at(rows, i) {
        Some(w) => pods_of(rows, w, rows.len() as int) >= 2,
        None => false,
    }
}

/// The row `a` stands for its workload rather than `b`: it is more urgent or, among equals, its
/// entry comes first.
pub open spec fn is_better(a: FindingProps, b: FindingProps) -> bool {
    urgency(a) < urgency(b) || (urgency(a) == urgency(b) && text::text_lt(a.entry@, b.entry@))
}

/// Of the rows of its workload, the row at `i` is the first of the best.
pub open spec fn is_representative(rows: Seq<FindingProps>, i: int) -> bool {
    forall|j: int|
        0 <= j < rows.len() && #[trigger] workload_at(rows, j) == workload_at(rows, i) ==> {
            &&& j < i ==> is_better(rows[i], rows[j])
            &&& j > i ==> !is_better(rows[j], rows[i])
        }
}

/// The row at `i` keeps a row of its own.
pub open spec fn keeps_row(rows: Seq<FindingProps>, i: int) -> bool {
    is_replica(rows, i) ==> is_representative(rows, i)
}

/// The positions below `n` that keep a row.
pub open spec fn kept(rows: Seq<FindingProps>, n: int) -> Seq<int>
    decreases n,
{
    if n <= 0 {
        Seq::empty()
    } else if keeps_row(rows, n - 1) {
        kept(rows, n - 1).push(n - 1)
    } else {
        kept(rows, n - 1)
    }
}

/// `o` is the row at `i`, and where it stands for replicas it names the workload and counts them.
pub open spec fn is_folded(rows: Seq<FindingProps>, i: int, o: FindingProps) -> bool {
    match workload_at(rows, i) {
        Some(w) => if is_replica(rows, i) {
            &&& o.entry@ == w.0 + "/"@ + w.1
            &&& o.replicas is Some
            &&& o.replicas.unwrap() == pods_of(rows, w, rows.len() as int)
            &&& o == (FindingProps { entry: o.entry, replicas: o.replicas, ..rows[i] })
        } else {
            o == rows[i]
        },
        None => o == rows[i],
    }
}

/// `out` is `rows` with the replicas folded.
pub open spec fn replicas_folded(rows: Seq<FindingProps>, out: Seq<FindingProps>) -> bool {
    &&& out.len() == kept(rows, rows.len() as int).len()
    &&& forall|k: int|
        0 <= k < out.len() ==> is_folded(
            rows,
            kept(rows, rows.len() as int)[k],
            #[trigger] out[k],
        )
}

/// The workloads of the rows.
fn workloads(rows: &Vec<FindingProps>) -> (r: Vec<Option<(String, String)>>)
    ensures
        r@.len() == rows@.len(),
        forall|i: int|
            0 <= i < r@.len() ==> match #[trigger] r@[i] {
                Some(t) => workload_at(rows@, i) == Some((t.0@, t.1@)),
                None => workload_at(rows@, i) is None,
            },
{
    let mut r: Vec<Option<(String, String)>> = Vec::new();
    let mut i: usize = 0;
    while i < rows.len()
        invariant
            i <= rows.len(),
            r@.len() == i,
            forall|k: int|
                0 <= k < r@.len() ==> match #[trigger] r@[k] {
                    Some(t) => workload_at(rows@, k) == Some((t.0@, t.1@)),
                    None => workload_at(rows@, k) is None,
                },
        decreases rows.len() - i,
    {
        r.push(workload_parts(rows[i].entry.as_str()));
        i += 1;
    }
    r
}

/// How many of the first `n` rows have this entry.
fn count_rows(rows: &Vec<FindingProps>, entry: &str, n: usize) -> (r: usize)
    requires
        n <= rows@.len(),
    ensures
        r == rows_of(rows@, entry@, n as int),
        r <= n,
{
    let mut c: usize = 0;
    let mut i: usize = 0;
    while i < n
        invariant
            i <= n <= rows@.len(),
            c <= i,
            c == rows_of(rows@, entry@, i as int),
        decreases n - i,
    {
        if text::same(rows[i].entry.as_str(), entry) {
            c += 1;
        }
        i += 1;
    }
    c
}

/// Whether each row is the first with its entry.
fn first_rows(rows: &Vec<FindingProps>) -> (r: Vec<bool>)
    ensures
        r@.len() == rows@.len(),
        forall|i: int| 0 <= i < r@.len() ==> #[trigger] r@[i] == is_first(rows@, i),
{
    let mut r: Vec<bool> = Vec::new();
    let mut i: usize = 0;
    while i < rows.len()
        invariant
            i <= rows.len(),
            r@.len() == i,
            forall|k: int| 0 <= k < i ==> #[trigger] r@[k] == is_first(rows@, k),
        decreases rows.len() - i,
    {
        r.push(count_rows(rows, rows[i].entry.as_str(), i) == 0);
        i += 1;
    }
    r
}

/// Whether a row's workload is this one.
fn is_workload(g: &Option<(String, String)>, w: &(String, String)) -> (r: bool)
    ensures
        r == match g {
            Some(t) => (t.0@, t.1@) == (w.0@, w.1@),
            None => false,
        },
{
    match g {
        Some(t) => text::same(t.0.as_str(), w.0.as_str()) && text::same(t.1.as_str(), w.1.as_str()),
        None => false,
    }
}

/// How many pods of the workload the rows are about.
fn count_pods(
    Ghost(rows): Ghost<Seq<FindingProps>>,
    groups: &Vec<Option<(String, String)>>,
    firsts: &Vec<bool>,
    w: &(String, String),
) -> (r: usize)
    requires
        groups@.len() == rows.len(),
        firsts@.len() == rows.len(),
        forall|i: int|
            0 <= i < groups@.len() ==> match #[trigger] groups@[i] {
                Some(t) => workload_at(rows, i) == Some((t.0@, t.1@)),
                None => workload_at(rows, i) is None,
            },
        forall|i: int| 0 <= i < firsts@.len() ==> #[trigger] firsts@[i] == is_first(rows, i),
    ensures
        r == pods_of(rows, (w.0@, w.1@), rows.len() as int),
{
    let mut n: usize = 0;
    let mut i: usize = 0;
    while i < groups.len()
        invariant
            i <= groups.len(),
            n <= i,
            groups@.len() == rows.len(),
            firsts@.len() == rows.len(),
            forall|k: int|
                0 <= k < groups@.len() ==> match #[trigger] groups@[k] {
                    Some(t) => workload_at(rows, k) == Some((t.0@, t.1@)),
                    None => workload_at(rows, k) is None,
                },
            forall|k: int| 0 <= k < firsts@.len() ==> #[trigger] firsts@[k] == is_first(rows, k),
            n == pods_of(rows, (w.0@, w.1@), i as int),
        decreases groups.len() - i,
    {
        if is_workload(&groups[i], w) && firsts[i] {
            n += 1;
        }
        i += 1;
    }
    n
}

/// Whether a row stands for its workload rather than another.
fn better(a: &FindingProps, b: &FindingProps) -> (r: bool)
    ensures
        r == is_better(*a, *b),
{
    let (x, y): (u8, u8) = (urgency_rank(a), urgency_rank(b));
    x < y || (x == y && text::at_most(a.entry.as_str(), b.entry.as_str()) && !text::same(
        a.entry.as_str(),
        b.entry.as_str(),
    ))
}

/// Whether the row at `i` is the first of the best of its workload.
fn represents(
    rows: &Vec<FindingProps>,
    groups: &Vec<Option<(String, String)>>,
    i: usize,
    w: &(String, String),
) -> (r: bool)
    requires
        i < rows@.len(),
        groups@.len() == rows@.len(),
        forall|k: int|
            0 <= k < groups@.len() ==> match #[trigger] groups@[k] {
                Some(t) => workload_at(rows@, k) == Some((t.0@, t.1@)),
                None => workload_at(rows@, k) is None,
            },
        workload_at(rows@, i as int) == Some((w.0@, w.1@)),
    ensures
        r == is_representative(rows@, i as int),
{
    let mut j: usize = 0;
    while j < rows.len()
        invariant
            j <= rows.len(),
            i < rows@.len(),
            groups@.len() == rows@.len(),
            forall|k: int|
                0 <= k < groups@.len() ==> match #[trigger] groups@[k] {
                    Some(t) => workload_at(rows@, k) == Some((t.0@, t.1@)),
                    None => workload_at(rows@, k) is None,
                },
            workload_at(rows@, i as int) == Some((w.0@, w.1@)),
            forall|k: int|
                0 <= k < j && #[trigger] workload_at(rows@, k) == workload_at(rows@, i as int) ==> {
                    &&& k < i ==> is_better(rows@[i as int], rows@[k])
                    &&& k > i ==> !is_better(rows@[k], rows@[i as int])
                },
        decreases rows.len() - j,
    {
        if is_workload(&groups[j], w) {
            assert(workload_at(rows@, j as int) == workload_at(rows@, i as int));
            if j < i && !better(&rows[i], &rows[j]) {
                return false;
            }
            if j > i && better(&rows[j], &rows[i]) {
                return false;
            }
        }
        j += 1;
    }
    true
}

/// How a row folds.
enum Fold {
    /// It stays as it is.
    Stays,
    /// Another row stands for it.
    Goes,
    /// It stands for so many replicas, under this label.
    Stands(String, usize),
}

/// How the row at `i` folds.
fn fold_of(
    rows: &Vec<FindingProps>,
    groups: &Vec<Option<(String, String)>>,
    firsts: &Vec<bool>,
    i: usize,
) -> (r: Fold)
    requires
        i < rows@.len(),
        groups@.len() == rows@.len(),
        firsts@.len() == rows@.len(),
        forall|k: int| 0 <= k < firsts@.len() ==> #[trigger] firsts@[k] == is_first(rows@, k),
        forall|k: int|
            0 <= k < groups@.len() ==> match #[trigger] groups@[k] {
                Some(t) => workload_at(rows@, k) == Some((t.0@, t.1@)),
                None => workload_at(rows@, k) is None,
            },
    ensures
        folds_so(rows@, i as int, r),
{
    match &groups[i] {
        Some(w) => {
            assert(workload_at(rows@, i as int) == Some((w.0@, w.1@)));
            let n = count_pods(Ghost(rows@), groups, firsts, w);
            if n < 2 {
                return Fold::Stays;
            }
            if represents(rows, groups, i, w) {
                Fold::Stands(w.0.clone().concat("/").concat(w.1.as_str()), n)
            } else {
                Fold::Goes
            }
        },
        None => Fold::Stays,
    }
}

spec fn folds_so(rows: Seq<FindingProps>, i: int, r: Fold) -> bool {
    match r {
        Fold::Stays => !is_replica(rows, i),
        Fold::Goes => is_replica(rows, i) && !is_representative(rows, i),
        Fold::Stands(label, n) => {
            &&& is_replica(rows, i)
            &&& is_representative(rows, i)
            &&& workload_at(rows, i) matches Some(w) && label@ == w.0 + "/"@ + w.1 && n == pods_of(
                rows,
                w,
                rows.len() as int,
            )
        },
    }
}

/// Folds the replicas of each workload into the most urgent of them.
pub fn collapse_pod_replicas(rows: Vec<FindingProps>) -> (r: Vec<FindingProps>)
    ensures
        replicas_folded(rows@, r@),
{
    let groups = workloads(&rows);
    let firsts = first_rows(&rows);
    let mut folds: Vec<Fold> = Vec::new();
    let mut i: usize = 0;
    while i < rows.len()
        invariant
            i <= rows.len(),
            groups@.len() == rows@.len(),
            firsts@.len() == rows@.len(),
            forall|k: int| 0 <= k < firsts@.len() ==> #[trigger] firsts@[k] == is_first(rows@, k),
            forall|k: int|
                0 <= k < groups@.len() ==> match #[trigger] groups@[k] {
                    Some(t) => workload_at(rows@, k) == Some((t.0@, t.1@)),
                    None => workload_at(rows@, k) is None,
                },
            folds@.len() == i,
            forall|k: int| 0 <= k < i ==> folds_so(rows@, k, #[trigger] folds@[k]),
        decreases rows.len() - i,
    {
        folds.push(fold_of(&rows, &groups, &firsts, i));
        i += 1;
    }
    let ghost given = rows@;
    let mut rest = rows;
    let mut r: Vec<FindingProps> = Vec::new();
    let mut k: usize = 0;
    while k < folds.len()
        invariant
            k <= folds.len(),
            folds@.len() == given.len(),
            rest@ == given.skip(k as int),
            forall|j: int| 0 <= j < given.len() ==> folds_so(given, j, #[trigger] folds@[j]),
            r@.len() == kept(given, k as int).len(),
            forall|j: int|
                0 <= j < r@.len() ==> is_folded(given, kept(given, k as int)[j], #[trigger] r@[j]),
        decreases folds.len() - k,
    {
        let mut row = rest.remove(0);
        assert(rest@ =~= given.skip(k + 1));
        assert(row == given[k as int]);
        assert(folds_so(given, k as int, folds@[k as int]));
        match &folds[k] {
            Fold::Stays => {
                r.push(row);
            },
            Fold::Goes => {},
            Fold::Stands(label, n) => {
                row.entry = label.clone();
                row.replicas = Some(*n);
                r.push(row);
            },
        }
        k += 1;
    }
    r
}

// ---------------------------------------------------------------------------
// Fan-out
// ---------------------------------------------------------------------------

/// An entry with more rows than this folds to one.
pub const FANOUT_THRESHOLD: usize = 8;

/// How many rows have the entry of the row at `i`.
pub open spec fn fanout_at(rows: Seq<FindingProps>, i: int) -> int {
    rows_of(rows, rows[i].entry@, rows.len() as int)
}

/// The rows that the first `n` rows fold to: an entry with many rows keeps its first, with the
/// number of them.
pub open spec fn fanned(rows: Seq<FindingProps>, n: int) -> Seq<FindingProps>
    decreases n,
{
    if n <= 0 {
        Seq::empty()
    } else {
        let rest = fanned(rows, n - 1);
        let row = rows[n - 1];
        if fanout_at(rows, n - 1) <= FANOUT_THRESHOLD {
            rest.push(row)
        } else if is_first(rows, n - 1) {
            rest.push(FindingProps { fanout: Some(fanout_at(rows, n - 1) as usize), ..row })
        } else {
            rest
        }
    }
}

/// Folds the rows of an entry that reaches many objectives into one.
pub fn collapse_fanout(rows: Vec<FindingProps>) -> (r: Vec<FindingProps>)
    ensures
        r@ == fanned(rows@, rows@.len() as int),
{
    let ghost given = rows@;
    let mut counts: Vec<(usize, bool)> = Vec::new();
    let mut i: usize = 0;
    while i < rows.len()
        invariant
            i <= rows.len(),
            given == rows@,
            counts@.len() == i,
            forall|k: int|
                0 <= k < i ==> (#[trigger] counts@[k]).0 == fanout_at(given, k) && counts@[k].1
                    == is_first(given, k),
        decreases rows.len() - i,
    {
        let n = count_rows(&rows, rows[i].entry.as_str(), rows.len());
        let before = count_rows(&rows, rows[i].entry.as_str(), i);
        counts.push((n, before == 0));
        i += 1;
    }
    let mut rest = rows;
    let mut r: Vec<FindingProps> = Vec::new();
    let mut k: usize = 0;
    while k < counts.len()
        invariant
            k <= counts.len(),
            counts@.len() == given.len(),
            rest@ == given.skip(k as int),
            forall|j: int|
                0 <= j < given.len() ==> (#[trigger] counts@[j]).0 == fanout_at(given, j)
                    && counts@[j].1 == is_first(given, j),
            r@ == fanned(given, k as int),
        decreases counts.len() - k,
    {
        let mut row = rest.remove(0);
        assert(rest@ =~= given.skip(k + 1));
        assert(row == given[k as int]);
        let (n, first) = counts[k];
        if n <= FANOUT_THRESHOLD {
            r.push(row);
        } else if first {
            row.fanout = Some(n);
            r.push(row);
        }
        k += 1;
    }
    r
}

// ---------------------------------------------------------------------------
// All findings
// ---------------------------------------------------------------------------

/// `rows` are the rows of the breach-relevant findings, one each.
pub open spec fn rows_shown(
    findings: Seq<Finding>,
    judgements: Seq<Judgement>,
    blind: Set<Seq<char>>,
    rows: Seq<FindingProps>,
) -> bool {
    let relevant = findings.filter(|f: Finding| f.breach_relevant);
    &&& rows.len() == relevant.len()
    &&& forall|i: int|
        0 <= i < rows.len() ==> shows_finding(relevant[i], judgements, blind, #[trigger] rows[i])
}

/// `out` shows the findings: the breach-relevant ones, the replicas folded, the fan-outs folded,
/// in order.
pub open spec fn findings_shown(
    findings: Seq<Finding>,
    judgements: Seq<Judgement>,
    blind: Set<Seq<char>>,
    out: Seq<FindingProps>,
) -> bool {
    exists|rows: Seq<FindingProps>, folded: Seq<FindingProps>|
        {
            &&& #[trigger] rows_shown(findings, judgements, blind, rows)
            &&& #[trigger] replicas_folded(rows, folded)
            &&& out == order::sorted(
                fanned(folded, folded.len() as int),
                |a: FindingProps, b: FindingProps| row_le(a, b),
            )
        }
}

/// The rows of the Findings view.
pub fn map_findings(findings: &[Finding], judgements: &[Judgement], blind_nodes: &TextSet) -> (r: Vec<
    FindingProps,
>)
    ensures
        findings_shown(findings@, judgements@, blind_nodes@, r@),
{
    let ghost p = |f: Finding| f.breach_relevant;
    let mut rows: Vec<FindingProps> = Vec::new();
    let mut i: usize = 0;
    assert(findings@.take(0).filter(p) =~= Seq::empty());
    while i < findings.len()
        invariant
            i <= findings.len(),
            p == |f: Finding| f.breach_relevant,
            rows@.len() == findings@.take(i as int).filter(p).len(),
            forall|k: int|
                0 <= k < rows@.len() ==> shows_finding(
                    findings@.take(i as int).filter(p)[k],
                    judgements@,
                    blind_nodes@,
                    #[trigger] rows@[k],
                ),
        decreases findings.len() - i,
    {
        broadcast use vstd::seq::Seq::lemma_filter_push;

        assert(findings@.take(i + 1) =~= findings@.take(i as int).push(findings@[i as int]));
        if findings[i].breach_relevant {
            rows.push(finding_props(&findings[i], judgements, blind_nodes));
        }
        i += 1;
    }
    assert(findings@.take(findings@.len() as int) =~= findings@);
    let ghost shown = rows@;
    assert(rows_shown(findings@, judgements@, blind_nodes@, shown));
    let folded = collapse_pod_replicas(rows);
    let ghost merged = folded@;
    assert(replicas_folded(shown, merged));
    let fans = collapse_fanout(folded);
    let ghost le = |a: FindingProps, b: FindingProps| row_le(a, b);
    let at_most = |a: &FindingProps, b: &FindingProps| -> (o: bool)
        ensures
            o == row_le(*a, *b),
        { row_at_most(a, b) };
    order::sort_stable(fans, at_most, Ghost(le))
}

} // verus!
