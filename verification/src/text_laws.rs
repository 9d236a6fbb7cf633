//! What the operations on texts give, in terms of the characters.

use crate::text::{
    after, ascii_lower, before, contains, decimal, digit, find, is_space, join, lemma_find_from,
    lower, occurs_at, replace, rfind, rfind_from, rsplit_once, slug, split, split_from, split_once,
    strip_prefix, text_le, trim, trim_end, trim_start,
};
use vstd::prelude::*;

verus! {

/// What is found is the first: the pattern stands there and nowhere before, and where nothing is
/// found it stands nowhere.
pub proof fn found_is_first(s: Seq<char>, p: Seq<char>)
    ensures
        find(s, p) matches Some(i) ==> 0 <= i && i + p.len() <= s.len() && s.subrange(
            i,
            i + p.len(),
        ) == p && forall|j: int| 0 <= j < i ==> !#[trigger] occurs_at(s, p, j),
        find(s, p) is None ==> forall|j: int| !#[trigger] occurs_at(s, p, j),
{
    lemma_find_from(s, p, 0);
}

proof fn lemma_rfind_from(s: Seq<char>, p: Seq<char>, i: int)
    ensures
        rfind_from(s, p, i) matches Some(k) ==> 0 <= k <= i && occurs_at(s, p, k) && forall|j: int|
            k < j <= i ==> !occurs_at(s, p, j),
        rfind_from(s, p, i) is None ==> forall|j: int| 0 <= j <= i ==> !occurs_at(s, p, j),
    decreases i + 1,
{
    if i >= 0 && !occurs_at(s, p, i) {
        lemma_rfind_from(s, p, i - 1);
    }
}

/// What is found from behind is the last: the pattern stands there and nowhere behind.
pub proof fn found_from_behind_is_last(s: Seq<char>, p: Seq<char>)
    ensures
        rfind(s, p) matches Some(i) ==> 0 <= i && i + p.len() <= s.len() && s.subrange(
            i,
            i + p.len(),
        ) == p && forall|j: int| i < j ==> !#[trigger] occurs_at(s, p, j),
        rfind(s, p) is None ==> forall|j: int| !#[trigger] occurs_at(s, p, j),
{
    lemma_rfind_from(s, p, s.len() - p.len());
}

/// The parts around a separator put back together give the text. The separator is the first one, or
/// from behind the last.
pub proof fn parts_rejoin(s: Seq<char>, p: Seq<char>)
    ensures
        split_once(s, p) matches Some(t) ==> t.0 + p + t.1 == s && forall|j: int|
            0 <= j < t.0.len() ==> !#[trigger] occurs_at(s, p, j),
        rsplit_once(s, p) matches Some(t) ==> t.0 + p + t.1 == s && forall|j: int|
            j > t.0.len() ==> !#[trigger] occurs_at(s, p, j),
        split_once(s, p) is None ==> !contains(s, p) && before(s, p) == s && after(s, p) == s,
        split_once(s, p) matches Some(t) ==> before(s, p) == t.0 && after(s, p) == t.1,
        rsplit_once(s, p) is None ==> !contains(s, p),
{
    found_is_first(s, p);
    found_from_behind_is_last(s, p);
    match find(s, p) {
        Some(i) => {
            assert(s.take(i) + s.subrange(i, i + p.len()) + s.skip(i + p.len()) =~= s);
        },
        None => {},
    }
    match rfind(s, p) {
        Some(i) => {
            assert(s.take(i) + s.subrange(i, i + p.len()) + s.skip(i + p.len()) =~= s);
        },
        None => {},
    }
}

/// What a prefix is stripped from is the prefix and what is left.
pub proof fn stripped_prefix_leads(s: Seq<char>, p: Seq<char>, rest: Seq<char>)
    ensures
        strip_prefix(s, p) matches Some(r) ==> s == p + r,
        strip_prefix(p + rest, p) == Some(rest),
{
    match strip_prefix(s, p) {
        Some(r) => {
            assert(s =~= p + r);
        },
        None => {},
    }
    assert(p.is_prefix_of(p + rest));
    assert((p + rest).skip(p.len() as int) =~= rest);
}

/// Joining puts the separator between the parts: one more part follows one more separator.
pub proof fn joining_adds_one_part(v: Seq<Seq<char>>, x: Seq<char>, sep: Seq<char>)
    ensures
        join(Seq::empty(), sep).len() == 0,
        join(seq![x], sep) == x,
        v.len() > 0 ==> join(v.push(x), sep) == join(v, sep) + sep + x,
{
    assert(v.push(x).drop_last() =~= v);
}

proof fn lemma_join_front(a: Seq<char>, v: Seq<Seq<char>>, sep: Seq<char>)
    requires
        v.len() > 0,
    ensures
        join(seq![a] + v, sep) == a + sep + join(v, sep),
    decreases v.len(),
{
    let w = seq![a] + v;
    assert(w.drop_last() =~= seq![a] + v.drop_last());
    if v.len() == 1 {
        assert(w.drop_last() =~= seq![a]);
        assert(join(seq![a], sep) == a);
        assert(w.last() == v[0]);
        assert(join(w, sep) =~= a + sep + v[0]);
    } else {
        lemma_join_front(a, v.drop_last(), sep);
        assert(join(w, sep) =~= a + sep + join(v, sep));
    }
}

proof fn lemma_split_from(s: Seq<char>, p: Seq<char>, start: int, i: int)
    requires
        p.len() > 0,
        0 <= start <= i <= s.len(),
        forall|j: int| start <= j < i ==> !#[trigger] occurs_at(s, p, j),
    ensures
        split_from(s, p, start, i).len() > 0,
        join(split_from(s, p, start, i), p) == s.skip(start),
        forall|k: int|
            0 <= k < split_from(s, p, start, i).len() ==> !contains(
                #[trigger] split_from(s, p, start, i)[k],
                p,
            ),
    decreases s.len() - i,
{
    let parts = split_from(s, p, start, i);
    if i + p.len() > s.len() {
        let part = s.subrange(start, s.len() as int);
        assert(part =~= s.skip(start));
        assert(!contains(part, p)) by {
            if contains(part, p) {
                let j = choose|j: int| occurs_at(part, p, j);
                assert(s.subrange(start + j, start + j + p.len()) =~= part.subrange(j, j + p.len()));
                assert(occurs_at(s, p, start + j));
            }
        }
    } else if occurs_at(s, p, i) {
        let part = s.subrange(start, i);
        let next = i + p.len();
        let rest = split_from(s, p, next, next);
        lemma_split_from(s, p, next, next);
        lemma_join_front(part, rest, p);
        assert(part + p + s.skip(next) =~= s.skip(start)) by {
            assert(s.subrange(i, next) == p);
            assert(part + s.subrange(i, next) + s.skip(next) =~= s.skip(start));
        }
        assert(!contains(part, p)) by {
            if contains(part, p) {
                let j = choose|j: int| occurs_at(part, p, j);
                assert(s.subrange(start + j, start + j + p.len()) =~= part.subrange(j, j + p.len()));
                assert(occurs_at(s, p, start + j));
            }
        }
        assert forall|k: int| 0 <= k < parts.len() implies !contains(#[trigger] parts[k], p) by {
            if k > 0 {
                assert(parts[k] == rest[k - 1]);
            }
        }
    } else {
        lemma_split_from(s, p, start, i + 1);
    }
}

/// The parts of a text put back together give the text, and no part holds the separator.
pub proof fn all_parts_rejoin(s: Seq<char>, p: Seq<char>)
    requires
        p.len() > 0,
    ensures
        join(split(s, p), p) == s,
        split(s, p).len() > 0,
        forall|k: int| 0 <= k < split(s, p).len() ==> !contains(#[trigger] split(s, p)[k], p),
{
    lemma_split_from(s, p, 0, 0);
    assert(s.skip(0) =~= s);
}

/// Only whitespace is trimmed, and all of it: what is left begins and ends with something else.
pub proof fn trimmed_of_whitespace_only(s: Seq<char>)
    ensures
        exists|k: int|
            0 <= k <= s.len() && trim_start(s) == #[trigger] s.skip(k) && forall|j: int|
                0 <= j < k ==> is_space(#[trigger] s[j]),
        trim_start(s).len() > 0 ==> !is_space(trim_start(s)[0]),
        exists|k: int|
            0 <= k <= s.len() && trim_end(s) == #[trigger] s.take(k) && forall|j: int|
                k <= j < s.len() ==> is_space(#[trigger] s[j]),
        trim_end(s).len() > 0 ==> !is_space(trim_end(s).last()),
        trim(s) == trim_end(trim_start(s)),
    decreases s.len(),
{
    if s.len() > 0 && is_space(s[0]) {
        let t = s.skip(1);
        trimmed_of_whitespace_only(t);
        let k = choose|k: int|
            0 <= k <= t.len() && trim_start(t) == #[trigger] t.skip(k) && forall|j: int|
                0 <= j < k ==> is_space(#[trigger] t[j]);
        assert(s.skip(k + 1) =~= t.skip(k));
        assert forall|j: int| 0 <= j < k + 1 implies is_space(#[trigger] s[j]) by {
            if j > 0 {
                assert(t[j - 1] == s[j]);
            }
        }
    } else {
        assert(s.skip(0) =~= s);
    }
    if s.len() > 0 && is_space(s.last()) {
        let t = s.drop_last();
        trimmed_of_whitespace_only(t);
        let k = choose|k: int|
            0 <= k <= t.len() && trim_end(t) == #[trigger] t.take(k) && forall|j: int|
                k <= j < t.len() ==> is_space(#[trigger] t[j]);
        assert(s.take(k) =~= t.take(k));
        assert forall|j: int| k <= j < s.len() implies is_space(#[trigger] s[j]) by {
            if j < t.len() {
                assert(t[j] == s[j]);
            }
        }
    } else {
        assert(s.take(s.len() as int) =~= s);
    }
}

/// Lower case changes the letters A to Z, each to its small form, and nothing else.
pub proof fn lower_case_changes_capitals_only(s: Seq<char>)
    ensures
        lower(s).len() == s.len(),
        forall|i: int|
            0 <= i < s.len() && !('A' <= #[trigger] s[i] <= 'Z') ==> lower(s)[i] == s[i],
        forall|i: int|
            0 <= i < s.len() && 'A' <= #[trigger] s[i] <= 'Z' ==> lower(s)[i] as u32 == s[i] as u32
                + 32,
        lower(lower(s)) == lower(s),
{
    assert forall|i: int| 0 <= i < s.len() && 'A' <= #[trigger] s[i] <= 'Z' implies lower(
        s,
    )[i] as u32 == s[i] as u32 + 32 by {
        assert(lower(s)[i] == ascii_lower(s[i]));
    }
    assert(lower(lower(s)) =~= lower(s)) by {
        assert forall|i: int| 0 <= i < s.len() implies lower(lower(s))[i] == lower(s)[i] by {
            assert(lower(s)[i] == ascii_lower(s[i]));
        }
    }
}

/// A slug keeps letters and digits and turns every other character into a hyphen.
pub proof fn slug_keeps_letters_and_digits(s: Seq<char>, i: int)
    requires
        0 <= i < s.len(),
    ensures
        slug(s).len() == s.len(),
        'a' <= s[i] <= 'z' || 'A' <= s[i] <= 'Z' || '0' <= s[i] <= '9' ==> slug(s)[i] == s[i],
        !('a' <= s[i] <= 'z' || 'A' <= s[i] <= 'Z' || '0' <= s[i] <= '9') ==> slug(s)[i] == '-',
{
}

/// Replacing changes the one character, everywhere, and nothing else.
pub proof fn replacing_changes_one_character(s: Seq<char>, from: char, to: char, i: int)
    requires
        0 <= i < s.len(),
    ensures
        replace(s, from, to).len() == s.len(),
        s[i] == from ==> replace(s, from, to)[i] == to,
        s[i] != from ==> replace(s, from, to)[i] == s[i],
{
}

/// The number that decimal digits spell.
pub open spec fn spelled(s: Seq<char>) -> int
    decreases s.len(),
{
    if s.len() == 0 {
        0
    } else {
        10 * spelled(s.drop_last()) + (s.last() as int - 48)
    }
}

/// A numeral spells its number, in digits only and without a leading zero.
pub proof fn numerals_spell_their_number(n: nat)
    ensures
        spelled(decimal(n)) == n,
        decimal(n).len() > 0,
        forall|i: int| 0 <= i < decimal(n).len() ==> '0' <= #[trigger] decimal(n)[i] <= '9',
        n > 0 ==> decimal(n)[0] != '0',
    decreases n,
{
    reveal_with_fuel(spelled, 2);
    assert(digit((n % 10) as int) as int == 48 + n % 10);
    if n < 10 {
        assert(decimal(n).drop_last() =~= Seq::empty());
    } else {
        numerals_spell_their_number(n / 10);
        let d = decimal(n / 10);
        assert(d.push(digit((n % 10) as int)).drop_last() =~= d);
        assert(decimal(n)[0] == d[0]);
        assert forall|i: int| 0 <= i < decimal(n).len() implies '0' <= #[trigger] decimal(n)[i] <= '9' by {
            if i < d.len() {
                assert(decimal(n)[i] == d[i]);
            }
        }
    }
}

/// The order of texts is decided by the first character that differs, and a text comes before any
/// that it begins.
pub proof fn first_difference_decides(a: Seq<char>, b: Seq<char>, k: int)
    requires
        0 <= k <= a.len(),
        k <= b.len(),
        forall|j: int| 0 <= j < k ==> #[trigger] a[j] == b[j],
    ensures
        k == a.len() ==> text_le(a, b),
        k == b.len() && k < a.len() ==> !text_le(a, b),
        k < a.len() && k < b.len() && a[k] < b[k] ==> text_le(a, b) && !text_le(b, a),
    decreases k,
{
    if k > 0 {
        assert(a[0] == b[0]);
        let x = a.skip(1);
        let y = b.skip(1);
        assert forall|j: int| 0 <= j < k - 1 implies #[trigger] x[j] == y[j] by {
            assert(a[j + 1] == b[j + 1]);
        }
        first_difference_decides(x, y, k - 1);
    }
}

/// What a text begins with is what it begins with in lower case too, where that is written in lower
/// case and no whitespace leads.
pub proof fn lemma_begins(p: Seq<char>, rest: Seq<char>)
    requires
        p.len() > 0,
        !is_space(p[0]),
        forall|i: int| 0 <= i < p.len() ==> !('A' <= #[trigger] p[i] <= 'Z'),
    ensures
        p.is_prefix_of(lower(trim_start(p + rest))),
{
    let s = p + rest;
    assert(s[0] == p[0]);
    assert(trim_start(s) == s);
    assert(lower(s).take(p.len() as int) =~= p) by {
        assert forall|i: int| 0 <= i < p.len() implies lower(s)[i] == p[i] by {
            assert(s[i] == p[i]);
        }
    }
}

/// A text that was put together around a separator comes apart there, where a character of the
/// separator stands neither in what is in front nor earlier in the separator.
pub proof fn comes_apart_in_front(a: Seq<char>, p: Seq<char>, b: Seq<char>, q: int)
    requires
        0 <= q < p.len(),
        !a.contains(p[q]),
        forall|k: int| 0 <= k < q ==> #[trigger] p[k] != p[q],
    ensures
        split_once(a + p + b, p) == Some((a, b)),
        before(a + p + b, p) == a,
        after(a + p + b, p) == b,
{
    let s = a + p + b;
    let n = a.len() as int;
    assert(s.subrange(n, n + p.len()) =~= p);
    assert(occurs_at(s, p, n));
    found_is_first(s, p);
    match find(s, p) {
        Some(i) => {
            if i < n {
                let sub = s.subrange(i, i + p.len());
                assert(sub[q] == p[q]);
                assert(sub[q] == s[i + q]);
                if i + q < n {
                    assert(s[i + q] == a[i + q]);
                    assert(a.contains(a[i + q]));
                } else {
                    assert(s[i + q] == p[i + q - n]);
                }
            }
            assert(i == n);
        },
        None => {},
    }
    assert(s.take(n) =~= a);
    assert(s.skip(n + p.len()) =~= b);
}

/// A text that was put together around a separator comes apart there from behind, where a character
/// of the separator stands neither in what is behind nor later in the separator.
pub proof fn comes_apart_behind(a: Seq<char>, p: Seq<char>, b: Seq<char>, q: int)
    requires
        0 <= q < p.len(),
        !b.contains(p[q]),
        forall|k: int| q < k < p.len() ==> #[trigger] p[k] != p[q],
    ensures
        rsplit_once(a + p + b, p) == Some((a, b)),
{
    let s = a + p + b;
    let n = a.len() as int;
    assert(s.subrange(n, n + p.len()) =~= p);
    assert(occurs_at(s, p, n));
    found_from_behind_is_last(s, p);
    match rfind(s, p) {
        Some(i) => {
            if i > n {
                let sub = s.subrange(i, i + p.len());
                assert(sub[q] == p[q]);
                assert(sub[q] == s[i + q]);
                if i + q >= n + p.len() {
                    assert(s[i + q] == b[i + q - n - p.len()]);
                    assert(b.contains(b[i + q - n - p.len()]));
                } else {
                    assert(s[i + q] == p[i + q - n]);
                }
            }
            assert(i == n);
        },
        None => {},
    }
    assert(s.take(n) =~= a);
    assert(s.skip(n + p.len()) =~= b);
}

/// A text without a character of the separator does not come apart.
pub proof fn stays_whole(s: Seq<char>, p: Seq<char>, q: int)
    requires
        0 <= q < p.len(),
        !s.contains(p[q]),
    ensures
        split_once(s, p) is None,
        rsplit_once(s, p) is None,
        !contains(s, p),
        p.len() > 0 ==> split(s, p) == seq![s],
{
    assert forall|j: int| !#[trigger] occurs_at(s, p, j) by {
        if occurs_at(s, p, j) {
            let sub = s.subrange(j, j + p.len());
            assert(sub[q] == p[q] && sub[q] == s[j + q]);
            assert(s.contains(s[j + q]));
        }
    }
    found_is_first(s, p);
    found_from_behind_is_last(s, p);
    lemma_split_whole(s, p, 0);
}

proof fn lemma_split_whole(s: Seq<char>, p: Seq<char>, i: int)
    requires
        0 <= i <= s.len(),
        forall|j: int| !#[trigger] occurs_at(s, p, j),
    ensures
        split_from(s, p, 0, i) == seq![s],
    decreases s.len() - i,
{
    assert(s.subrange(0, s.len() as int) =~= s);
    if p.len() > 0 && i + p.len() <= s.len() {
        assert(!occurs_at(s, p, i));
        lemma_split_whole(s, p, i + 1);
    }
}

} // verus!
