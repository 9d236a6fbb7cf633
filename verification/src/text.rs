//! Text as sequences of characters: the operations the view models are written with.
//!
//! A `str` or `String` is modelled by its view, a `Seq<char>`. Each operation has a
//! specification over such sequences and an executable function that is proved to compute it.

use vstd::prelude::*;
use vstd::string::*;

verus! {

broadcast use vstd::seq::group_seq_axioms;

/// `String::push`: appends one character to the string.
pub assume_specification[ String::push ](s: &mut String, ch: char)
    ensures
        final(s)@ == old(s)@.push(ch),
;

// ---------------------------------------------------------------------------
// Characters of a text
// ---------------------------------------------------------------------------

/// The characters of `s`, in order.
pub fn chars_of(s: &str) -> (r: Vec<char>)
    ensures
        r@ == s@,
{
    let mut r: Vec<char> = Vec::new();
    for c in it: s.chars()
        invariant
            it.seq() == s@,
            r@ == s@.take(it.index() as int),
    {
        r.push(c);
        assert(r@ == s@.take(it.index() as int + 1));
    }
    assert(s@.take(s@.len() as int) == s@);
    r
}

/// The text with exactly the characters `cs[from..to]`.
pub fn text_of(cs: &Vec<char>, from: usize, to: usize) -> (r: String)
    requires
        from <= to <= cs.len(),
    ensures
        r@ == cs@.subrange(from as int, to as int),
{
    let mut r = String::new();
    let mut i: usize = from;
    while i < to
        invariant
            from <= i <= to <= cs.len(),
            r@ == cs@.subrange(from as int, i as int),
        decreases to - i,
    {
        r.push(cs[i]);
        i += 1;
        assert(r@ =~= cs@.subrange(from as int, i as int));
    }
    r
}

/// Whether two texts hold the same characters.
pub fn same(a: &str, b: &str) -> (r: bool)
    ensures
        r == (a@ == b@),
{
    let x = chars_of(a);
    let y = chars_of(b);
    if x.len() != y.len() {
        return false;
    }
    let mut i: usize = 0;
    while i < x.len()
        invariant
            i <= x.len() == y.len(),
            x@ == a@,
            y@ == b@,
            forall|k: int| 0 <= k < i ==> x@[k] == y@[k],
        decreases x.len() - i,
    {
        if x[i] != y[i] {
            assert(a@[i as int] != b@[i as int]);
            return false;
        }
        i += 1;
    }
    assert(a@ =~= b@);
    true
}

// ---------------------------------------------------------------------------
// Finding and splitting
// ---------------------------------------------------------------------------

/// The views of a sequence of strings.
pub open spec fn texts(v: Seq<String>) -> Seq<Seq<char>> {
    v.map_values(|s: String| s@)
}

/// The view of an optional string.
pub open spec fn opt_text(o: Option<String>) -> Option<Seq<char>> {
    match o {
        Some(s) => Some(s@),
        None => None,
    }
}

/// The view of an optional string slice.
pub open spec fn opt_str(o: Option<&str>) -> Option<Seq<char>> {
    match o {
        Some(s) => Some(s@),
        None => None,
    }
}

/// `p` stands in `s` at position `i`.
pub open spec fn occurs_at(s: Seq<char>, p: Seq<char>, i: int) -> bool {
    0 <= i && i + p.len() <= s.len() && s.subrange(i, i + p.len()) == p
}

/// `p` stands somewhere in `s`.
pub open spec fn contains(s: Seq<char>, p: Seq<char>) -> bool {
    exists|i: int| occurs_at(s, p, i)
}

/// The first position at or after `i` where `p` stands in `s`.
pub open spec fn find_from(s: Seq<char>, p: Seq<char>, i: int) -> Option<int>
    decreases s.len() + 1 - i,
{
    if i + p.len() > s.len() {
        None
    } else if occurs_at(s, p, i) {
        Some(i)
    } else {
        find_from(s, p, i + 1)
    }
}

/// The first position where `p` stands in `s`.
pub open spec fn find(s: Seq<char>, p: Seq<char>) -> Option<int> {
    find_from(s, p, 0)
}

/// The last position at or before `i` where `p` stands in `s`.
pub open spec fn rfind_from(s: Seq<char>, p: Seq<char>, i: int) -> Option<int>
    decreases i + 1,
{
    if i < 0 {
        None
    } else if occurs_at(s, p, i) {
        Some(i)
    } else {
        rfind_from(s, p, i - 1)
    }
}

/// The last position where `p` stands in `s`.
pub open spec fn rfind(s: Seq<char>, p: Seq<char>) -> Option<int> {
    rfind_from(s, p, s.len() - p.len())
}

/// The parts of `s` before and after the first `p`.
pub open spec fn split_once(s: Seq<char>, p: Seq<char>) -> Option<(Seq<char>, Seq<char>)> {
    match find(s, p) {
        Some(i) => Some((s.take(i), s.skip(i + p.len()))),
        None => None,
    }
}

/// The parts of `s` before and after the last `p`.
pub open spec fn rsplit_once(s: Seq<char>, p: Seq<char>) -> Option<(Seq<char>, Seq<char>)> {
    match rfind(s, p) {
        Some(i) => Some((s.take(i), s.skip(i + p.len()))),
        None => None,
    }
}

/// The parts of `s` from position `start` on that the occurrences of `p` at or after `i` separate.
pub open spec fn split_from(s: Seq<char>, p: Seq<char>, start: int, i: int) -> Seq<Seq<char>>
    decreases s.len() - i,
{
    if p.len() == 0 || i + p.len() > s.len() {
        seq![s.subrange(start, s.len() as int)]
    } else if occurs_at(s, p, i) {
        seq![s.subrange(start, i)] + split_from(s, p, i + p.len(), i + p.len())
    } else {
        split_from(s, p, start, i + 1)
    }
}

/// The parts of `s` that a non-empty separator `p` separates, empty parts kept.
pub open spec fn split(s: Seq<char>, p: Seq<char>) -> Seq<Seq<char>> {
    split_from(s, p, 0, 0)
}

/// `s` without the leading `p`, where it leads.
pub open spec fn strip_prefix(s: Seq<char>, p: Seq<char>) -> Option<Seq<char>> {
    if p.is_prefix_of(s) {
        Some(s.skip(p.len() as int))
    } else {
        None
    }
}

/// The one-character text.
pub open spec fn one(c: char) -> Seq<char> {
    seq![c]
}

/// Whether `p` stands in `s` at position `i`.
fn occurs_here(s: &Vec<char>, p: &Vec<char>, i: usize) -> (r: bool)
    ensures
        r == occurs_at(s@, p@, i as int),
{
    if p.len() > s.len() || i > s.len() - p.len() {
        return false;
    }
    let mut k: usize = 0;
    while k < p.len()
        invariant
            k <= p.len(),
            i + p.len() <= s.len(),
            forall|j: int| 0 <= j < k ==> s@[i + j] == p@[j],
        decreases p.len() - k,
    {
        if s[i + k] != p[k] {
            assert(s@.subrange(i as int, i + p.len())[k as int] != p@[k as int]);
            return false;
        }
        k += 1;
    }
    assert(s@.subrange(i as int, i + p.len()) =~= p@);
    true
}

/// The first position at or after `from` where `p` stands in `s`.
pub fn find_chars(s: &Vec<char>, p: &Vec<char>, from: usize) -> (r: Option<usize>)
    ensures
        r matches Some(i) ==> find_from(s@, p@, from as int) == Some(i as int) && from <= i && i
            + p.len() <= s.len(),
        r is None ==> find_from(s@, p@, from as int) is None,
{
    if p.len() > s.len() || from > s.len() - p.len() {
        return None;
    }
    let last: usize = s.len() - p.len();
    let mut i: usize = from;
    loop
        invariant
            from <= i <= last,
            last == s.len() - p.len(),
            find_from(s@, p@, from as int) == find_from(s@, p@, i as int),
        decreases last - i,
    {
        if occurs_here(s, p, i) {
            return Some(i);
        }
        if i == last {
            assert(find_from(s@, p@, i + 1) is None);
            return None;
        }
        i += 1;
    }
}

/// The last position where `p` stands in `s`.
pub fn rfind_chars(s: &Vec<char>, p: &Vec<char>) -> (r: Option<usize>)
    ensures
        r matches Some(i) ==> rfind(s@, p@) == Some(i as int) && i + p.len() <= s.len(),
        r is None ==> rfind(s@, p@) is None,
{
    if p.len() > s.len() {
        return None;
    }
    let mut i: usize = s.len() - p.len();
    loop
        invariant
            i <= s.len() - p.len(),
            rfind(s@, p@) == rfind_from(s@, p@, i as int),
        decreases i,
    {
        if occurs_here(s, p, i) {
            return Some(i);
        }
        if i == 0 {
            assert(rfind_from(s@, p@, -1) is None);
            return None;
        }
        i -= 1;
    }
}

/// Whether `p` stands somewhere in `s`.
pub fn has(s: &str, p: &str) -> (r: bool)
    ensures
        r == contains(s@, p@),
{
    let cs = chars_of(s);
    let ps = chars_of(p);
    match find_chars(&cs, &ps, 0) {
        Some(i) => {
            proof {
                lemma_find_from(s@, p@, 0);
            }
            true
        },
        None => {
            proof {
                lemma_find_from(s@, p@, 0);
            }
            false
        },
    }
}

/// What `find_from` gives: an occurrence with none between, or none at all.
pub proof fn lemma_find_from(s: Seq<char>, p: Seq<char>, i: int)
    requires
        0 <= i,
    ensures
        find_from(s, p, i) matches Some(k) ==> i <= k && occurs_at(s, p, k) && forall|j: int|
            i <= j < k ==> !occurs_at(s, p, j),
        find_from(s, p, i) is None ==> forall|j: int| i <= j ==> !occurs_at(s, p, j),
    decreases s.len() + 1 - i,
{
    if i + p.len() <= s.len() && !occurs_at(s, p, i) {
        lemma_find_from(s, p, i + 1);
    }
}

/// Whether `p` leads `s`.
pub fn leads(s: &str, p: &str) -> (r: bool)
    ensures
        r == p@.is_prefix_of(s@),
{
    let cs = chars_of(s);
    let ps = chars_of(p);
    let r = occurs_here(&cs, &ps, 0);
    assert(p@.len() <= s@.len() ==> s@.subrange(0, p@.len() as int) =~= s@.take(p@.len() as int));
    assert(p@.is_prefix_of(s@) == occurs_at(s@, p@, 0));
    r
}

/// `s` without the leading `p`, where it leads.
pub fn without_prefix(s: &str, p: &str) -> (r: Option<String>)
    ensures
        opt_text(r) == strip_prefix(s@, p@),
{
    if leads(s, p) {
        let cs = chars_of(s);
        let n = p.unicode_len();
        let t = text_of(&cs, n, cs.len());
        assert(t@ =~= s@.skip(p@.len() as int));
        Some(t)
    } else {
        None
    }
}

/// The parts of `s` before and after the first `p`.
pub fn cut(s: &str, p: &str) -> (r: Option<(String, String)>)
    ensures
        r matches Some(t) ==> split_once(s@, p@) == Some((t.0@, t.1@)),
        r is None ==> split_once(s@, p@) is None,
{
    let cs = chars_of(s);
    let ps = chars_of(p);
    match find_chars(&cs, &ps, 0) {
        Some(i) => {
            let a = text_of(&cs, 0, i);
            let b = text_of(&cs, i + ps.len(), cs.len());
            assert(a@ =~= s@.take(i as int));
            assert(b@ =~= s@.skip(i + p@.len()));
            Some((a, b))
        },
        None => None,
    }
}

/// The parts of `s` before and after the last `p`.
pub fn rcut(s: &str, p: &str) -> (r: Option<(String, String)>)
    ensures
        r matches Some(t) ==> rsplit_once(s@, p@) == Some((t.0@, t.1@)),
        r is None ==> rsplit_once(s@, p@) is None,
{
    let cs = chars_of(s);
    let ps = chars_of(p);
    match rfind_chars(&cs, &ps) {
        Some(i) => {
            let a = text_of(&cs, 0, i);
            let b = text_of(&cs, i + ps.len(), cs.len());
            assert(a@ =~= s@.take(i as int));
            assert(b@ =~= s@.skip(i + p@.len()));
            Some((a, b))
        },
        None => None,
    }
}

/// The parts of `s` that the non-empty separator `p` separates.
pub fn parts(s: &str, p: &str) -> (r: Vec<String>)
    requires
        p@.len() > 0,
    ensures
        texts(r@) == split(s@, p@),
        r.len() >= 1,
{
    let cs = chars_of(s);
    let ps = chars_of(p);
    let mut r: Vec<String> = Vec::new();
    let mut start: usize = 0;
    let mut i: usize = 0;
    while ps.len() <= cs.len() && i <= cs.len() - ps.len()
        invariant
            cs@ == s@,
            ps@ == p@,
            ps.len() > 0,
            start <= i <= cs.len(),
            split(s@, p@) == texts(r@) + split_from(s@, p@, start as int, i as int),
        decreases cs.len() - i,
    {
        if occurs_here(&cs, &ps, i) {
            let ghost before = r@;
            r.push(text_of(&cs, start, i));
            assert(texts(r@) =~= texts(before).push(s@.subrange(start as int, i as int)));
            assert(texts(r@) + split_from(s@, p@, i + p@.len(), i + p@.len()) =~= texts(before) + (
            seq![s@.subrange(start as int, i as int)] + split_from(
                s@,
                p@,
                i + p@.len(),
                i + p@.len(),
            )));
            i += ps.len();
            start = i;
        } else {
            i += 1;
        }
    }
    let ghost before = r@;
    r.push(text_of(&cs, start, cs.len()));
    assert(texts(r@) =~= texts(before) + seq![s@.subrange(start as int, s@.len() as int)]);
    r
}

/// The `n`-th of the parts of `s` that the non-empty separator `p` separates.
pub fn part<'a>(s: &'a str, p: &str, n: usize) -> (r: Option<&'a str>)
    requires
        p@.len() > 0,
    ensures
        r matches Some(t) ==> n < split(s@, p@).len() && t@ == split(s@, p@)[n as int],
        r is None ==> n >= split(s@, p@).len(),
{
    let cs = chars_of(s);
    let ps = chars_of(p);
    let ghost mut done: Seq<Seq<char>> = Seq::empty();
    let mut k: usize = 0;
    let mut start: usize = 0;
    let mut i: usize = 0;
    assert(done + split_from(s@, p@, 0, 0) =~= split(s@, p@));
    while ps.len() <= cs.len() && i <= cs.len() - ps.len()
        invariant
            cs@ == s@,
            ps@ == p@,
            ps.len() > 0,
            start <= i <= cs.len(),
            done.len() == k <= n,
            k <= i,
            split(s@, p@) == done + split_from(s@, p@, start as int, i as int),
        decreases cs.len() - i,
    {
        if occurs_here(&cs, &ps, i) {
            let ghost here = s@.subrange(start as int, i as int);
            proof {
                let rest = split_from(s@, p@, i + p@.len(), i + p@.len());
                assert(done + (seq![here] + rest) =~= done.push(here) + rest);
                assert(split(s@, p@)[k as int] == here);
            }
            if k == n {
                return Some(s.substring_char(start, i));
            }
            proof {
                done = done.push(here);
            }
            k += 1;
            i += ps.len();
            start = i;
        } else {
            i += 1;
        }
    }
    assert(split(s@, p@) =~= done.push(s@.subrange(start as int, s@.len() as int)));
    if k == n {
        Some(s.substring_char(start, cs.len()))
    } else {
        None
    }
}

/// The text up to the first `p`, or the whole text where there is none.
pub open spec fn before(s: Seq<char>, p: Seq<char>) -> Seq<char> {
    match split_once(s, p) {
        Some(t) => t.0,
        None => s,
    }
}

/// The text behind the first `p`, or the whole text where there is none.
pub open spec fn after(s: Seq<char>, p: Seq<char>) -> Seq<char> {
    match split_once(s, p) {
        Some(t) => t.1,
        None => s,
    }
}

/// The text up to the first `p`, or the whole text.
pub fn head<'a>(s: &'a str, p: &str) -> (r: &'a str)
    ensures
        r@ == before(s@, p@),
{
    let cs = chars_of(s);
    let ps = chars_of(p);
    match find_chars(&cs, &ps, 0) {
        Some(i) => {
            assert(s@.subrange(0, i as int) =~= s@.take(i as int));
            s.substring_char(0, i)
        },
        None => s,
    }
}

/// The text behind the first `p`, or the whole text.
pub fn tail<'a>(s: &'a str, p: &str) -> (r: &'a str)
    ensures
        r@ == after(s@, p@),
{
    let cs = chars_of(s);
    let ps = chars_of(p);
    match find_chars(&cs, &ps, 0) {
        Some(i) => {
            assert(s@.subrange(i + p@.len(), s@.len() as int) =~= s@.skip(i + p@.len()));
            s.substring_char(i + ps.len(), cs.len())
        },
        None => s,
    }
}

// ---------------------------------------------------------------------------
// Whitespace, case, joining, numbers
// ---------------------------------------------------------------------------

/// The characters with the Unicode `White_Space` property.
pub open spec fn is_space(c: char) -> bool {
    ||| '\u{9}' <= c <= '\u{d}'
    ||| c == ' '
    ||| c == '\u{85}'
    ||| c == '\u{a0}'
    ||| c == '\u{1680}'
    ||| '\u{2000}' <= c <= '\u{200a}'
    ||| c == '\u{2028}'
    ||| c == '\u{2029}'
    ||| c == '\u{202f}'
    ||| c == '\u{205f}'
    ||| c == '\u{3000}'
}

/// `s` without its leading whitespace.
pub open spec fn trim_start(s: Seq<char>) -> Seq<char>
    decreases s.len(),
{
    if s.len() > 0 && is_space(s[0]) {
        trim_start(s.skip(1))
    } else {
        s
    }
}

/// `s` without its trailing whitespace.
pub open spec fn trim_end(s: Seq<char>) -> Seq<char>
    decreases s.len(),
{
    if s.len() > 0 && is_space(s.last()) {
        trim_end(s.drop_last())
    } else {
        s
    }
}

/// `s` without leading and trailing whitespace.
pub open spec fn trim(s: Seq<char>) -> Seq<char> {
    trim_end(trim_start(s))
}

/// The lower-case form of an ASCII letter; any other character is itself.
pub open spec fn ascii_lower(c: char) -> char {
    if 'A' <= c <= 'Z' {
        ((c as u32) + 32) as char
    } else {
        c
    }
}

/// `s` with its ASCII letters in lower case.
pub open spec fn lower(s: Seq<char>) -> Seq<char> {
    s.map_values(|c: char| ascii_lower(c))
}

/// An ASCII letter or digit.
pub open spec fn is_alnum(c: char) -> bool {
    'a' <= c <= 'z' || 'A' <= c <= 'Z' || '0' <= c <= '9'
}

/// `s` with every character that is no ASCII letter or digit replaced by a hyphen.
pub open spec fn slug(s: Seq<char>) -> Seq<char> {
    s.map_values(
        |c: char|
            if is_alnum(c) {
                c
            } else {
                '-'
            },
    )
}

/// `s` with every `from` replaced by `to`.
pub open spec fn replace(s: Seq<char>, from: char, to: char) -> Seq<char> {
    s.map_values(
        |c: char|
            if c == from {
                to
            } else {
                c
            },
    )
}

/// The parts, in order, with `sep` between them.
pub open spec fn join(v: Seq<Seq<char>>, sep: Seq<char>) -> Seq<char>
    decreases v.len(),
{
    if v.len() == 0 {
        Seq::empty()
    } else if v.len() == 1 {
        v[0]
    } else {
        join(v.drop_last(), sep) + sep + v.last()
    }
}

/// The decimal digit of a number below ten.
pub open spec fn digit(d: int) -> char {
    ((48 + d) as u32) as char
}

/// The decimal numeral of `n`.
pub open spec fn decimal(n: nat) -> Seq<char>
    decreases n,
{
    if n < 10 {
        one(digit(n as int))
    } else {
        decimal(n / 10).push(digit((n % 10) as int))
    }
}

fn is_space_char(c: char) -> (r: bool)
    ensures
        r == is_space(c),
{
    ('\u{9}' <= c && c <= '\u{d}') || c == ' ' || c == '\u{85}' || c == '\u{a0}' || c == '\u{1680}' || (
    '\u{2000}' <= c && c <= '\u{200a}') || c == '\u{2028}' || c == '\u{2029}' || c == '\u{202f}' || c
        == '\u{205f}' || c == '\u{3000}'
}

/// Whether `c` is an ASCII letter or digit.
pub fn is_alnum_char(c: char) -> (r: bool)
    ensures
        r == is_alnum(c),
{
    ('a' <= c && c <= 'z') || ('A' <= c && c <= 'Z') || ('0' <= c && c <= '9')
}

/// The first position of `cs` that holds no whitespace, or its end.
fn skip_spaces(cs: &Vec<char>) -> (r: usize)
    ensures
        r <= cs.len(),
        trim_start(cs@) == cs@.skip(r as int),
{
    let mut i: usize = 0;
    assert(cs@.skip(0) =~= cs@);
    while i < cs.len() && is_space_char(cs[i])
        invariant
            i <= cs.len(),
            trim_start(cs@) == trim_start(cs@.skip(i as int)),
        decreases cs.len() - i,
    {
        assert(cs@.skip(i as int).skip(1) =~= cs@.skip(i + 1));
        i += 1;
    }
    i
}

/// `s` without its leading whitespace.
pub fn trimmed_start(s: &str) -> (r: String)
    ensures
        r@ == trim_start(s@),
{
    let cs = chars_of(s);
    let a = skip_spaces(&cs);
    assert(cs@.subrange(a as int, cs@.len() as int) =~= cs@.skip(a as int));
    text_of(&cs, a, cs.len())
}

/// `s` without leading and trailing whitespace.
pub fn trimmed(s: &str) -> (r: String)
    ensures
        r@ == trim(s@),
{
    let cs = chars_of(s);
    let a = skip_spaces(&cs);
    let mut b: usize = cs.len();
    assert(cs@.subrange(a as int, cs@.len() as int) =~= cs@.skip(a as int));
    while a < b && is_space_char(cs[b - 1])
        invariant
            a <= b <= cs.len(),
            trim(cs@) == trim_end(cs@.subrange(a as int, b as int)),
        decreases b,
    {
        assert(cs@.subrange(a as int, b as int).drop_last() =~= cs@.subrange(a as int, b - 1));
        b -= 1;
    }
    text_of(&cs, a, b)
}

/// `s` without its trailing whitespace.
pub fn trimmed_end(s: &str) -> (r: String)
    ensures
        r@ == trim_end(s@),
{
    let cs = chars_of(s);
    let mut b: usize = cs.len();
    assert(cs@.take(cs@.len() as int) =~= cs@);
    while 0 < b && is_space_char(cs[b - 1])
        invariant
            b <= cs.len(),
            trim_end(cs@) == trim_end(cs@.take(b as int)),
        decreases b,
    {
        assert(cs@.take(b as int).drop_last() =~= cs@.take(b - 1));
        b -= 1;
    }
    assert(cs@.subrange(0, b as int) =~= cs@.take(b as int));
    text_of(&cs, 0, b)
}

/// `s` with its ASCII letters in lower case.
pub fn lowered(s: &str) -> (r: String)
    ensures
        r@ == lower(s@),
{
    let cs = chars_of(s);
    let mut r = String::new();
    let mut i: usize = 0;
    while i < cs.len()
        invariant
            cs@ == s@,
            i <= cs.len(),
            r@ == lower(s@.take(i as int)),
        decreases cs.len() - i,
    {
        let c = cs[i];
        if 'A' <= c && c <= 'Z' {
            r.push((c as u8 + 32) as char);
        } else {
            r.push(c);
        }
        i += 1;
        assert(r@ =~= lower(s@.take(i as int)));
    }
    assert(s@.take(s@.len() as int) =~= s@);
    r
}

/// `s` with every character that is no ASCII letter or digit replaced by a hyphen.
pub fn slugged(s: &str) -> (r: String)
    ensures
        r@ == slug(s@),
{
    let cs = chars_of(s);
    let mut r = String::new();
    let mut i: usize = 0;
    while i < cs.len()
        invariant
            cs@ == s@,
            i <= cs.len(),
            r@ == slug(s@.take(i as int)),
        decreases cs.len() - i,
    {
        if is_alnum_char(cs[i]) {
            r.push(cs[i]);
        } else {
            r.push('-');
        }
        i += 1;
        assert(r@ =~= slug(s@.take(i as int)));
    }
    assert(s@.take(s@.len() as int) =~= s@);
    r
}

/// `s` with every `from` replaced by `to`.
pub fn replaced(s: &str, from: char, to: char) -> (r: String)
    ensures
        r@ == replace(s@, from, to),
{
    let cs = chars_of(s);
    let mut r = String::new();
    let mut i: usize = 0;
    while i < cs.len()
        invariant
            cs@ == s@,
            i <= cs.len(),
            r@ == replace(s@.take(i as int), from, to),
        decreases cs.len() - i,
    {
        if cs[i] == from {
            r.push(to);
        } else {
            r.push(cs[i]);
        }
        i += 1;
        assert(r@ =~= replace(s@.take(i as int), from, to));
    }
    assert(s@.take(s@.len() as int) =~= s@);
    r
}

/// The parts, in order, with `sep` between them.
pub fn joined(v: &Vec<String>, sep: &str) -> (r: String)
    ensures
        r@ == join(texts(v@), sep@),
{
    let mut r = String::new();
    let mut i: usize = 0;
    while i < v.len()
        invariant
            i <= v.len(),
            r@ == join(texts(v@).take(i as int), sep@),
        decreases v.len() - i,
    {
        let ghost before = r@;
        assert(texts(v@).take(i + 1).drop_last() =~= texts(v@).take(i as int));
        assert(texts(v@).take(i + 1).last() == v@[i as int]@);
        if i > 0 {
            r.append(sep);
            r.append(v[i].as_str());
        } else {
            r.append(v[i].as_str());
            assert(r@ =~= v@[0]@);
        }
        i += 1;
    }
    assert(texts(v@).take(v@.len() as int) =~= texts(v@));
    r
}

/// The decimal digit of a number below ten.
fn digit_char(d: u64) -> (r: char)
    requires
        d < 10,
    ensures
        r == digit(d as int),
{
    (48 + d as u8) as char
}

/// The decimal numeral of `n`.
pub fn number(n: u64) -> (r: String)
    ensures
        r@ == decimal(n as nat),
    decreases n,
{
    if n < 10 {
        let mut r = String::new();
        r.push(digit_char(n));
        assert(r@ =~= one(digit(n as int)));
        r
    } else {
        let mut r = number(n / 10);
        r.push(digit_char(n % 10));
        r
    }
}

// ---------------------------------------------------------------------------
// Order
// ---------------------------------------------------------------------------

/// Lexicographic order by code point, which is the order of `str`.
pub open spec fn text_le(a: Seq<char>, b: Seq<char>) -> bool
    decreases a.len(),
{
    if a.len() == 0 {
        true
    } else if b.len() == 0 {
        false
    } else if a[0] != b[0] {
        a[0] < b[0]
    } else {
        text_le(a.skip(1), b.skip(1))
    }
}

/// Strictly before in the lexicographic order.
pub open spec fn text_lt(a: Seq<char>, b: Seq<char>) -> bool {
    text_le(a, b) && a != b
}

/// The order is total, and only equal texts precede each other both ways.
pub proof fn lemma_text_le_total(a: Seq<char>, b: Seq<char>)
    ensures
        text_le(a, b) || text_le(b, a),
        text_le(a, b) && text_le(b, a) ==> a == b,
    decreases a.len(),
{
    if a.len() == 0 {
        if b.len() == 0 {
            assert(a =~= b);
        }
    } else if b.len() == 0 {
    } else if a[0] == b[0] {
        lemma_text_le_total(a.skip(1), b.skip(1));
        if text_le(a, b) && text_le(b, a) {
            assert(a =~= seq![a[0]] + a.skip(1));
            assert(b =~= seq![b[0]] + b.skip(1));
        }
    }
}

/// The order is transitive.
pub proof fn lemma_text_le_trans(a: Seq<char>, b: Seq<char>, c: Seq<char>)
    requires
        text_le(a, b),
        text_le(b, c),
    ensures
        text_le(a, c),
    decreases a.len(),
{
    if a.len() > 0 && b.len() > 0 && c.len() > 0 && a[0] == b[0] && b[0] == c[0] {
        lemma_text_le_trans(a.skip(1), b.skip(1), c.skip(1));
    }
}

/// Whether `a` comes before `b` in the order of `str`, or is the same text.
pub fn at_most(a: &str, b: &str) -> (r: bool)
    ensures
        r == text_le(a@, b@),
{
    let x = chars_of(a);
    let y = chars_of(b);
    let mut i: usize = 0;
    assert(x@.skip(0) =~= x@ && y@.skip(0) =~= y@);
    loop
        invariant
            x@ == a@,
            y@ == b@,
            i <= x.len(),
            i <= y.len(),
            text_le(a@, b@) == text_le(x@.skip(i as int), y@.skip(i as int)),
        decreases x.len() - i,
    {
        if i == x.len() {
            return true;
        }
        if i == y.len() {
            return false;
        }
        if x[i] != y[i] {
            return x[i] < y[i];
        }
        assert(x@.skip(i as int).skip(1) =~= x@.skip(i + 1));
        assert(y@.skip(i as int).skip(1) =~= y@.skip(i + 1));
        i += 1;
    }
}

} // verus!
