//! The words of the endpoint table: postures, tiers, relations and counts.

use crate::text;
use vstd::prelude::*;
use vstd::string::*;

verus! {

/// The disposition of a cut that arming would apply.
pub open spec fn auto_eligible() -> Seq<char> {
    "auto-eligible"@
}

/// The model's own words affirm exploitability: they begin with `exploitable`.
pub open spec fn flags(verdict: Option<Seq<char>>) -> bool {
    verdict matches Some(v) && "exploitable"@.is_prefix_of(text::lower(text::trim_start(v)))
}

/// Whether the model affirmed exploitability.
pub fn flagged(verdict: Option<&str>) -> (r: bool)
    ensures
        r == flags(text::opt_str(verdict)),
{
    match verdict {
        Some(v) => {
            let t = text::trimmed_start(v);
            let l = text::lowered(t.as_str());
            text::leads(l.as_str(), "exploitable")
        },
        None => false,
    }
}

/// What a verdict says: only the model's own affirmation is a breach.
#[derive(Debug, Clone, Copy, PartialEq, Eq, Structural)]
pub enum Posture {
    Breach,
    /// The model has judged the entry, and did not affirm a breach.
    Safe,
    /// The model has not judged the entry yet.
    Awaiting,
}

impl Posture {
    /// The posture of the model's words, or of none.
    pub open spec fn of_words(verdict: Option<Seq<char>>) -> Posture {
        if verdict is None {
            Posture::Awaiting
        } else if flags(verdict) {
            Posture::Breach
        } else {
            Posture::Safe
        }
    }

    /// The posture of the model's words, or of none.
    pub fn of(verdict: Option<&str>) -> (r: Self)
        ensures
            r == Posture::of_words(text::opt_str(verdict)),
    {
        match verdict {
            None => Posture::Awaiting,
            Some(v) => if flagged(Some(v)) {
                Posture::Breach
            } else {
                Posture::Safe
            },
        }
    }

    /// The chip's text.
    pub open spec fn label_text(self) -> Seq<char> {
        match self {
            Posture::Breach => "[BREACH]"@,
            Posture::Safe => "[SAFE]"@,
            Posture::Awaiting => "[awaiting judgement]"@,
        }
    }

    /// The chip's text.
    pub fn label(self) -> (r: &'static str)
        ensures
            r@ == self.label_text(),
    {
        match self {
            Posture::Breach => "[BREACH]",
            Posture::Safe => "[SAFE]",
            Posture::Awaiting => "[awaiting judgement]",
        }
    }

    /// The chip's style class.
    pub open spec fn tone_text(self) -> Seq<char> {
        match self {
            Posture::Breach => "chip-breach"@,
            Posture::Safe => "chip-safe"@,
            Posture::Awaiting => "chip-awaiting"@,
        }
    }

    /// The chip's style class.
    pub fn tone(self) -> (r: &'static str)
        ensures
            r@ == self.tone_text(),
    {
        match self {
            Posture::Breach => "chip-breach",
            Posture::Safe => "chip-safe",
            Posture::Awaiting => "chip-awaiting",
        }
    }
}

/// How much attention a row asks for.
#[derive(Debug, Clone, Copy, PartialEq, Eq, PartialOrd, Ord, Structural)]
pub enum Tier {
    /// The model judged it a breach.
    Flagged,
    /// Worth a look: a latent foothold with a cited CVE, or a corroborated chain.
    Watch,
    /// Everything else that is proven reachable.
    Context,
}

impl Tier {
    /// The tier's label.
    pub fn label(self) -> (r: &'static str)
        ensures
            r@ == (match self {
                Tier::Flagged => "flagged"@,
                Tier::Watch => "watch"@,
                Tier::Context => "context"@,
            }),
    {
        match self {
            Tier::Flagged => "flagged",
            Tier::Watch => "watch",
            Tier::Context => "context",
        }
    }

    /// The tier's style class.
    pub fn chip_class(self) -> (r: &'static str)
        ensures
            r@ == (match self {
                Tier::Flagged => "tier-flagged"@,
                Tier::Watch => "tier-watch"@,
                Tier::Context => "tier-context"@,
            }),
    {
        match self {
            Tier::Flagged => "tier-flagged",
            Tier::Watch => "tier-watch",
            Tier::Context => "tier-context",
        }
    }
}

/// A relation as an edge label: how a hop works.
pub open spec fn relation_text(rel: Seq<char>) -> Seq<char> {
    if rel == "can-read"@ {
        "mounts (direct read)"@
    } else if "can-do/"@.is_prefix_of(rel) {
        "RBAC "@ + text::replace(rel.skip("can-do/"@.len() as int), '/', ' ') + " (API)"@
    } else if "escapes-to/"@.is_prefix_of(rel) {
        "escapes via "@ + rel.skip("escapes-to/"@.len() as int)
    } else if "can-egress"@.is_prefix_of(rel) {
        "internet egress (exfil)"@
    } else if "reaches"@.is_prefix_of(rel) {
        "network reach"@
    } else if rel == "runs-as"@ {
        "runs as"@
    } else {
        rel
    }
}

/// A relation as an edge label: how a hop works.
pub fn humanize_relation(rel: &str) -> (r: String)
    ensures
        r@ == relation_text(rel@),
{
    if text::same(rel, "can-read") {
        return "mounts (direct read)".to_string();
    }
    match text::without_prefix(rel, "can-do/") {
        Some(rest) => {
            return "RBAC ".to_string().concat(
                text::replaced(rest.as_str(), '/', ' ').as_str(),
            ).concat(" (API)");
        },
        None => {},
    }
    match text::without_prefix(rel, "escapes-to/") {
        Some(via) => {
            return "escapes via ".to_string().concat(via.as_str());
        },
        None => {},
    }
    if text::leads(rel, "can-egress") {
        return "internet egress (exfil)".to_string();
    }
    if text::leads(rel, "reaches") {
        return "network reach".to_string();
    }
    if text::same(rel, "runs-as") {
        return "runs as".to_string();
    }
    rel.to_string()
}

/// A relation in the clause `reaches ... via ...`: what authorizes it.
pub open spec fn reach_text(rel: Seq<char>) -> Seq<char> {
    if rel == "can-read"@ {
        "a mounted secret"@
    } else if "can-do/"@.is_prefix_of(rel) {
        "authorized RBAC"@
    } else if "escapes-to/"@.is_prefix_of(rel) {
        "a "@ + rel.skip("escapes-to/"@.len() as int) + " escape"@
    } else if "reaches"@.is_prefix_of(rel) {
        "network reach"@
    } else {
        relation_text(rel)
    }
}

/// A relation in the clause `reaches ... via ...`.
pub fn reach_relation_phrase(rel: &str) -> (r: String)
    ensures
        r@ == reach_text(rel@),
{
    if text::same(rel, "can-read") {
        return "a mounted secret".to_string();
    }
    if text::leads(rel, "can-do/") {
        return "authorized RBAC".to_string();
    }
    match text::without_prefix(rel, "escapes-to/") {
        Some(via) => {
            return "a ".to_string().concat(via.as_str()).concat(" escape");
        },
        None => {},
    }
    if text::leads(rel, "reaches") {
        return "network reach".to_string();
    }
    humanize_relation(rel)
}

/// A kind of node, in the plural but for one.
pub open spec fn plural_text(kind: Seq<char>, n: int) -> Seq<char> {
    if n == 1 {
        kind
    } else if kind == "capability"@ {
        "capabilities"@
    } else if kind == "identity"@ {
        "identities"@
    } else {
        kind + "s"@
    }
}

/// A kind of node, in the plural but for one.
pub fn plural(kind: &str, n: usize) -> (r: String)
    ensures
        r@ == plural_text(kind@, n as int),
{
    if n == 1 {
        return kind.to_string();
    }
    if text::same(kind, "capability") {
        "capabilities".to_string()
    } else if text::same(kind, "identity") {
        "identities".to_string()
    } else {
        kind.to_string().concat("s")
    }
}

/// The reach of an entry counts as broad from this many objectives on.
pub const BROAD_REACH: usize = 20;

/// Whether an entry's reach is broad.
pub fn is_broad(objectives: usize) -> (r: bool)
    ensures
        r == (objectives >= BROAD_REACH),
{
    objectives >= BROAD_REACH
}

// ---------------------------------------------------------------------------
// Clauses
// ---------------------------------------------------------------------------

/// A character that ends a clause.
pub open spec fn is_break(c: char) -> bool {
    c == '.' || c == ';' || c == '\u{2014}'
}

/// The characters before the first break at or behind `i`.
pub open spec fn clause_from(s: Seq<char>, i: int) -> Seq<char>
    decreases s.len() - i,
{
    if i < 0 || i >= s.len() || is_break(s[i]) {
        s.take(i)
    } else {
        clause_from(s, i + 1)
    }
}

/// The first clause of a text, without surrounding space.
pub open spec fn first_clause_text(v: Seq<char>) -> Seq<char> {
    text::trim_end(clause_from(text::trim(v), 0))
}

/// The first clause of a text.
pub fn first_clause(v: &str) -> (r: String)
    ensures
        r@ == first_clause_text(v@),
{
    let t = text::trimmed(v);
    let cs = text::chars_of(t.as_str());
    let mut i: usize = 0;
    while i < cs.len() && !(cs[i] == '.' || cs[i] == ';' || cs[i] == '\u{2014}')
        invariant
            i <= cs.len(),
            cs@ == t@,
            clause_from(t@, 0) == clause_from(t@, i as int),
        decreases cs.len() - i,
    {
        i += 1;
    }
    let c = text::text_of(&cs, 0, i);
    assert(c@ =~= t@.take(i as int));
    text::trimmed_end(c.as_str())
}

/// A clause longer than this is cut.
pub const CLAUSE_CAP: usize = 90;

/// A clause, cut at ninety characters with an ellipsis behind.
pub open spec fn truncated(s: Seq<char>) -> Seq<char> {
    if s.len() <= CLAUSE_CAP {
        s
    } else {
        s.take(CLAUSE_CAP as int).push('\u{2026}')
    }
}

/// A clause, cut at ninety characters.
pub fn truncate_clause(s: &str) -> (r: String)
    ensures
        r@ == truncated(s@),
{
    let cs = text::chars_of(s);
    if cs.len() <= CLAUSE_CAP {
        return s.to_string();
    }
    let mut out = text::text_of(&cs, 0, CLAUSE_CAP);
    assert(out@ =~= s@.take(CLAUSE_CAP as int));
    out.push('\u{2026}');
    out
}

// ---------------------------------------------------------------------------
// CVE identifiers
// ---------------------------------------------------------------------------

/// The characters at `from` up to `to` are decimal digits.
pub open spec fn digits_at(s: Seq<char>, from: int, to: int) -> bool {
    forall|k: int| from <= k < to ==> '0' <= #[trigger] s[k] <= '9'
}

/// A CVE identifier stands at `i`: `CVE-` in any case, four digits, a hyphen and at least four
/// digits.
pub open spec fn is_cve_at(s: Seq<char>, i: int) -> bool {
    &&& 0 <= i
    &&& i + 13 <= s.len()
    &&& s[i] == 'C' || s[i] == 'c'
    &&& s[i + 1] == 'V' || s[i + 1] == 'v'
    &&& s[i + 2] == 'E' || s[i + 2] == 'e'
    &&& s[i + 3] == '-'
    &&& digits_at(s, i + 4, i + 8)
    &&& s[i + 8] == '-'
    &&& digits_at(s, i + 9, i + 13)
}

/// The end of the run of digits that `i` stands in.
pub open spec fn digits_end(s: Seq<char>, i: int) -> int
    decreases s.len() - i,
{
    if 0 <= i < s.len() && '0' <= s[i] <= '9' {
        digits_end(s, i + 1)
    } else {
        i
    }
}

/// The first CVE identifier at or behind `i`.
pub open spec fn cve_from(s: Seq<char>, i: int) -> Option<Seq<char>>
    decreases s.len() - i,
{
    if i < 0 || i >= s.len() {
        None
    } else if is_cve_at(s, i) {
        Some(s.subrange(i, digits_end(s, i + 9)))
    } else {
        cve_from(s, i + 1)
    }
}

/// The first CVE identifier in a text, with all the digits of its number.
pub open spec fn cve_text(s: Seq<char>) -> Option<Seq<char>> {
    cve_from(s, 0)
}

/// Whether the characters at `from` up to `to` are decimal digits.
fn all_digits(cs: &Vec<char>, from: usize, to: usize) -> (r: bool)
    requires
        from <= to <= cs.len(),
    ensures
        r == digits_at(cs@, from as int, to as int),
{
    let mut k: usize = from;
    while k < to
        invariant
            from <= k <= to <= cs.len(),
            digits_at(cs@, from as int, k as int),
        decreases to - k,
    {
        if !('0' <= cs[k] && cs[k] <= '9') {
            assert(!('0' <= cs@[k as int] <= '9'));
            return false;
        }
        k += 1;
    }
    true
}

/// Whether a CVE identifier stands at `i`.
fn cve_stands_at(cs: &Vec<char>, i: usize) -> (r: bool)
    requires
        i < cs.len(),
    ensures
        r == is_cve_at(cs@, i as int),
{
    if cs.len() - i < 13 {
        return false;
    }
    (cs[i] == 'C' || cs[i] == 'c') && (cs[i + 1] == 'V' || cs[i + 1] == 'v') && (cs[i + 2] == 'E'
        || cs[i + 2] == 'e') && cs[i + 3] == '-' && all_digits(cs, i + 4, i + 8) && cs[i + 8] == '-'
        && all_digits(cs, i + 9, i + 13)
}

/// The first CVE identifier in a text.
pub fn cve_id(s: &str) -> (r: Option<&str>)
    ensures
        text::opt_str(r) == cve_text(s@),
{
    let cs = text::chars_of(s);
    let mut i: usize = 0;
    while i < cs.len()
        invariant
            cs@ == s@,
            i <= cs.len(),
            cve_text(s@) == cve_from(s@, i as int),
        decreases cs.len() - i,
    {
        if cve_stands_at(&cs, i) {
            let mut end: usize = i + 9;
            while end < cs.len() && '0' <= cs[end] && cs[end] <= '9'
                invariant
                    cs@ == s@,
                    i + 9 <= end <= cs.len(),
                    digits_end(s@, i + 9) == digits_end(s@, end as int),
                decreases cs.len() - end,
            {
                end += 1;
            }
            return Some(s.substring_char(i, end));
        }
        i += 1;
    }
    None
}

// ---------------------------------------------------------------------------
// Laws
// ---------------------------------------------------------------------------

/// Only the model's own affirmation is a breach, and without its words nothing is safe.
pub proof fn breach_is_the_models_call(verdict: Option<Seq<char>>)
    ensures
        Posture::of_words(verdict) == Posture::Breach <==> flags(verdict),
        Posture::of_words(verdict) == Posture::Awaiting <==> verdict is None,
{
}

/// A verdict that opens with a denial is not flagged.
pub proof fn denial_is_not_flagged(rest: Seq<char>)
    ensures
        !flags(Some("not exploitable"@ + rest)),
        Posture::of_words(Some("not exploitable"@ + rest)) == Posture::Safe,
{
    reveal_strlit("not exploitable");
    reveal_strlit("exploitable");
    let v = "not exploitable"@ + rest;
    assert(v[0] == "not exploitable"@[0]);
    assert("not exploitable"@[0] == 'n' && "exploitable"@[0] == 'e');
    assert(text::trim_start(v) == v);
    assert(text::lower(v)[0] == 'n');
    if "exploitable"@.is_prefix_of(text::lower(v)) {
        assert(text::lower(v)[0] == "exploitable"@[0]);
    }
}

/// A clause is never longer than the cap and the ellipsis behind it.
pub proof fn clauses_are_short(s: Seq<char>)
    ensures
        truncated(s).len() <= CLAUSE_CAP + 1,
{
}

proof fn lemma_cve_from(s: Seq<char>, i: int)
    requires
        0 <= i <= s.len(),
    ensures
        match cve_from(s, i) {
            Some(t) => exists|k: int|
                i <= k && #[trigger] is_cve_at(s, k) && t == s.subrange(k, digits_end(s, k + 9))
                    && forall|j: int| i <= j < k ==> !is_cve_at(s, j),
            None => forall|k: int| i <= k ==> !is_cve_at(s, k),
        },
    decreases s.len() - i,
{
    if i < s.len() && !is_cve_at(s, i) {
        lemma_cve_from(s, i + 1);
        if cve_from(s, i) is Some {
            let t = cve_from(s, i).unwrap();
            let k = choose|k: int|
                i + 1 <= k && #[trigger] is_cve_at(s, k) && t == s.subrange(
                    k,
                    digits_end(s, k + 9),
                ) && forall|j: int| i + 1 <= j < k ==> !is_cve_at(s, j);
            assert forall|j: int| i <= j < k implies !is_cve_at(s, j) by {
                if j > i {
                    assert(i + 1 <= j);
                }
            }
        }
    }
}

/// A text that holds a CVE identifier anywhere cites the first of them, and a text that holds none
/// cites none.
pub proof fn first_cve_is_cited(s: Seq<char>)
    ensures
        match cve_text(s) {
            Some(t) => exists|k: int| #[trigger]
                is_cve_at(s, k) && t == s.subrange(k, digits_end(s, k + 9)) && forall|j: int|
                    0 <= j < k ==> !is_cve_at(s, j),
            None => forall|k: int| !is_cve_at(s, k),
        },
{
    lemma_cve_from(s, 0);
    match cve_text(s) {
        Some(t) => {
            let k = choose|k: int|
                0 <= k && #[trigger] is_cve_at(s, k) && t == s.subrange(k, digits_end(s, k + 9))
                    && forall|j: int| 0 <= j < k ==> !is_cve_at(s, j);
            assert(is_cve_at(s, k));
        },
        None => {},
    }
}

} // verus!
