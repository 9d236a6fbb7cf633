//! The rows that the signing sweep leaves on the admission log, and what they say.
//!
//! A row's subject says what it is: `Image/<ref>` is an image's posture, `SigningRegression/<repo>`
//! a drift, `SigningException/<repo>` a drift the operator accepted, `SigningStrength/<repo>` how
//! well a baseline is corroborated, `Provenance/<ref>` an image's build and
//! `ProvenanceChange/<repo>` a drift of builds. Every other row is a decision of the webhook. Rows
//! come newest first, and the newest row on a subject is the one that stands.

use crate::props::signing::RegressionKind;
use crate::state::PolicyDecisionRecord;
use crate::text;
use vstd::prelude::*;
use vstd::string::*;

verus! {

// ---------------------------------------------------------------------------
// What a row is
// ---------------------------------------------------------------------------

/// The row is about the subject kind with this prefix.
pub open spec fn is_about(r: PolicyDecisionRecord, prefix: Seq<char>) -> bool {
    prefix.is_prefix_of(r.subject@)
}

/// The row belongs to the inventory and is no decision of the webhook.
pub open spec fn is_inventory(r: PolicyDecisionRecord) -> bool {
    ||| is_about(r, "Image/"@)
    ||| is_about(r, "SigningRegression/"@)
    ||| is_about(r, "SigningException/"@)
    ||| is_about(r, "SigningStrength/"@)
    ||| is_about(r, "Provenance/"@)
    ||| is_about(r, "ProvenanceChange/"@)
}

/// Whether a row belongs to the inventory and is no decision of the webhook.
pub fn is_inventory_row(r: &PolicyDecisionRecord) -> (b: bool)
    ensures
        b == is_inventory(*r),
{
    let s = r.subject.as_str();
    text::leads(s, "Image/") || text::leads(s, "SigningRegression/") || text::leads(
        s,
        "SigningException/",
    ) || text::leads(s, "SigningStrength/") || text::leads(s, "Provenance/") || text::leads(
        s,
        "ProvenanceChange/",
    )
}

// ---------------------------------------------------------------------------
// Texts
// ---------------------------------------------------------------------------

/// An image reference as repository and remainder: at the `@` of a digest, else at the `:` of a
/// tag in the last path segment, so that a registry's port is no tag.
pub open spec fn ref_parts(image: Seq<char>) -> (Seq<char>, Seq<char>) {
    match text::split_once(image, "@"@) {
        Some(t) => t,
        None => {
            let segment = match text::rfind(image, "/"@) {
                Some(i) => i + 1,
                None => 0,
            };
            match text::find_from(image, ":"@, segment) {
                Some(c) => (image.take(c), image.skip(c + 1)),
                None => (image, Seq::empty()),
            }
        },
    }
}

/// The signer and issuer in `signed by <identity>[ via <issuer>]`.
pub open spec fn signer_parts(reason: Seq<char>) -> Option<(Seq<char>, Option<Seq<char>>)> {
    match text::strip_prefix(reason, "signed by "@) {
        Some(rest) => match text::split_once(rest, " via "@) {
            Some(t) => Some((t.0, Some(t.1))),
            None => Some((rest, None)),
        },
        None => None,
    }
}

/// A GitHub workflow identity as `org/repo`; any other identity as it is.
pub open spec fn short_identity_text(identity: Seq<char>) -> Seq<char> {
    match text::strip_prefix(identity, "https://github.com/"@) {
        Some(rest) => {
            let segs = text::split(text::before(rest, "/.github/"@), "/"@);
            if segs.len() >= 2 && segs[0].len() > 0 && segs[1].len() > 0 {
                segs[0] + "/"@ + segs[1]
            } else {
                identity
            }
        },
        None => identity,
    }
}

/// The host of a URL.
pub open spec fn host_text(url: Seq<char>) -> Seq<char> {
    text::before(
        match text::strip_prefix(url, "https://"@) {
            Some(rest) => rest,
            None => match text::strip_prefix(url, "http://"@) {
                Some(rest) => rest,
                None => url,
            },
        },
        "/"@,
    )
}

/// A short word for an issuer: a name for the well-known ones, else the host.
pub open spec fn badge_text(issuer: Seq<char>) -> Seq<char> {
    let host = host_text(issuer);
    if host == "token.actions.githubusercontent.com"@ {
        "github actions"@
    } else if host == "accounts.google.com"@ {
        "google"@
    } else if host == "oauth2.sigstore.dev"@ {
        "sigstore"@
    } else {
        host
    }
}

/// The builder and source in `built by <builder> from <source>`; the source stands behind the last
/// ` from `.
pub open spec fn build_parts(reason: Seq<char>) -> Option<(Seq<char>, Seq<char>)> {
    match text::strip_prefix(reason, "built by "@) {
        Some(rest) => text::rsplit_once(rest, " from "@),
        None => None,
    }
}

/// The parts that are not empty.
pub open spec fn nonempty(v: Seq<Seq<char>>) -> Seq<Seq<char>> {
    v.filter(|s: Seq<char>| s.len() > 0)
}

/// `host/org/repo[/...]` as `org/repo`; a shorter path as it is.
pub open spec fn short_source_text(source: Seq<char>) -> Seq<char> {
    let segs = nonempty(text::split(source, "/"@));
    if segs.len() >= 3 {
        segs[1] + "/"@ + segs[2]
    } else {
        source
    }
}

/// The names in a comma-separated list, trimmed, the empty ones left out.
pub open spec fn names(list: Seq<char>) -> Seq<Seq<char>> {
    nonempty(text::split(list, ", "@).map_values(|s: Seq<char>| text::trim(s)))
}

/// The clause before ` | before: `, and what stands behind it.
pub open spec fn clauses(reason: Seq<char>) -> (Seq<char>, Seq<char>) {
    match text::split_once(reason, " | before: "@) {
        Some(t) => t,
        None => (reason, Seq::empty()),
    }
}

/// Splits an image reference into repository and remainder.
pub(crate) fn split_ref(image: &str) -> (r: (String, String))
    ensures
        (r.0@, r.1@) == ref_parts(image@),
{
    proof {
        reveal_strlit("/");
        reveal_strlit(":");
    }
    match text::cut(image, "@") {
        Some(t) => t,
        None => {
            let cs = text::chars_of(image);
            let slash = text::chars_of("/");
            let colon = text::chars_of(":");
            let segment: usize = match text::rfind_chars(&cs, &slash) {
                Some(i) => i + 1,
                None => 0,
            };
            match text::find_chars(&cs, &colon, segment) {
                Some(c) => {
                    let a = text::text_of(&cs, 0, c);
                    let b = text::text_of(&cs, c + 1, cs.len());
                    assert(a@ =~= image@.take(c as int));
                    assert(b@ =~= image@.skip(c + 1));
                    (a, b)
                },
                None => (image.to_string(), String::new()),
            }
        },
    }
}

/// Reads the signer and issuer out of a reason, where it names a signer.
pub(crate) fn parse_signer_reason(reason: &str) -> (r: Option<(String, Option<String>)>)
    ensures
        r matches Some(t) ==> signer_parts(reason@) == Some((t.0@, text::opt_text(t.1))),
        r is None ==> signer_parts(reason@) is None,
{
    match text::without_prefix(reason, "signed by ") {
        Some(rest) => match text::cut(rest.as_str(), " via ") {
            Some(t) => Some((t.0, Some(t.1))),
            None => Some((rest, None)),
        },
        None => None,
    }
}

/// A short label for an identity.
pub(crate) fn short_identity(identity: &str) -> (r: String)
    ensures
        r@ == short_identity_text(identity@),
{
    proof {
        reveal_strlit("/");
    }
    match text::without_prefix(identity, "https://github.com/") {
        Some(rest) => {
            let path = text::head(rest.as_str(), "/.github/");
            let segs = text::parts(path, "/");
            assert(segs@.len() == text::split(path@, "/"@).len());
            if segs.len() >= 2 {
                assert(segs@[0]@ == text::split(path@, "/"@)[0]);
                assert(segs@[1]@ == text::split(path@, "/"@)[1]);
                if !segs[0].as_str().is_empty() && !segs[1].as_str().is_empty() {
                    return segs[0].clone().concat("/").concat(segs[1].as_str());
                }
            }
            identity.to_string()
        },
        None => identity.to_string(),
    }
}

/// A short word for an issuer.
pub(crate) fn issuer_badge(issuer: &str) -> (r: String)
    ensures
        r@ == badge_text(issuer@),
{
    let rest = match text::without_prefix(issuer, "https://") {
        Some(rest) => rest,
        None => match text::without_prefix(issuer, "http://") {
            Some(rest) => rest,
            None => issuer.to_string(),
        },
    };
    let host = text::head(rest.as_str(), "/");
    if text::same(host, "token.actions.githubusercontent.com") {
        "github actions".to_string()
    } else if text::same(host, "accounts.google.com") {
        "google".to_string()
    } else if text::same(host, "oauth2.sigstore.dev") {
        "sigstore".to_string()
    } else {
        host.to_string()
    }
}

/// Reads the builder and source out of a reason, where it names a build.
pub(crate) fn parse_provenance_reason(reason: &str) -> (r: Option<(String, String)>)
    ensures
        r matches Some(t) ==> build_parts(reason@) == Some((t.0@, t.1@)),
        r is None ==> build_parts(reason@) is None,
{
    match text::without_prefix(reason, "built by ") {
        Some(rest) => text::rcut(rest.as_str(), " from "),
        None => None,
    }
}

/// The texts that are not empty.
fn keep_nonempty(v: Vec<String>) -> (r: Vec<String>)
    ensures
        text::texts(r@) == nonempty(text::texts(v@)),
{
    broadcast use vstd::seq::Seq::lemma_filter_push;

    let ghost p = |s: Seq<char>| s.len() > 0;
    let ghost t = text::texts(v@);
    let mut r: Vec<String> = Vec::new();
    let mut i: usize = 0;
    assert(text::texts(r@) =~= t.take(0).filter(p));
    while i < v.len()
        invariant
            i <= v.len(),
            p == |s: Seq<char>| s.len() > 0,
            t == text::texts(v@),
            text::texts(r@) == t.take(i as int).filter(p),
        decreases v.len() - i,
    {
        broadcast use vstd::seq::Seq::lemma_filter_push;

        let ghost before = r@;
        assert(t.take(i + 1) =~= t.take(i as int).push(t[i as int]));
        if !v[i].as_str().is_empty() {
            r.push(v[i].clone());
            assert(text::texts(r@) =~= text::texts(before).push(t[i as int]));
        }
        i += 1;
    }
    assert(t.take(t.len() as int) =~= t);
    r
}

/// A short label for a source.
pub(crate) fn short_source(source: &str) -> (r: String)
    ensures
        r@ == short_source_text(source@),
{
    proof {
        reveal_strlit("/");
    }
    let segs = keep_nonempty(text::parts(source, "/"));
    let ghost t = nonempty(text::split(source@, "/"@));
    assert(text::texts(segs@) == t);
    assert(segs@.len() == t.len());
    if segs.len() >= 3 {
        assert(segs@[1]@ == t[1] && segs@[2]@ == t[2]);
        segs[1].clone().concat("/").concat(segs[2].as_str())
    } else {
        source.to_string()
    }
}

/// The names in a comma-separated list.
fn listed_names(list: &str) -> (r: Vec<String>)
    ensures
        text::texts(r@) == names(list@),
{
    proof {
        reveal_strlit(", ");
    }
    let ghost f = |s: Seq<char>| text::trim(s);
    let all = text::parts(list, ", ");
    let ghost t = text::split(list@, ", "@);
    let mut v: Vec<String> = Vec::new();
    let mut i: usize = 0;
    while i < all.len()
        invariant
            i <= all.len(),
            text::texts(all@) == t,
            v@.len() == i,
            forall|k: int| 0 <= k < i ==> (#[trigger] v@[k])@ == text::trim(t[k]),
        decreases all.len() - i,
    {
        assert(t[i as int] == all@[i as int]@);
        v.push(text::trimmed(all[i].as_str()));
        i += 1;
    }
    assert(text::texts(v@) =~= t.map_values(f)) by {
        assert(t.len() == all@.len());
    }
    keep_nonempty(v)
}

// ---------------------------------------------------------------------------
// Drifts
// ---------------------------------------------------------------------------

/// A drift of a repository's signing, as a row records it.
pub struct Drift {
    pub repo: Seq<char>,
    pub kind: RegressionKind,
    pub established: bool,
    pub before: Seq<Seq<char>>,
    pub after_identity: Option<Seq<char>>,
    pub after_issuer: Option<Seq<char>>,
    pub image: Seq<char>,
}

/// A drift of a repository's builds, as a row records it.
pub struct Change {
    pub repo: Seq<char>,
    pub established: bool,
    pub before: Seq<Seq<char>>,
    pub after_builder: Seq<char>,
    pub after_source: Seq<char>,
    pub image: Seq<char>,
}

/// Whether a baseline word says established or cold.
pub open spec fn established_word(word: Seq<char>) -> Option<bool> {
    if word == "established"@ {
        Some(true)
    } else if word == "cold"@ {
        Some(false)
    } else {
        None
    }
}

/// The drift a row records: the repository behind `subject` in its subject, `<kind>-<strength>`
/// behind `status` in its signature, and the clauses in its reason. A row that does not have this
/// form records none.
pub open spec fn drift_of(r: PolicyDecisionRecord, subject: Seq<char>, status: Seq<char>) -> Option<Drift> {
    match (text::strip_prefix(r.subject@, subject), text::strip_prefix(r.signature@, status)) {
        (Some(repo), Some(token)) => match text::rsplit_once(token, "-"@) {
            Some(t) => match established_word(t.1) {
                Some(established) => {
                    let kind = RegressionKind::parse_of(t.0);
                    let (after, before) = clauses(r.reason@);
                    let signer = if kind == RegressionKind::IdentityChange {
                        signer_parts(after)
                    } else {
                        None
                    };
                    Some(
                        Drift {
                            repo,
                            kind,
                            established,
                            before: names(before),
                            after_identity: match signer {
                                Some(s) => Some(s.0),
                                None => None,
                            },
                            after_issuer: match signer {
                                Some(s) => s.1,
                                None => None,
                            },
                            image: r.image@,
                        },
                    )
                },
                None => None,
            },
            None => None,
        },
        _ => None,
    }
}

/// The signing regression a row records.
pub open spec fn regression_of(r: PolicyDecisionRecord) -> Option<Drift> {
    drift_of(r, "SigningRegression/"@, "regression-"@)
}

/// The accepted exception a row records.
pub open spec fn exception_of(r: PolicyDecisionRecord) -> Option<Drift> {
    drift_of(r, "SigningException/"@, "exception-"@)
}

/// The drift of builds a row records.
pub open spec fn change_of(r: PolicyDecisionRecord) -> Option<Change> {
    match (
        text::strip_prefix(r.subject@, "ProvenanceChange/"@),
        text::strip_prefix(r.signature@, "provenance-change-"@),
    ) {
        (Some(repo), Some(strength)) => match established_word(strength) {
            Some(established) => {
                let (after, before) = clauses(r.reason@);
                let build = build_parts(after);
                Some(
                    Change {
                        repo,
                        established,
                        before: names(before),
                        after_builder: match build {
                            Some(b) => b.0,
                            None => Seq::empty(),
                        },
                        after_source: match build {
                            Some(b) => b.1,
                            None => Seq::empty(),
                        },
                        image: r.image@,
                    },
                )
            },
            None => None,
        },
        _ => None,
    }
}

/// A drift in executable form.
pub struct DriftRow {
    pub repo: String,
    pub kind: RegressionKind,
    pub established: bool,
    pub before: Vec<String>,
    pub after_identity: Option<String>,
    pub after_issuer: Option<String>,
    pub image: String,
}

impl View for DriftRow {
    type V = Drift;

    open spec fn view(&self) -> Drift {
        Drift {
            repo: self.repo@,
            kind: self.kind,
            established: self.established,
            before: text::texts(self.before@),
            after_identity: text::opt_text(self.after_identity),
            after_issuer: text::opt_text(self.after_issuer),
            image: self.image@,
        }
    }
}

/// A drift of builds in executable form.
pub struct ChangeRow {
    pub repo: String,
    pub established: bool,
    pub before: Vec<String>,
    pub after_builder: String,
    pub after_source: String,
    pub image: String,
}

impl View for ChangeRow {
    type V = Change;

    open spec fn view(&self) -> Change {
        Change {
            repo: self.repo@,
            established: self.established,
            before: text::texts(self.before@),
            after_builder: self.after_builder@,
            after_source: self.after_source@,
            image: self.image@,
        }
    }
}

fn read_established(word: &str) -> (r: Option<bool>)
    ensures
        r == established_word(word@),
{
    if text::same(word, "established") {
        Some(true)
    } else if text::same(word, "cold") {
        Some(false)
    } else {
        None
    }
}

fn split_clauses(reason: &str) -> (r: (String, String))
    ensures
        (r.0@, r.1@) == clauses(reason@),
{
    match text::cut(reason, " | before: ") {
        Some(t) => t,
        None => (reason.to_string(), String::new()),
    }
}

/// Reads the drift that a row records, a regression or an accepted exception.
fn parse_regression(r: &PolicyDecisionRecord, subject: &str, status: &str) -> (o: Option<DriftRow>)
    ensures
        o matches Some(d) ==> drift_of(*r, subject@, status@) == Some(d@),
        o is None ==> drift_of(*r, subject@, status@) is None,
{
    let repo = match text::without_prefix(r.subject.as_str(), subject) {
        Some(repo) => repo,
        None => {
            return None;
        },
    };
    let token = match text::without_prefix(r.signature.as_str(), status) {
        Some(token) => token,
        None => {
            return None;
        },
    };
    let (kind_word, strength) = match text::rcut(token.as_str(), "-") {
        Some(t) => t,
        None => {
            return None;
        },
    };
    let established = match read_established(strength.as_str()) {
        Some(e) => e,
        None => {
            return None;
        },
    };
    let kind = RegressionKind::parse(kind_word.as_str());
    let (after, before) = split_clauses(r.reason.as_str());
    let (after_identity, after_issuer) = if kind == RegressionKind::IdentityChange {
        match parse_signer_reason(after.as_str()) {
            Some(t) => (Some(t.0), t.1),
            None => (None, None),
        }
    } else {
        (None, None)
    };
    Some(
        DriftRow {
            repo,
            kind,
            established,
            before: listed_names(before.as_str()),
            after_identity,
            after_issuer,
            image: r.image.clone(),
        },
    )
}

/// Reads the drift of builds that a row records.
fn parse_provenance_change(r: &PolicyDecisionRecord) -> (o: Option<ChangeRow>)
    ensures
        o matches Some(c) ==> change_of(*r) == Some(c@),
        o is None ==> change_of(*r) is None,
{
    let repo = match text::without_prefix(r.subject.as_str(), "ProvenanceChange/") {
        Some(repo) => repo,
        None => {
            return None;
        },
    };
    let strength = match text::without_prefix(r.signature.as_str(), "provenance-change-") {
        Some(strength) => strength,
        None => {
            return None;
        },
    };
    let established = match read_established(strength.as_str()) {
        Some(e) => e,
        None => {
            return None;
        },
    };
    let (after, before) = split_clauses(r.reason.as_str());
    let (after_builder, after_source) = match parse_provenance_reason(after.as_str()) {
        Some(t) => t,
        None => (String::new(), String::new()),
    };
    Some(
        ChangeRow {
            repo,
            established,
            before: listed_names(before.as_str()),
            after_builder,
            after_source,
            image: r.image.clone(),
        },
    )
}

// ---------------------------------------------------------------------------
// What stands
// ---------------------------------------------------------------------------

/// A drift on this repository is among these.
pub open spec fn has_drift(v: Seq<Drift>, repo: Seq<char>) -> bool {
    exists|i: int| 0 <= i < v.len() && (#[trigger] v[i]).repo == repo
}

/// The first drift of each repository, in order.
pub open spec fn first_per_repo(v: Seq<Drift>) -> Seq<Drift>
    decreases v.len(),
{
    if v.len() == 0 {
        Seq::empty()
    } else {
        let rest = first_per_repo(v.drop_last());
        if has_drift(rest, v.last().repo) {
            rest
        } else {
            rest.push(v.last())
        }
    }
}

/// The regressions that stand: the newest of each repository.
pub open spec fn regressions(rows: Seq<PolicyDecisionRecord>) -> Seq<Drift> {
    first_per_repo(rows.filter_map(|r: PolicyDecisionRecord| regression_of(r)))
}

/// The exceptions that stand: the newest of each repository.
pub open spec fn exceptions(rows: Seq<PolicyDecisionRecord>) -> Seq<Drift> {
    first_per_repo(rows.filter_map(|r: PolicyDecisionRecord| exception_of(r)))
}

/// A change on this repository is among these.
pub open spec fn has_change(v: Seq<Change>, repo: Seq<char>) -> bool {
    exists|i: int| 0 <= i < v.len() && (#[trigger] v[i]).repo == repo
}

/// The first change of each repository, in order.
pub open spec fn first_change_per_repo(v: Seq<Change>) -> Seq<Change>
    decreases v.len(),
{
    if v.len() == 0 {
        Seq::empty()
    } else {
        let rest = first_change_per_repo(v.drop_last());
        if has_change(rest, v.last().repo) {
            rest
        } else {
            rest.push(v.last())
        }
    }
}

/// The changes of builds that stand: the newest of each repository.
pub open spec fn changes(rows: Seq<PolicyDecisionRecord>) -> Seq<Change> {
    first_change_per_repo(rows.filter_map(|r: PolicyDecisionRecord| change_of(r)))
}

/// The views of drift rows.
pub open spec fn drifts(v: Seq<DriftRow>) -> Seq<Drift> {
    v.map_values(|d: DriftRow| d@)
}

pub open spec fn changes_of(v: Seq<ChangeRow>) -> Seq<Change> {
    v.map_values(|c: ChangeRow| c@)
}

/// The drifts of one kind that stand.
fn standing_drifts(rows: &[PolicyDecisionRecord], subject: &str, status: &str) -> (v: Vec<DriftRow>)
    ensures
        drifts(v@) == first_per_repo(
            rows@.filter_map(|r: PolicyDecisionRecord| drift_of(r, subject@, status@)),
        ),
{
    broadcast use vstd::seq::Seq::lemma_filter_map_take_succ;

    let ghost f = |r: PolicyDecisionRecord| drift_of(r, subject@, status@);
    let mut v: Vec<DriftRow> = Vec::new();
    let mut i: usize = 0;
    assert(drifts(v@) =~= first_per_repo(rows@.take(0).filter_map(f)));
    while i < rows.len()
        invariant
            i <= rows.len(),
            f == |r: PolicyDecisionRecord| drift_of(r, subject@, status@),
            drifts(v@) == first_per_repo(rows@.take(i as int).filter_map(f)),
        decreases rows.len() - i,
    {
        let ghost so_far = rows@.take(i as int).filter_map(f);
        proof {
            rows@.lemma_filter_map_take_succ(f, i as int);
        }
        match parse_regression(&rows[i], subject, status) {
            Some(d) => {
                let ghost next = so_far.push(d@);
                assert(rows@.take(i + 1).filter_map(f) =~= next);
                assert(next.drop_last() =~= so_far);
                let mut known = false;
                let mut k: usize = 0;
                while k < v.len()
                    invariant
                        k <= v.len(),
                        known == exists|j: int|
                            0 <= j < k && (#[trigger] drifts(v@)[j]).repo == d@.repo,
                    decreases v.len() - k,
                {
                    assert(drifts(v@)[k as int] == v@[k as int]@);
                    if text::same(v[k].repo.as_str(), d.repo.as_str()) {
                        known = true;
                    }
                    k += 1;
                }
                assert(known == has_drift(drifts(v@), d@.repo));
                if !known {
                    let ghost before = v@;
                    v.push(d);
                    assert(drifts(v@) =~= drifts(before).push(next.last()));
                }
            },
            None => {
                assert(rows@.take(i + 1).filter_map(f) =~= so_far);
            },
        }
        i += 1;
    }
    assert(rows@.take(rows@.len() as int) =~= rows@);
    v
}

/// The regressions that stand, one per repository.
pub(crate) fn regressions_by_repo(rows: &[PolicyDecisionRecord]) -> (v: Vec<DriftRow>)
    ensures
        drifts(v@) == regressions(rows@),
{
    let v = standing_drifts(rows, "SigningRegression/", "regression-");
    proof {
        let f = |r: PolicyDecisionRecord| drift_of(r, "SigningRegression/"@, "regression-"@);
        let g = |r: PolicyDecisionRecord| regression_of(r);
        assert(f =~= g);
    }
    v
}

/// The exceptions that stand, one per repository.
pub(crate) fn exceptions_by_repo(rows: &[PolicyDecisionRecord]) -> (v: Vec<DriftRow>)
    ensures
        drifts(v@) == exceptions(rows@),
{
    let v = standing_drifts(rows, "SigningException/", "exception-");
    proof {
        let f = |r: PolicyDecisionRecord| drift_of(r, "SigningException/"@, "exception-"@);
        let g = |r: PolicyDecisionRecord| exception_of(r);
        assert(f =~= g);
    }
    v
}

/// The changes of builds that stand, one per repository.
pub(crate) fn provenance_changes_by_repo(rows: &[PolicyDecisionRecord]) -> (v: Vec<ChangeRow>)
    ensures
        changes_of(v@) == changes(rows@),
{
    let ghost f = |r: PolicyDecisionRecord| change_of(r);
    let mut v: Vec<ChangeRow> = Vec::new();
    let mut i: usize = 0;
    assert(changes_of(v@) =~= first_change_per_repo(rows@.take(0).filter_map(f)));
    while i < rows.len()
        invariant
            i <= rows.len(),
            f == |r: PolicyDecisionRecord| change_of(r),
            changes_of(v@) == first_change_per_repo(rows@.take(i as int).filter_map(f)),
        decreases rows.len() - i,
    {
        let ghost so_far = rows@.take(i as int).filter_map(f);
        proof {
            rows@.lemma_filter_map_take_succ(f, i as int);
        }
        match parse_provenance_change(&rows[i]) {
            Some(c) => {
                let ghost next = so_far.push(c@);
                assert(rows@.take(i + 1).filter_map(f) =~= next);
                assert(next.drop_last() =~= so_far);
                let mut known = false;
                let mut k: usize = 0;
                while k < v.len()
                    invariant
                        k <= v.len(),
                        known == exists|j: int|
                            0 <= j < k && (#[trigger] changes_of(v@)[j]).repo == c@.repo,
                    decreases v.len() - k,
                {
                    assert(changes_of(v@)[k as int] == v@[k as int]@);
                    if text::same(v[k].repo.as_str(), c.repo.as_str()) {
                        known = true;
                    }
                    k += 1;
                }
                assert(known == has_change(changes_of(v@), c@.repo));
                if !known {
                    let ghost before = v@;
                    v.push(c);
                    assert(changes_of(v@) =~= changes_of(before).push(next.last()));
                }
            },
            None => {
                assert(rows@.take(i + 1).filter_map(f) =~= so_far);
            },
        }
        i += 1;
    }
    assert(rows@.take(rows@.len() as int) =~= rows@);
    v
}

/// `c` counts the standing regressions: those from an established baseline, then those from a fresh
/// one.
pub open spec fn are_counts(rows: Seq<PolicyDecisionRecord>, c: (usize, usize)) -> bool {
    &&& c.0 == regressions(rows).filter(|d: Drift| d.established).len()
    &&& c.1 == regressions(rows).filter(|d: Drift| !d.established).len()
}

/// How many standing regressions have an established baseline, and how many a cold one.
pub fn counts(rows: &[PolicyDecisionRecord]) -> (r: (usize, usize))
    ensures
        are_counts(rows@, r),
{
    broadcast use vstd::seq::Seq::lemma_filter_push;

    let v = regressions_by_repo(rows);
    let ghost s = regressions(rows@);
    let ghost yes = |d: Drift| d.established;
    let ghost no = |d: Drift| !d.established;
    let mut established: usize = 0;
    let mut cold: usize = 0;
    let mut i: usize = 0;
    assert(s.take(0).filter(yes) =~= Seq::empty() && s.take(0).filter(no) =~= Seq::empty());
    while i < v.len()
        invariant
            i <= v.len(),
            drifts(v@) == s,
            yes == |d: Drift| d.established,
            no == |d: Drift| !d.established,
            established == s.take(i as int).filter(yes).len(),
            cold == s.take(i as int).filter(no).len(),
            established + cold == i,
        decreases v.len() - i,
    {
        broadcast use vstd::seq::Seq::lemma_filter_push;

        assert(s.take(i + 1) =~= s.take(i as int).push(s[i as int]));
        assert(s[i as int] == v@[i as int]@);
        if v[i].established {
            established += 1;
        } else {
            cold += 1;
        }
        i += 1;
    }
    assert(s.len() == v@.len());
    assert(s.take(s.len() as int) =~= s);
    (established, cold)
}

} // verus!
