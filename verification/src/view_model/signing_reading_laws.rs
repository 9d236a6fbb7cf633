//! What the signing inventory reads off its rows, in terms of what the rows say.

use crate::graph_laws::{is_segment, lemma_one_segment, lemma_segments};
use crate::order;
use crate::props::signing::{
    kind_is_read_back, ProvenancePosture, RegressionKind, RepoStrength, SigningEnforcement,
    SigningPosture, SigningRepoProps, SigningRowProps,
};
use crate::seqs::{
    lemma_filter_all, lemma_filter_map_member, lemma_filter_map_push, lemma_filter_member, lemma_filter_twice,
};
use crate::state::PolicyDecisionRecord;
use crate::text;
use crate::text_laws::{
    comes_apart_behind, comes_apart_in_front, found_from_behind_is_last, stays_whole,
    stripped_prefix_leads,
};
use crate::view_model::ids::signing_id_text;
use crate::view_model::signing_inventory::{
    change_on_repo, drift_on_image, drift_on_repo, enforcement, first_row, group_for,
    image_order, inventory, observed, provenance_posture, repo_of, shows_group, shows_image,
    shows_inventory, tells_build, tells_strength, verified_build,
};
use crate::view_model::signing_laws::lemma_inventory_repos;
use crate::view_model::signing_records::{
    badge_text, build_parts, change_of, changes, clauses, exception_of, exceptions,
    first_change_per_repo, first_per_repo, has_change, has_drift, host_text, is_about, names,
    nonempty, ref_parts, regression_of, regressions, short_identity_text, short_source_text,
    signer_parts, Change, Drift,
};
use vstd::prelude::*;

verus! {

// ---------------------------------------------------------------------------
// The newest stands
// ---------------------------------------------------------------------------

proof fn lemma_drift_push(v: Seq<Drift>, x: Drift, repo: Seq<char>, i: int)
    requires
        0 <= i <= v.len(),
    ensures
        drift_on_repo(v.push(x), repo, i) == (match drift_on_repo(v, repo, i) {
            Some(d) => Some(d),
            None => if x.repo == repo {
                Some(x)
            } else {
                None
            },
        }),
    decreases v.len() - i,
{
    let w = v.push(x);
    if i < v.len() {
        assert(w[i] == v[i]);
        lemma_drift_push(v, x, repo, i + 1);
    } else {
        assert(w[i] == x);
        assert(drift_on_repo(w, repo, i + 1) is None);
    }
}

proof fn lemma_kept_drifts(v: Seq<Drift>, repo: Seq<char>)
    ensures
        has_drift(first_per_repo(v), repo) <==> has_drift(v, repo),
    decreases v.len(),
{
    if v.len() > 0 {
        let d = v.drop_last();
        let rest = first_per_repo(d);
        let all = first_per_repo(v);
        lemma_kept_drifts(d, repo);
        lemma_kept_drifts(d, v.last().repo);
        if has_drift(v, repo) {
            let k = choose|k: int| 0 <= k < v.len() && (#[trigger] v[k]).repo == repo;
            if k < d.len() {
                assert(d[k].repo == repo);
                let m = choose|m: int| 0 <= m < rest.len() && (#[trigger] rest[m]).repo == repo;
                assert(all[m].repo == repo);
            } else if !has_drift(rest, repo) {
                assert(all[rest.len() as int].repo == repo);
            }
        }
        if has_drift(all, repo) {
            let k = choose|k: int| 0 <= k < all.len() && (#[trigger] all[k]).repo == repo;
            if k < rest.len() {
                assert(rest[k].repo == repo);
                let m = choose|m: int| 0 <= m < d.len() && (#[trigger] d[m]).repo == repo;
                assert(v[m].repo == repo);
            } else {
                assert(v[v.len() - 1].repo == repo);
            }
        }
    }
}

proof fn lemma_newest_drift(
    rows: Seq<PolicyDecisionRecord>,
    f: spec_fn(PolicyDecisionRecord) -> Option<Drift>,
    k: int,
    d: Drift,
)
    requires
        0 <= k < rows.len(),
        f(rows[k]) == Some(d),
        forall|j: int| 0 <= j < k ==> (f(#[trigger] rows[j]) matches Some(e) ==> e.repo != d.repo),
    ensures
        drift_on_repo(first_per_repo(rows.filter_map(f)), d.repo, 0) == Some(d),
    decreases rows.len(),
{
    let n = rows.len() - 1;
    let prev = rows.drop_last();
    let x = rows.last();
    assert(rows =~= prev.push(x));
    lemma_filter_map_push(prev, f, x);
    let v = prev.filter_map(f);
    let rest = first_per_repo(v);
    if k < n {
        assert forall|j: int| 0 <= j < k implies (f(#[trigger] prev[j]) matches Some(e) ==> e.repo
            != d.repo) by {
            assert(prev[j] == rows[j]);
        }
        assert(prev[k] == rows[k]);
        lemma_newest_drift(prev, f, k, d);
        match f(x) {
            Some(e) => {
                assert(v.push(e).drop_last() =~= v);
                lemma_drift_push(rest, e, d.repo, 0);
            },
            None => {},
        }
    } else {
        assert(v.push(d).drop_last() =~= v);
        assert(!has_drift(v, d.repo)) by {
            if has_drift(v, d.repo) {
                let m = choose|m: int| 0 <= m < v.len() && (#[trigger] v[m]).repo == d.repo;
                assert(v.contains(v[m]));
                lemma_filter_map_member(prev, f, v[m]);
                let j = choose|j: int| 0 <= j < prev.len() && f(#[trigger] prev[j]) == Some(v[m]);
                assert(rows[j] == prev[j]);
            }
        }
        lemma_kept_drifts(v, d.repo);
        lemma_drift_push(rest, d, d.repo, 0);
        lemma_absent_drift(rest, d.repo, 0);
    }
}

proof fn lemma_absent_drift(v: Seq<Drift>, repo: Seq<char>, i: int)
    requires
        0 <= i <= v.len(),
        !has_drift(v, repo),
    ensures
        drift_on_repo(v, repo, i) is None,
    decreases v.len() - i,
{
    if i < v.len() {
        assert(v[i].repo != repo);
        lemma_absent_drift(v, repo, i + 1);
    }
}

/// The newest regression of a repository is the one that stands: the first of its rows, whatever
/// older ones say.
pub proof fn newest_regression_stands(rows: Seq<PolicyDecisionRecord>, k: int, d: Drift)
    requires
        0 <= k < rows.len(),
        regression_of(rows[k]) == Some(d),
        forall|j: int|
            0 <= j < k ==> (regression_of(#[trigger] rows[j]) matches Some(e) ==> e.repo != d.repo),
    ensures
        group_for(rows, d.repo).regression == Some(d),
{
    lemma_newest_drift(rows, |r: PolicyDecisionRecord| regression_of(r), k, d);
}

/// The newest accepted exception of a repository is the one that stands.
pub proof fn newest_exception_stands(rows: Seq<PolicyDecisionRecord>, k: int, d: Drift)
    requires
        0 <= k < rows.len(),
        exception_of(rows[k]) == Some(d),
        forall|j: int|
            0 <= j < k ==> (exception_of(#[trigger] rows[j]) matches Some(e) ==> e.repo != d.repo),
    ensures
        group_for(rows, d.repo).exception == Some(d),
{
    lemma_newest_drift(rows, |r: PolicyDecisionRecord| exception_of(r), k, d);
}

proof fn lemma_change_push(v: Seq<Change>, x: Change, repo: Seq<char>, i: int)
    requires
        0 <= i <= v.len(),
    ensures
        change_on_repo(v.push(x), repo, i) == (match change_on_repo(v, repo, i) {
            Some(d) => Some(d),
            None => if x.repo == repo {
                Some(x)
            } else {
                None
            },
        }),
    decreases v.len() - i,
{
    let w = v.push(x);
    if i < v.len() {
        assert(w[i] == v[i]);
        lemma_change_push(v, x, repo, i + 1);
    } else {
        assert(w[i] == x);
        assert(change_on_repo(w, repo, i + 1) is None);
    }
}

proof fn lemma_absent_change(v: Seq<Change>, repo: Seq<char>, i: int)
    requires
        0 <= i <= v.len(),
        !has_change(v, repo),
    ensures
        change_on_repo(v, repo, i) is None,
    decreases v.len() - i,
{
    if i < v.len() {
        assert(v[i].repo != repo);
        lemma_absent_change(v, repo, i + 1);
    }
}

proof fn lemma_kept_changes(v: Seq<Change>, repo: Seq<char>)
    ensures
        has_change(first_change_per_repo(v), repo) ==> has_change(v, repo),
    decreases v.len(),
{
    if v.len() > 0 {
        let d = v.drop_last();
        let rest = first_change_per_repo(d);
        let all = first_change_per_repo(v);
        lemma_kept_changes(d, repo);
        if has_change(all, repo) {
            let k = choose|k: int| 0 <= k < all.len() && (#[trigger] all[k]).repo == repo;
            if k < rest.len() {
                assert(rest[k].repo == repo);
                let m = choose|m: int| 0 <= m < d.len() && (#[trigger] d[m]).repo == repo;
                assert(v[m].repo == repo);
            } else {
                assert(v[v.len() - 1].repo == repo);
            }
        }
    }
}

/// The newest change of a repository's builds is the one that stands.
pub proof fn newest_change_stands(rows: Seq<PolicyDecisionRecord>, k: int, c: Change)
    requires
        0 <= k < rows.len(),
        change_of(rows[k]) == Some(c),
        forall|j: int|
            0 <= j < k ==> (change_of(#[trigger] rows[j]) matches Some(e) ==> e.repo != c.repo),
    ensures
        group_for(rows, c.repo).change == Some(c),
    decreases rows.len(),
{
    let f = |r: PolicyDecisionRecord| change_of(r);
    let n = rows.len() - 1;
    let prev = rows.drop_last();
    let x = rows.last();
    assert(rows =~= prev.push(x));
    lemma_filter_map_push(prev, f, x);
    let v = prev.filter_map(f);
    let rest = first_change_per_repo(v);
    if k < n {
        assert forall|j: int| 0 <= j < k implies (change_of(#[trigger] prev[j]) matches Some(e)
            ==> e.repo != c.repo) by {
            assert(prev[j] == rows[j]);
        }
        assert(prev[k] == rows[k]);
        newest_change_stands(prev, k, c);
        match f(x) {
            Some(e) => {
                assert(v.push(e).drop_last() =~= v);
                lemma_change_push(rest, e, c.repo, 0);
            },
            None => {},
        }
    } else {
        assert(v.push(c).drop_last() =~= v);
        assert(!has_change(v, c.repo)) by {
            if has_change(v, c.repo) {
                let m = choose|m: int| 0 <= m < v.len() && (#[trigger] v[m]).repo == c.repo;
                assert(v.contains(v[m]));
                lemma_filter_map_member(prev, f, v[m]);
                let j = choose|j: int| 0 <= j < prev.len() && f(#[trigger] prev[j]) == Some(v[m]);
                assert(rows[j] == prev[j]);
            }
        }
        lemma_kept_changes(v, c.repo);
        lemma_change_push(rest, c, c.repo, 0);
        lemma_absent_change(rest, c.repo, 0);
    }
}

proof fn lemma_first_row(
    rows: Seq<PolicyDecisionRecord>,
    p: spec_fn(PolicyDecisionRecord) -> bool,
    i: int,
    k: int,
)
    requires
        0 <= i <= k < rows.len(),
        p(rows[k]),
        forall|j: int| i <= j < k ==> !p(#[trigger] rows[j]),
    ensures
        first_row(rows, p, i) == Some(rows[k]),
    decreases k - i,
{
    if i < k {
        assert(!p(rows[i]));
        lemma_first_row(rows, p, i + 1, k);
    }
}

proof fn lemma_no_row(
    rows: Seq<PolicyDecisionRecord>,
    p: spec_fn(PolicyDecisionRecord) -> bool,
    i: int,
)
    requires
        0 <= i <= rows.len(),
        forall|j: int| i <= j < rows.len() ==> !p(#[trigger] rows[j]),
    ensures
        first_row(rows, p, i) is None,
    decreases rows.len() - i,
{
    if i < rows.len() {
        assert(!p(rows[i]));
        lemma_no_row(rows, p, i + 1);
    }
}

/// The newest row on an image's build decides what shows of it: the word of that row is the posture,
/// and only a verified one names a builder and a source.
pub proof fn newest_build_shows(rows: Seq<PolicyDecisionRecord>, image: Seq<char>, k: int)
    requires
        0 <= k < rows.len(),
        tells_build(rows[k], image),
        forall|j: int| 0 <= j < k ==> !tells_build(#[trigger] rows[j], image),
    ensures
        rows[k].image@ == image,
        "Provenance/"@.is_prefix_of(rows[k].subject@),
        provenance_posture(rows, image) == ProvenancePosture::parse_of(rows[k].signature@),
        rows[k].signature@ == "provenance-verified"@ ==> verified_build(rows, image) == build_parts(
            rows[k].reason@,
        ),
        rows[k].signature@ != "provenance-verified"@ ==> verified_build(rows, image) is None,
{
    lemma_first_row(rows, |r: PolicyDecisionRecord| tells_build(r, image), 0, k);
}

/// Without a row on its build an image shows no provenance.
pub proof fn untold_build_is_absent(rows: Seq<PolicyDecisionRecord>, image: Seq<char>)
    requires
        forall|j: int|
            0 <= j < rows.len() && "Provenance/"@.is_prefix_of((#[trigger] rows[j]).subject@)
                ==> rows[j].image@ != image,
    ensures
        provenance_posture(rows, image) == ProvenancePosture::Absent,
        verified_build(rows, image) is None,
{
    lemma_no_row(rows, |r: PolicyDecisionRecord| tells_build(r, image), 0);
}

/// The newest row with a known word decides the strength of a repository's baseline.
pub proof fn newest_strength_shows(rows: Seq<PolicyDecisionRecord>, repo: Seq<char>, k: int)
    requires
        0 <= k < rows.len(),
        tells_strength(rows[k], repo),
        forall|j: int| 0 <= j < k ==> !tells_strength(#[trigger] rows[j], repo),
    ensures
        group_for(rows, repo).strength == RepoStrength::parse_of(rows[k].signature@),
        group_for(rows, repo).strength != RepoStrength::Unknown,
        rows[k].subject@ == "SigningStrength/"@ + repo,
{
    lemma_first_row(rows, |r: PolicyDecisionRecord| tells_strength(r, repo), 0, k);
    stripped_prefix_leads(rows[k].subject@, "SigningStrength/"@, repo);
}

/// Without a row with a known word the strength of a repository's baseline is unknown.
pub proof fn untold_strength_is_unknown(rows: Seq<PolicyDecisionRecord>, repo: Seq<char>)
    requires
        forall|j: int| 0 <= j < rows.len() ==> !tells_strength(#[trigger] rows[j], repo),
    ensures
        group_for(rows, repo).strength == RepoStrength::Unknown,
{
    lemma_no_row(rows, |r: PolicyDecisionRecord| tells_strength(r, repo), 0);
}

// ---------------------------------------------------------------------------
// What an image shows
// ---------------------------------------------------------------------------

/// A repository shows exactly the rows that observe its images, each as often as it was observed.
pub proof fn repository_shows_its_images(rows: Seq<PolicyDecisionRecord>, repo: Seq<char>)
    ensures
        group_for(rows, repo).images.to_multiset() == rows.filter(
            |r: PolicyDecisionRecord| is_about(r, "Image/"@) && repo_of(r) == repo,
        ).to_multiset(),
{
    let a = |r: PolicyDecisionRecord| is_about(r, "Image/"@);
    let b = |r: PolicyDecisionRecord| repo_of(r) == repo;
    let both = |r: PolicyDecisionRecord| is_about(r, "Image/"@) && repo_of(r) == repo;
    lemma_filter_twice(rows, a, b, both);
    order::sorting_permutes(observed(rows).filter(b), image_order());
}

/// A shown image is one that a row observes: with that row's reference, words and count, and a label
/// that is never empty where the reference is not.
pub proof fn shown_image_is_observed(
    rows: Seq<PolicyDecisionRecord>,
    v: Seq<SigningRepoProps>,
    i: int,
    k: int,
)
    requires
        shows_inventory(rows, v),
        0 <= i < v.len(),
        0 <= k < v[i].images@.len(),
    ensures
        exists|m: int|
            0 <= m < rows.len() && is_about(#[trigger] rows[m], "Image/"@) && repo_of(rows[m])
                == v[i].repo@ && v[i].images@[k].image@ == rows[m].image@ && v[i].images@[k].detail@
                == rows[m].reason@ && v[i].images@[k].count == rows[m].count
                && v[i].images@[k].posture == SigningPosture::parse_of(rows[m].signature@)
                && v[i].images@[k].enforcement == enforcement(
                rows,
                v[i].images@[k].posture,
                rows[m].image@,
            ),
        v[i].images@[k].label@.len() == 0 ==> v[i].images@[k].image@.len() == 0,
        v[i].images@[k].provenance == provenance_posture(rows, v[i].images@[k].image@),
{
    broadcast use vstd::seq_lib::to_multiset_contains;

    let g = inventory(rows)[i];
    assert(shows_group(rows, g, v[i]));
    lemma_inventory_repos(rows);
    assert(g == group_for(rows, g.repo));
    let r = g.images[k];
    assert(shows_image(rows, r, v[i].images@[k]));
    repository_shows_its_images(rows, g.repo);
    let both = |r: PolicyDecisionRecord| is_about(r, "Image/"@) && repo_of(r) == g.repo;
    assert(g.images.contains(r));
    assert(g.images.to_multiset().count(r) > 0);
    assert(rows.filter(both).to_multiset().count(r) > 0);
    assert(rows.filter(both).contains(r));
    lemma_filter_member(rows, both, r);
    let m = rows.index_of(r);
    assert(rows[m] == r);
}

proof fn lemma_drift_on_image(v: Seq<Drift>, image: Seq<char>, i: int, k: int)
    requires
        0 <= i <= k < v.len(),
        v[k].image == image,
        forall|j: int| i <= j < k ==> (#[trigger] v[j]).image != image,
    ensures
        drift_on_image(v, image, i) == Some(v[k]),
    decreases k - i,
{
    if i < k {
        assert(v[i].image != image);
        lemma_drift_on_image(v, image, i + 1, k);
    }
}

proof fn lemma_no_drift_on_image(v: Seq<Drift>, image: Seq<char>, i: int)
    requires
        0 <= i <= v.len(),
        forall|j: int| i <= j < v.len() ==> (#[trigger] v[j]).image != image,
    ensures
        drift_on_image(v, image, i) is None,
    decreases v.len() - i,
{
    if i < v.len() {
        assert(v[i].image != image);
        lemma_no_drift_on_image(v, image, i + 1);
    }
}

/// An image that a standing regression is about would be blocked where the baseline is established,
/// and is uncertain where it is fresh.
pub proof fn regression_decides_enforcement(
    rows: Seq<PolicyDecisionRecord>,
    posture: SigningPosture,
    image: Seq<char>,
    k: int,
)
    requires
        0 <= k < regressions(rows).len(),
        regressions(rows)[k].image == image,
        forall|j: int| 0 <= j < k ==> (#[trigger] regressions(rows)[j]).image != image,
    ensures
        posture == SigningPosture::Invalid || regressions(rows)[k].established <==> enforcement(
            rows,
            posture,
            image,
        ) == SigningEnforcement::WouldBlock,
        posture != SigningPosture::Invalid && !regressions(rows)[k].established ==> enforcement(
            rows,
            posture,
            image,
        ) == SigningEnforcement::Uncertain,
{
    lemma_drift_on_image(regressions(rows), image, 0, k);
}

/// An image that no regression is about would be admitted unless its signature is broken; where an
/// accepted exception is about it, that is what it says.
pub proof fn without_regression_exception_or_admission(
    rows: Seq<PolicyDecisionRecord>,
    posture: SigningPosture,
    image: Seq<char>,
)
    requires
        forall|j: int| 0 <= j < regressions(rows).len() ==> (#[trigger] regressions(rows)[j]).image
            != image,
    ensures
        posture == SigningPosture::Invalid <==> enforcement(rows, posture, image)
            == SigningEnforcement::WouldBlock,
        enforcement(rows, posture, image) == SigningEnforcement::ExceptionAccepted <==> posture
            != SigningPosture::Invalid && exists|j: int|
            0 <= j < exceptions(rows).len() && (#[trigger] exceptions(rows)[j]).image == image,
        enforcement(rows, posture, image) != SigningEnforcement::Uncertain,
{
    lemma_no_drift_on_image(regressions(rows), image, 0);
    if exists|j: int| 0 <= j < exceptions(rows).len() && (#[trigger] exceptions(rows)[j]).image == image {
        lemma_some_drift_on_image(exceptions(rows), image, 0);
    } else {
        lemma_no_drift_on_image(exceptions(rows), image, 0);
    }
}

proof fn lemma_some_drift_on_image(v: Seq<Drift>, image: Seq<char>, i: int)
    requires
        0 <= i,
        exists|j: int| i <= j < v.len() && (#[trigger] v[j]).image == image,
    ensures
        drift_on_image(v, image, i) is Some,
    decreases v.len() - i,
{
    let j = choose|j: int| i <= j < v.len() && (#[trigger] v[j]).image == image;
    if v[i].image != image {
        assert(i + 1 <= j);
        lemma_some_drift_on_image(v, image, i + 1);
    }
}

// ---------------------------------------------------------------------------
// Reading the rows
// ---------------------------------------------------------------------------

/// The words that are recorded for a signature, and what each says. Any other word says that it is
/// not known yet.
pub proof fn recorded_words(word: Seq<char>)
    ensures
        SigningPosture::parse_of("signed"@) == SigningPosture::Signed,
        SigningPosture::parse_of(word) == SigningPosture::Signed <==> word == "signed"@,
        SigningPosture::parse_of(word) == SigningPosture::Invalid ==> word == "invalid-signature"@,
        SigningPosture::parse_of(word) == SigningPosture::NotSigned ==> word == "not-signed"@,
        SigningPosture::parse_of(word) == SigningPosture::Unverifiable ==> word == "unverifiable"@,
        SigningPosture::parse_of(word) == SigningPosture::SignedKeyBased ==> word
            == "signed-key-based"@,
        ProvenancePosture::parse_of(word) == ProvenancePosture::Verified <==> word
            == "provenance-verified"@,
        ProvenancePosture::parse_of(word) == ProvenancePosture::Unverifiable ==> word
            == "provenance-unverifiable"@,
        ProvenancePosture::parse_of(word) == ProvenancePosture::Absent ==> word == "no-provenance"@,
        RepoStrength::parse_of(word) == RepoStrength::LogCorroborated <==> word
            == "log-corroborated"@,
        RepoStrength::parse_of(word) == RepoStrength::LocalOnly ==> word == "local-only"@,
{
}

/// A reason that names a signer and an issuer gives both back, and one that names a signer alone
/// gives that one.
pub proof fn signer_is_read_back(identity: Seq<char>, issuer: Seq<char>)
    requires
        !identity.contains(' '),
    ensures
        signer_parts("signed by "@ + (identity + " via "@ + issuer)) == Some((identity, Some(issuer))),
        signer_parts("signed by "@ + identity) == Some((identity, None::<Seq<char>>)),
{
    reveal_strlit(" via ");
    assert(" via "@[0] == ' ');
    comes_apart_in_front(identity, " via "@, issuer, 0);
    stays_whole(identity, " via "@, 0);
    stripped_prefix_leads(identity, "signed by "@, identity + " via "@ + issuer);
    stripped_prefix_leads(identity, "signed by "@, identity);
}

/// A reason that names a builder and a source gives both back.
pub proof fn build_is_read_back(builder: Seq<char>, source: Seq<char>)
    requires
        !source.contains(' '),
    ensures
        build_parts("built by "@ + (builder + " from "@ + source)) == Some((builder, source)),
{
    reveal_strlit(" from ");
    assert(" from "@.len() == 6 && " from "@[5] == ' ');
    comes_apart_behind(builder, " from "@, source, 5);
    stripped_prefix_leads(builder, "built by "@, builder + " from "@ + source);
}

/// What came before is read off behind its mark.
pub proof fn clauses_are_read_back(after: Seq<char>, before: Seq<char>)
    requires
        !after.contains('|'),
    ensures
        clauses(after + " | before: "@ + before) == (after, before),
        clauses(after) == (after, Seq::<char>::empty()),
{
    reveal_strlit(" | before: ");
    assert(" | before: "@[0] == ' ' && " | before: "@[1] == '|');
    comes_apart_in_front(after, " | before: "@, before, 1);
    stays_whole(after, " | before: "@, 1);
}

/// The names of a list are its parts without the blanks around them, those that are all blank left
/// out.
pub proof fn names_are_the_parts(list: Seq<char>, x: Seq<char>)
    ensures
        names(list).contains(x) <==> x.len() > 0 && exists|k: int|
            0 <= k < text::split(list, ", "@).len() && text::trim(
                #[trigger] text::split(list, ", "@)[k],
            ) == x,
{
    let f = |s: Seq<char>| text::trim(s);
    let p = |s: Seq<char>| s.len() > 0;
    let parts = text::split(list, ", "@);
    let v = parts.map_values(f);
    lemma_filter_member(v, p, x);
    if v.contains(x) {
        let k = v.index_of(x);
        assert(text::trim(parts[k]) == x);
    }
    if exists|k: int| 0 <= k < parts.len() && text::trim(#[trigger] parts[k]) == x {
        let k = choose|k: int| 0 <= k < parts.len() && text::trim(#[trigger] parts[k]) == x;
        assert(v[k] == x);
    }
}

proof fn lemma_drift_words(prefix: Seq<char>, kind: RegressionKind, word: Seq<char>)
    requires
        !word.contains('-'),
    ensures
        text::strip_prefix(prefix + (kind.token_text() + "-"@ + word), prefix) == Some(
            kind.token_text() + "-"@ + word,
        ),
        text::rsplit_once(kind.token_text() + "-"@ + word, "-"@) == Some((kind.token_text(), word)),
{
    reveal_strlit("-");
    assert("-"@.len() == 1 && "-"@[0] == '-');
    stripped_prefix_leads(prefix, prefix, kind.token_text() + "-"@ + word);
    comes_apart_behind(kind.token_text(), "-"@, word, 0);
}

/// A regression is read off its row: the repository of the subject, the kind and whether the
/// baseline is established off the status, the image as it is; the signer that came after where the
/// identity changed.
pub proof fn regression_is_read_back(
    r: PolicyDecisionRecord,
    repo: Seq<char>,
    kind: RegressionKind,
    established: bool,
)
    requires
        r.subject@ == "SigningRegression/"@ + repo,
        r.signature@ == "regression-"@ + (kind.token_text() + "-"@ + (if established {
            "established"@
        } else {
            "cold"@
        })),
    ensures
        regression_of(r) matches Some(d) && d.repo == repo && d.kind == kind && d.established
            == established && d.image == r.image@ && d.before == names(clauses(r.reason@).1) && (kind
            == RegressionKind::IdentityChange ==> (signer_parts(clauses(r.reason@).0) matches Some(s)
            ==> d.after_identity == Some(s.0) && d.after_issuer == s.1)) && (kind
            != RegressionKind::IdentityChange ==> d.after_identity is None),
{
    lemma_status_words();
    let word = if established {
        "established"@
    } else {
        "cold"@
    };
    lemma_drift_words("regression-"@, kind, word);
    stripped_prefix_leads(repo, "SigningRegression/"@, repo);
    kind_is_read_back(kind);
}

/// An accepted exception is read off its row as a regression is.
pub proof fn exception_is_read_back(
    r: PolicyDecisionRecord,
    repo: Seq<char>,
    kind: RegressionKind,
    established: bool,
)
    requires
        r.subject@ == "SigningException/"@ + repo,
        r.signature@ == "exception-"@ + (kind.token_text() + "-"@ + (if established {
            "established"@
        } else {
            "cold"@
        })),
    ensures
        exception_of(r) matches Some(d) && d.repo == repo && d.kind == kind && d.established
            == established && d.image == r.image@ && d.before == names(clauses(r.reason@).1),
{
    lemma_status_words();
    let word = if established {
        "established"@
    } else {
        "cold"@
    };
    lemma_drift_words("exception-"@, kind, word);
    stripped_prefix_leads(repo, "SigningException/"@, repo);
    kind_is_read_back(kind);
}

proof fn lemma_status_words()
    ensures
        !"established"@.contains('-'),
        !"cold"@.contains('-'),
        "established"@ != "cold"@,
{
    reveal_strlit("established");
    reveal_strlit("cold");
    assert("established"@.len() != "cold"@.len());
}

/// A change of builds is read off its row: what built the image before, and from what it is built
/// now by whom.
pub proof fn change_is_read_back(r: PolicyDecisionRecord, repo: Seq<char>, established: bool)
    requires
        r.subject@ == "ProvenanceChange/"@ + repo,
        r.signature@ == "provenance-change-"@ + (if established {
            "established"@
        } else {
            "cold"@
        }),
    ensures
        change_of(r) matches Some(c) && c.repo == repo && c.established == established && c.image
            == r.image@ && c.before == names(clauses(r.reason@).1) && (build_parts(
            clauses(r.reason@).0,
        ) matches Some(b) ==> c.after_builder == b.0 && c.after_source == b.1),
{
    lemma_status_words();
    let word = if established {
        "established"@
    } else {
        "cold"@
    };
    stripped_prefix_leads(repo, "ProvenanceChange/"@, repo);
    stripped_prefix_leads(word, "provenance-change-"@, word);
}

/// A reference that is pinned by a digest belongs to the repository in front of it.
pub proof fn digest_reference_is_read_back(repo: Seq<char>, digest: Seq<char>)
    requires
        !repo.contains('@'),
    ensures
        ref_parts(repo + "@"@ + digest) == (repo, digest),
{
    reveal_strlit("@");
    assert("@"@.len() == 1 && "@"@[0] == '@');
    comes_apart_in_front(repo, "@"@, digest, 0);
}

/// A tagged reference belongs to the repository in front of the tag, a port in its host or not.
pub proof fn tagged_reference_is_read_back(dir: Seq<char>, name: Seq<char>, tag: Seq<char>)
    requires
        !dir.contains('@') && !name.contains('@') && !tag.contains('@'),
        !name.contains('/') && !tag.contains('/'),
        !name.contains(':'),
    ensures
        ref_parts(dir + "/"@ + (name + ":"@ + tag)) == (dir + "/"@ + name, tag),
        ref_parts(dir + "/"@ + name) == (dir + "/"@ + name, Seq::<char>::empty()),
{
    reveal_strlit("@");
    reveal_strlit("/");
    reveal_strlit(":");
    assert("@"@ =~= seq!['@'] && "/"@ =~= seq!['/'] && ":"@ =~= seq![':']);
    let s = dir + "/"@ + (name + ":"@ + tag);
    let n = dir.len() as int;
    let rest = name + ":"@ + tag;
    assert(!rest.contains('/')) by {
        if rest.contains('/') {
            let i = rest.index_of('/');
            if i < name.len() {
                assert(name[i] == '/');
                assert(name.contains(name[i]));
            } else if i > name.len() {
                assert(tag[i - name.len() - 1] == '/');
                assert(tag.contains(tag[i - name.len() - 1]));
            }
        }
    }
    assert(!s.contains('@')) by {
        if s.contains('@') {
            let i = s.index_of('@');
            if i < n {
                assert(dir.contains(dir[i]));
            } else if i > n && i - n - 1 < name.len() {
                assert(name.contains(name[i - n - 1]));
            } else if i - n - 1 > name.len() {
                assert(tag.contains(tag[i - n - 2 - name.len()]));
            }
        }
    }
    stays_whole(s, "@"@, 0);
    comes_apart_behind(dir, "/"@, rest, 0);
    lemma_last_slash(dir, rest);
    lemma_colon(s, n + 1, n + 1 + name.len());
    assert(s.take(n + 1 + name.len()) =~= dir + "/"@ + name);
    assert(s.skip(n + 2 + name.len()) =~= tag);
    let u = dir + "/"@ + name;
    assert(!u.contains('@')) by {
        if u.contains('@') {
            let i = u.index_of('@');
            if i < n {
                assert(dir.contains(dir[i]));
            } else if i > n {
                assert(name.contains(name[i - n - 1]));
            }
        }
    }
    stays_whole(u, "@"@, 0);
    lemma_last_slash(dir, name);
    lemma_no_colon(u, n + 1);
}

proof fn lemma_last_slash(dir: Seq<char>, rest: Seq<char>)
    requires
        !rest.contains('/'),
    ensures
        text::rfind(dir + "/"@ + rest, "/"@) == Some(dir.len() as int),
{
    reveal_strlit("/");
    assert("/"@ =~= seq!['/']);
    let s = dir + "/"@ + rest;
    comes_apart_behind(dir, "/"@, rest, 0);
    match text::rfind(s, "/"@) {
        Some(i) => {
            found_from_behind_is_last(s, "/"@);
            assert(s.take(i).len() == i);
        },
        None => {},
    }
}

proof fn lemma_colon(s: Seq<char>, i: int, k: int)
    requires
        0 <= i <= k < s.len(),
        s[k] == ':',
        forall|j: int| i <= j < k ==> #[trigger] s[j] != ':',
    ensures
        text::find_from(s, ":"@, i) == Some(k),
    decreases k - i,
{
    reveal_strlit(":");
    assert(":"@ =~= seq![':']);
    assert(s.subrange(i, i + 1) =~= seq![s[i]]);
    if i < k {
        assert(s.subrange(i, i + 1)[0] != ":"@[0]);
        lemma_colon(s, i + 1, k);
    }
}

proof fn lemma_no_colon(s: Seq<char>, i: int)
    requires
        0 <= i <= s.len(),
        forall|j: int| i <= j < s.len() ==> #[trigger] s[j] != ':',
    ensures
        text::find_from(s, ":"@, i) is None,
    decreases s.len() - i,
{
    reveal_strlit(":");
    assert(":"@ =~= seq![':']);
    if i < s.len() {
        assert(s.subrange(i, i + 1)[0] == s[i]);
        lemma_no_colon(s, i + 1);
    }
}

/// An issuer is known by its host, whatever the scheme and path.
pub proof fn issuer_is_known_by_its_host(host: Seq<char>, path: Seq<char>)
    requires
        !host.contains('/'),
    ensures
        host_text("https://"@ + (host + "/"@ + path)) == host,
        host_text("https://"@ + host) == host,
        badge_text("https://"@ + host) == (if host == "token.actions.githubusercontent.com"@ {
            "github actions"@
        } else if host == "accounts.google.com"@ {
            "google"@
        } else if host == "oauth2.sigstore.dev"@ {
            "sigstore"@
        } else {
            host
        }),
{
    reveal_strlit("/");
    assert("/"@ =~= seq!['/']);
    stripped_prefix_leads(host, "https://"@, host + "/"@ + path);
    stripped_prefix_leads(host, "https://"@, host);
    comes_apart_in_front(host, "/"@, path, 0);
    stays_whole(host, "/"@, 0);
}

/// A workflow identity reads as the owner and repository it belongs to.
pub proof fn workflow_reads_as_its_repository(owner: Seq<char>, repo: Seq<char>, path: Seq<char>)
    requires
        owner.len() > 0 && is_segment(owner) && !owner.contains('.'),
        repo.len() > 0 && is_segment(repo) && !repo.contains('.'),
    ensures
        short_identity_text(
            "https://github.com/"@ + ((owner + "/"@ + repo) + "/.github/"@ + path),
        ) == owner + "/"@ + repo,
{
    reveal_strlit("/.github/");
    reveal_strlit("/");
    assert("/"@ =~= seq!['/']);
    assert("/.github/"@[0] == '/' && "/.github/"@[1] == '.');
    let name = owner + "/"@ + repo;
    assert(!name.contains('.')) by {
        if name.contains('.') {
            let i = name.index_of('.');
            if i < owner.len() {
                assert(owner.contains(owner[i]));
            } else if i > owner.len() {
                assert(repo.contains(repo[i - owner.len() - 1]));
            }
        }
    }
    stripped_prefix_leads(name, "https://github.com/"@, name + "/.github/"@ + path);
    comes_apart_in_front(name, "/.github/"@, path, 1);
    lemma_segments(owner, repo);
    lemma_one_segment(repo);
    let segs = seq![owner] + seq![repo];
    assert(segs[0] == owner && segs[1] == repo);
}

/// A source reads as the second and third of its segments.
pub proof fn source_reads_as_its_repository(host: Seq<char>, owner: Seq<char>, repo: Seq<char>)
    requires
        host.len() > 0 && is_segment(host),
        owner.len() > 0 && is_segment(owner),
        repo.len() > 0 && is_segment(repo),
    ensures
        short_source_text(host + "/"@ + (owner + "/"@ + repo)) == owner + "/"@ + repo,
{
    lemma_segments(host, owner + "/"@ + repo);
    lemma_segments(owner, repo);
    lemma_one_segment(repo);
    let segs = seq![host] + (seq![owner] + seq![repo]);
    lemma_filter_all(segs, |s: Seq<char>| s.len() > 0);
    assert(nonempty(segs) == segs);
}

// ---------------------------------------------------------------------------
// What a repository shows
// ---------------------------------------------------------------------------

/// A repository shows its newest regression: the kind, whether the baseline is established, the image
/// it is about, who signed before and who signs now.
pub proof fn banner_shows_the_newest_regression(
    rows: Seq<PolicyDecisionRecord>,
    v: Seq<SigningRepoProps>,
    i: int,
    k: int,
    d: Drift,
)
    requires
        shows_inventory(rows, v),
        0 <= i < v.len(),
        0 <= k < rows.len(),
        regression_of(rows[k]) == Some(d),
        v[i].repo@ == d.repo,
        forall|j: int|
            0 <= j < k ==> (regression_of(#[trigger] rows[j]) matches Some(e) ==> e.repo != d.repo),
    ensures
        v[i].regression matches Some(p) && p.kind == d.kind && p.established == d.established
            && p.image@ == d.image && text::texts(p.before_identities@) == d.before && text::opt_text(
            p.after_identity,
        ) == d.after_identity && text::opt_text(p.after_issuer) == d.after_issuer,
{
    let g = inventory(rows)[i];
    assert(shows_group(rows, g, v[i]));
    lemma_inventory_repos(rows);
    assert(g == group_for(rows, g.repo));
    newest_regression_stands(rows, k, d);
}

/// A repository shows its newest accepted exception.
pub proof fn banner_shows_the_newest_exception(
    rows: Seq<PolicyDecisionRecord>,
    v: Seq<SigningRepoProps>,
    i: int,
    k: int,
    d: Drift,
)
    requires
        shows_inventory(rows, v),
        0 <= i < v.len(),
        0 <= k < rows.len(),
        exception_of(rows[k]) == Some(d),
        v[i].repo@ == d.repo,
        forall|j: int|
            0 <= j < k ==> (exception_of(#[trigger] rows[j]) matches Some(e) ==> e.repo != d.repo),
    ensures
        v[i].exception matches Some(p) && p.kind == d.kind && p.established == d.established
            && p.image@ == d.image && text::texts(p.before_identities@) == d.before && text::opt_text(
            p.after_identity,
        ) == d.after_identity,
{
    let g = inventory(rows)[i];
    assert(shows_group(rows, g, v[i]));
    lemma_inventory_repos(rows);
    assert(g == group_for(rows, g.repo));
    newest_exception_stands(rows, k, d);
}

/// A repository shows the newest change of its builds: who built before, and who builds now from
/// what.
pub proof fn banner_shows_the_newest_change(
    rows: Seq<PolicyDecisionRecord>,
    v: Seq<SigningRepoProps>,
    i: int,
    k: int,
    c: Change,
)
    requires
        shows_inventory(rows, v),
        0 <= i < v.len(),
        0 <= k < rows.len(),
        change_of(rows[k]) == Some(c),
        v[i].repo@ == c.repo,
        forall|j: int|
            0 <= j < k ==> (change_of(#[trigger] rows[j]) matches Some(e) ==> e.repo != c.repo),
    ensures
        v[i].provenance_change matches Some(p) && p.established == c.established && p.image@
            == c.image && text::texts(p.before_builders@) == c.before && p.after_builder@
            == c.after_builder && p.after_source@ == c.after_source,
{
    let g = inventory(rows)[i];
    assert(shows_group(rows, g, v[i]));
    lemma_inventory_repos(rows);
    assert(g == group_for(rows, g.repo));
    newest_change_stands(rows, k, c);
}

/// A repository without a drift of its own shows none.
pub proof fn no_drift_no_banner(
    rows: Seq<PolicyDecisionRecord>,
    v: Seq<SigningRepoProps>,
    i: int,
)
    requires
        shows_inventory(rows, v),
        0 <= i < v.len(),
        forall|j: int|
            0 <= j < rows.len() ==> (regression_of(#[trigger] rows[j]) matches Some(e) ==> e.repo
                != v[i].repo@) && (exception_of(rows[j]) matches Some(e) ==> e.repo != v[i].repo@) && (
            change_of(rows[j]) matches Some(e) ==> e.repo != v[i].repo@),
    ensures
        v[i].regression is None,
        v[i].exception is None,
        v[i].provenance_change is None,
{
    let g = inventory(rows)[i];
    let repo = g.repo;
    let fr = |r: PolicyDecisionRecord| regression_of(r);
    let fe = |r: PolicyDecisionRecord| exception_of(r);
    let fc = |r: PolicyDecisionRecord| change_of(r);
    assert(shows_group(rows, g, v[i]));
    lemma_inventory_repos(rows);
    assert(g == group_for(rows, repo));
    let a = rows.filter_map(fr);
    let b = rows.filter_map(fe);
    let c = rows.filter_map(fc);
    if has_drift(a, repo) {
        let m = choose|m: int| 0 <= m < a.len() && (#[trigger] a[m]).repo == repo;
        assert(a.contains(a[m]));
        lemma_filter_map_member(rows, fr, a[m]);
    }
    if has_drift(b, repo) {
        let m = choose|m: int| 0 <= m < b.len() && (#[trigger] b[m]).repo == repo;
        assert(b.contains(b[m]));
        lemma_filter_map_member(rows, fe, b[m]);
        let j = choose|j: int| 0 <= j < rows.len() && fe(#[trigger] rows[j]) == Some(b[m]);
        assert(exception_of(rows[j]) == Some(b[m]));
    }
    if has_change(c, repo) {
        let m = choose|m: int| 0 <= m < c.len() && (#[trigger] c[m]).repo == repo;
        assert(c.contains(c[m]));
        lemma_filter_map_member(rows, fc, c[m]);
        let j = choose|j: int| 0 <= j < rows.len() && fc(#[trigger] rows[j]) == Some(c[m]);
        assert(change_of(rows[j]) == Some(c[m]));
    }
    lemma_kept_drifts(a, repo);
    lemma_kept_drifts(b, repo);
    lemma_kept_changes(c, repo);
    lemma_absent_drift(regressions(rows), repo, 0);
    lemma_absent_drift(exceptions(rows), repo, 0);
    lemma_absent_change(changes(rows), repo, 0);
}

/// An image with a verified signature shows who signed it, as the row says it, and one with a
/// verified build who built it from what.
pub proof fn image_shows_signer_and_build(
    rows: Seq<PolicyDecisionRecord>,
    r: PolicyDecisionRecord,
    p: SigningRowProps,
)
    requires
        shows_image(rows, r, p),
    ensures
        r.signature@ == "signed"@ ==> (signer_parts(r.reason@) matches Some(s) ==> (p.signer matches Some(
            q,
        ) && q.identity_full@ == s.0 && q.identity_short@ == short_identity_text(s.0)
            && text::opt_text(q.issuer_full) == s.1 && (s.1 matches Some(iss) ==> q.issuer_badge@
            == badge_text(iss)))),
        r.signature@ != "signed"@ ==> p.signer is None,
        verified_build(rows, r.image@) matches Some(b) ==> (p.provenance_info matches Some(q)
            && q.builder_full@ == b.0 && q.source_full@ == b.1 && q.builder_short@
            == short_identity_text(b.0) && q.source_short@ == short_source_text(b.1)),
        p.image@ == r.image@,
        p.detail@ == r.reason@,
        p.count == r.count,
{
}

/// Ids in the inventory tell what they are of: an image, a regression, an exception or a change, each
/// with its own mark in front of the name.
pub proof fn inventory_ids_tell_what_they_are_of(
    rows: Seq<PolicyDecisionRecord>,
    v: Seq<SigningRepoProps>,
    i: int,
    k: int,
)
    requires
        shows_inventory(rows, v),
        0 <= i < v.len(),
    ensures
        0 <= k < v[i].images@.len() ==> v[i].images@[k].dom_id@ == signing_id_text(
            "si"@,
            v[i].images@[k].image@,
        ),
        v[i].regression matches Some(p) ==> p.dom_id@ == signing_id_text("sr"@, v[i].repo@),
        v[i].exception matches Some(p) ==> p.dom_id@ == signing_id_text("se"@, v[i].repo@),
        v[i].provenance_change matches Some(p) ==> p.dom_id@ == signing_id_text("pc"@, v[i].repo@),
        v[i].strength == group_for(rows, v[i].repo@).strength,
{
    let g = inventory(rows)[i];
    assert(shows_group(rows, g, v[i]));
    lemma_inventory_repos(rows);
    assert(g == group_for(rows, g.repo));
    lemma_drift_repo(regressions(rows), g.repo, 0);
    lemma_drift_repo(exceptions(rows), g.repo, 0);
    lemma_change_repo(changes(rows), g.repo, 0);
    if 0 <= k < v[i].images@.len() {
        assert(shows_image(rows, g.images[k], v[i].images@[k]));
    }
}

proof fn lemma_drift_repo(v: Seq<Drift>, repo: Seq<char>, i: int)
    requires
        0 <= i,
    ensures
        drift_on_repo(v, repo, i) matches Some(d) ==> d.repo == repo,
    decreases v.len() - i,
{
    if i < v.len() && v[i].repo != repo {
        lemma_drift_repo(v, repo, i + 1);
    }
}

proof fn lemma_change_repo(v: Seq<Change>, repo: Seq<char>, i: int)
    requires
        0 <= i,
    ensures
        change_on_repo(v, repo, i) matches Some(c) ==> c.repo == repo,
    decreases v.len() - i,
{
    if i < v.len() && v[i].repo != repo {
        lemma_change_repo(v, repo, i + 1);
    }
}

} // verus!
