//! What holds of the signing inventory as a whole.

use crate::order;
use crate::props::signing::{
    ProvenancePosture, SigningEnforcement, SigningPosture, SigningRepoProps, SigningRowProps,
};
use crate::state::PolicyDecisionRecord;
use crate::text_set::{distinct, lemma_distinct};
use crate::view_model::signing_inventory::{
    drift_on_image, drift_on_repo, enforcement, group_for, group_order, group_rank_of, image_order,
    inventory, loudest, observed, rank_of, repo_mentions, repo_of, row_posture, shows_group,
    shows_image, shows_inventory, Group,
};
use crate::view_model::signing_records::{
    change_of, changes, exception_of, exceptions, first_per_repo, has_drift, is_about,
    regression_of, regressions, Drift,
};
use vstd::prelude::*;

verus! {

/// The repositories of the inventory are those mentioned, each once.
pub proof fn lemma_inventory_repos(rows: Seq<PolicyDecisionRecord>)
    ensures
        inventory(rows).len() == distinct(repo_mentions(rows)).len(),
        forall|i: int|
            0 <= i < inventory(rows).len() ==> inventory(rows)[i] == group_for(
                rows,
                (#[trigger] inventory(rows)[i]).repo,
            ) && repo_mentions(rows).contains(inventory(rows)[i].repo),
        forall|repo: Seq<char>|
            repo_mentions(rows).contains(repo) ==> #[trigger] inventory(rows).contains(
                group_for(rows, repo),
            ),
        inventory(rows).no_duplicates(),
{
    let names = distinct(repo_mentions(rows));
    let f = |repo: Seq<char>| group_for(rows, repo);
    let groups = names.map_values(f);
    lemma_distinct(repo_mentions(rows));
    order::sorting_permutes(groups, group_order());
    let inv = inventory(rows);
    broadcast use vstd::seq_lib::to_multiset_contains;

    assert forall|i: int| 0 <= i < inv.len() implies inv[i] == group_for(
        rows,
        (#[trigger] inv[i]).repo,
    ) && repo_mentions(rows).contains(inv[i].repo) by {
        assert(inv.contains(inv[i]));
        assert(inv.to_multiset().count(inv[i]) > 0);
        assert(groups.contains(inv[i]));
        let k = groups.index_of(inv[i]);
        assert(groups[k] == group_for(rows, names[k]));
        assert(names.contains(names[k]));
    }
    assert forall|repo: Seq<char>| repo_mentions(rows).contains(repo) implies #[trigger] inv.contains(
        group_for(rows, repo),
    ) by {
        assert(names.contains(repo));
        let k = names.index_of(repo);
        assert(groups[k] == group_for(rows, repo));
        assert(groups.contains(groups[k]));
        assert(groups.to_multiset().count(groups[k]) > 0);
    }
    assert(groups.no_duplicates()) by {
        assert forall|i: int, j: int| 0 <= i < j < groups.len() implies groups[i] != groups[j] by {
            assert(groups[i].repo == names[i] && groups[j].repo == names[j]);
        }
    }
    groups.lemma_multiset_has_no_duplicates();
    inv.lemma_multiset_has_no_duplicates_conv();
}

/// No repository shows twice.
pub proof fn repositories_show_once(rows: Seq<PolicyDecisionRecord>, i: int, j: int)
    requires
        0 <= i < inventory(rows).len(),
        0 <= j < inventory(rows).len(),
        inventory(rows)[i].repo == inventory(rows)[j].repo,
    ensures
        i == j,
{
    lemma_inventory_repos(rows);
    assert(inventory(rows)[i] == group_for(rows, inventory(rows)[i].repo));
    assert(inventory(rows)[j] == group_for(rows, inventory(rows)[j].repo));
}

/// Every image that was observed shows, under its own repository.
pub proof fn every_image_shows(rows: Seq<PolicyDecisionRecord>, k: int)
    requires
        0 <= k < rows.len(),
        is_about(rows[k], "Image/"@),
    ensures
        exists|i: int|
            0 <= i < inventory(rows).len() && (#[trigger] inventory(rows)[i]).repo == repo_of(rows[k])
                && inventory(rows)[i].images.contains(rows[k]),
{
    let about = |r: PolicyDecisionRecord| is_about(r, "Image/"@);
    let f = |r: PolicyDecisionRecord| repo_of(r);
    let r = rows[k];
    let repo = repo_of(r);
    rows.lemma_filter_contains(about, k);
    let obs = observed(rows);
    assert(obs.contains(r));
    let m = obs.index_of(r);
    let images = obs.map_values(f);
    assert(images[m] == repo);
    let mentions = repo_mentions(rows);
    assert(mentions[m] == repo);
    assert(mentions.contains(repo));
    lemma_inventory_repos(rows);
    let g = group_for(rows, repo);
    assert(inventory(rows).contains(g));
    let i = inventory(rows).index_of(g);
    assert(inventory(rows)[i] == g);
    let of_repo = |x: PolicyDecisionRecord| repo_of(x) == repo;
    obs.lemma_filter_contains(of_repo, m);
    order::sorting_permutes(obs.filter(of_repo), image_order());
    broadcast use vstd::seq_lib::to_multiset_contains;

    assert(obs.filter(of_repo).to_multiset().count(r) > 0);
    assert(g.images.contains(r));
}

/// The loud come first: a repository never shows below one that asks for less attention, and so one
/// with a standing drift never shows below one without.
pub proof fn loud_repositories_come_first(rows: Seq<PolicyDecisionRecord>, i: int, j: int)
    requires
        0 <= i <= j < inventory(rows).len(),
    ensures
        group_rank_of(inventory(rows)[i]) <= group_rank_of(inventory(rows)[j]),
{
    let names = distinct(repo_mentions(rows));
    let groups = names.map_values(|repo: Seq<char>| group_for(rows, repo));
    assert(order::is_order(group_order()));
    order::sorting_orders(groups, group_order());
    if i < j {
        assert(group_order()(inventory(rows)[i], inventory(rows)[j]));
    }
}

/// Within a repository, an image never shows below one that asks for less attention.
pub proof fn loud_images_come_first(rows: Seq<PolicyDecisionRecord>, repo: Seq<char>, i: int, j: int)
    requires
        0 <= i <= j < group_for(rows, repo).images.len(),
    ensures
        rank_of(row_posture(group_for(rows, repo).images[i])) <= rank_of(
            row_posture(group_for(rows, repo).images[j]),
        ),
{
    let v = observed(rows).filter(|r: PolicyDecisionRecord| repo_of(r) == repo);
    assert(order::is_order(image_order()));
    order::sorting_orders(v, image_order());
    if i < j {
        assert(image_order()(group_for(rows, repo).images[i], group_for(rows, repo).images[j]));
    }
}

/// Repositories that ask for the same attention keep the order in which they were first mentioned.
pub proof fn ties_keep_their_order(rows: Seq<PolicyDecisionRecord>, rank: int)
    ensures
        inventory(rows).filter(|g: Group| group_rank_of(g) == rank) == distinct(
            repo_mentions(rows),
        ).map_values(|repo: Seq<char>| group_for(rows, repo)).filter(
            |g: Group| group_rank_of(g) == rank,
        ),
{
    let p = |g: Group| group_rank_of(g) == rank;
    let groups = distinct(repo_mentions(rows)).map_values(|repo: Seq<char>| group_for(rows, repo));
    order::sorting_is_stable(groups, group_order(), p);
}

proof fn lemma_first_per_repo(v: Seq<Drift>)
    ensures
        forall|i: int, j: int|
            0 <= i < j < first_per_repo(v).len() ==> (#[trigger] first_per_repo(v)[i]).repo != (
            #[trigger] first_per_repo(v)[j]).repo,
    decreases v.len(),
{
    if v.len() > 0 {
        let rest = first_per_repo(v.drop_last());
        lemma_first_per_repo(v.drop_last());
        if !has_drift(rest, v.last().repo) {
            let all = first_per_repo(v);
            assert forall|i: int, j: int| 0 <= i < j < all.len() implies (#[trigger] all[i]).repo != (
            #[trigger] all[j]).repo by {
                assert(all[i] == rest[i]);
            }
        }
    }
}

proof fn lemma_drift_on_repo(v: Seq<Drift>, repo: Seq<char>, i: int)
    requires
        0 <= i,
    ensures
        drift_on_repo(v, repo, i) is Some <==> exists|k: int|
            i <= k < v.len() && (#[trigger] v[k]).repo == repo,
        drift_on_repo(v, repo, i) matches Some(d) ==> d.repo == repo,
    decreases v.len() - i,
{
    if i < v.len() {
        if v[i].repo == repo {
            assert(v[i].repo == repo);
        } else {
            lemma_drift_on_repo(v, repo, i + 1);
            if exists|k: int| i <= k < v.len() && (#[trigger] v[k]).repo == repo {
                let k = choose|k: int| i <= k < v.len() && (#[trigger] v[k]).repo == repo;
                assert(i + 1 <= k);
            }
        }
    }
}

/// The banners and the counts agree: a repository carries a regression exactly when one stands for
/// it, and every standing regression has its repository in the inventory, with its images or
/// without.
pub proof fn banners_agree_with_counts(rows: Seq<PolicyDecisionRecord>)
    ensures
        forall|i: int|
            0 <= i < inventory(rows).len() ==> ((#[trigger] inventory(rows)[i]).regression is Some
                <==> has_drift(regressions(rows), inventory(rows)[i].repo)),
        forall|k: int|
            0 <= k < regressions(rows).len() ==> exists|i: int|
                0 <= i < inventory(rows).len() && (#[trigger] inventory(rows)[i]).repo == (
                #[trigger] regressions(rows)[k]).repo && inventory(rows)[i].regression is Some,
        forall|i: int, j: int|
            0 <= i < j < regressions(rows).len() ==> (#[trigger] regressions(rows)[i]).repo != (
            #[trigger] regressions(rows)[j]).repo,
{
    lemma_inventory_repos(rows);
    let regs = regressions(rows);
    lemma_first_per_repo(rows.filter_map(|r: PolicyDecisionRecord| regression_of(r)));
    assert forall|i: int| 0 <= i < inventory(rows).len() implies ((#[trigger] inventory(
        rows,
    )[i]).regression is Some <==> has_drift(regs, inventory(rows)[i].repo)) by {
        lemma_drift_on_repo(regs, inventory(rows)[i].repo, 0);
    }
    assert forall|k: int| 0 <= k < regs.len() implies exists|i: int|
        0 <= i < inventory(rows).len() && (#[trigger] inventory(rows)[i]).repo == (
        #[trigger] regs[k]).repo && inventory(rows)[i].regression is Some by {
        let repo = regs[k].repo;
        let a = observed(rows).map_values(|r: PolicyDecisionRecord| repo_of(r));
        assert(repo_mentions(rows)[a.len() + k] == repo);
        assert(repo_mentions(rows).contains(repo));
        let g = group_for(rows, repo);
        assert(inventory(rows).contains(g));
        let i = inventory(rows).index_of(g);
        lemma_drift_on_repo(regs, repo, 0);
        assert(inventory(rows)[i].repo == repo);
    }
}

/// An accepted exception is no regression: it never counts toward a breach.
pub proof fn exceptions_are_not_regressions(r: PolicyDecisionRecord)
    requires
        exception_of(r) is Some,
    ensures
        regression_of(r) is None,
        change_of(r) is None,
        !is_about(r, "Image/"@),
{
    reveal_strlit("SigningException/");
    reveal_strlit("SigningRegression/");
    reveal_strlit("ProvenanceChange/");
    reveal_strlit("Image/");
    let s = r.subject@;
    assert("SigningException/"@.is_prefix_of(s));
    assert(s[7] == "SigningException/"@[7]);
    assert(s[0] == "SigningException/"@[0]);
    assert("SigningException/"@[7] == 'E' && "SigningRegression/"@[7] == 'R');
    assert("SigningException/"@[0] == 'S' && "ProvenanceChange/"@[0] == 'P' && "Image/"@[0] == 'I');
    if "SigningRegression/"@.is_prefix_of(s) {
        assert(s[7] == "SigningRegression/"@[7]);
    }
    if "ProvenanceChange/"@.is_prefix_of(s) {
        assert(s[0] == "ProvenanceChange/"@[0]);
    }
    if "Image/"@.is_prefix_of(s) {
        assert(s[0] == "Image/"@[0]);
    }
}

/// Only an image whose signature verifies shows a signer, and only a verified build shows what built
/// it.
pub proof fn only_verified_facts_show(
    rows: Seq<PolicyDecisionRecord>,
    r: PolicyDecisionRecord,
    p: SigningRowProps,
)
    requires
        shows_image(rows, r, p),
    ensures
        p.signer is Some ==> p.posture == SigningPosture::Signed,
        p.provenance_info is Some ==> p.provenance == ProvenancePosture::Verified,
{
}

/// An accepted exception never softens a block, and never reads as one: it only says why an image
/// would be admitted.
pub proof fn exceptions_never_soften(
    rows: Seq<PolicyDecisionRecord>,
    posture: SigningPosture,
    image: Seq<char>,
    regression: Option<bool>,
)
    requires
        regression == (match drift_on_image(regressions(rows), image, 0) {
            Some(d) => Some(d.established),
            None => None,
        }),
    ensures
        SigningEnforcement::verdict(posture, regression) == SigningEnforcement::WouldBlock <==>
            enforcement(rows, posture, image) == SigningEnforcement::WouldBlock,
        SigningEnforcement::verdict(posture, regression) == SigningEnforcement::Uncertain <==>
            enforcement(rows, posture, image) == SigningEnforcement::Uncertain,
{
}

/// Every standing exception and every change of builds has its repository in the inventory.
pub proof fn every_exception_and_change_shows(rows: Seq<PolicyDecisionRecord>, repo: Seq<char>)
    requires
        has_drift(exceptions(rows), repo) || exists|k: int|
            0 <= k < changes(rows).len() && (#[trigger] changes(rows)[k]).repo == repo,
    ensures
        inventory(rows).contains(group_for(rows, repo)),
{
    lemma_inventory_repos(rows);
    let a = observed(rows).map_values(|r: PolicyDecisionRecord| repo_of(r));
    let b = regressions(rows).map_values(|d: Drift| d.repo);
    let c = exceptions(rows).map_values(|d: Drift| d.repo);
    if has_drift(exceptions(rows), repo) {
        let k = choose|k: int|
            0 <= k < exceptions(rows).len() && (#[trigger] exceptions(rows)[k]).repo == repo;
        assert(repo_mentions(rows)[a.len() + b.len() + k] == repo);
    } else {
        let k = choose|k: int|
            0 <= k < changes(rows).len() && (#[trigger] changes(rows)[k]).repo == repo;
        assert(repo_mentions(rows)[a.len() + b.len() + c.len() + k] == repo);
    }
    assert(repo_mentions(rows).contains(repo));
}

/// Postures in the order of the attention they ask for: a broken signature the most, a verified one
/// the least.
pub proof fn postures_ask_in_this_order()
    ensures
        0 <= rank_of(SigningPosture::Invalid),
        rank_of(SigningPosture::Invalid) < rank_of(SigningPosture::NotSigned),
        rank_of(SigningPosture::NotSigned) < rank_of(SigningPosture::Unverifiable),
        rank_of(SigningPosture::Unverifiable) < rank_of(SigningPosture::Checking),
        rank_of(SigningPosture::Checking) < rank_of(SigningPosture::SignedKeyBased),
        rank_of(SigningPosture::SignedKeyBased) < rank_of(SigningPosture::Signed),
        rank_of(SigningPosture::Signed) < 254,
{
}

proof fn lemma_loudest(images: Seq<PolicyDecisionRecord>)
    ensures
        forall|k: int|
            0 <= k < images.len() ==> loudest(images) <= rank_of(
                row_posture(#[trigger] images[k]),
            ) + 1,
        images.len() > 0 ==> exists|k: int|
            0 <= k < images.len() && loudest(images) == rank_of(row_posture(#[trigger] images[k])) + 1,
        loudest(images) > 0,
    decreases images.len(),
{
    if images.len() > 0 {
        let d = images.drop_last();
        let n = images.len() - 1;
        lemma_loudest(d);
        assert forall|k: int| 0 <= k < images.len() implies loudest(images) <= rank_of(
            row_posture(#[trigger] images[k]),
        ) + 1 by {
            if k < n {
                assert(d[k] == images[k]);
            }
        }
        if loudest(images) == rank_of(row_posture(images[n])) + 1 {
            assert(rank_of(row_posture(images[n])) + 1 == loudest(images));
        } else {
            let k = choose|k: int|
                0 <= k < d.len() && loudest(d) == rank_of(row_posture(#[trigger] d[k])) + 1;
            assert(images[k] == d[k]);
        }
    }
}

/// A repository with nothing standing against it asks for the attention of its loudest image: no
/// image of it asks for more, and one asks for as much. One with a drift asks for more than any
/// image can.
pub proof fn loudest_image_speaks_for_its_repository(rows: Seq<PolicyDecisionRecord>, i: int)
    requires
        0 <= i < inventory(rows).len(),
    ensures
        ({
            let g = inventory(rows)[i];
            &&& g.regression is None && g.change is None ==> forall|k: int|
                0 <= k < g.images.len() ==> group_rank_of(g) <= rank_of(
                    row_posture(#[trigger] g.images[k]),
                ) + 1
            &&& g.regression is None && g.change is None && g.images.len() > 0 ==> exists|k: int|
                0 <= k < g.images.len() && group_rank_of(g) == rank_of(
                    row_posture(#[trigger] g.images[k]),
                ) + 1
            &&& g.regression is Some || g.change is Some ==> forall|k: int|
                0 <= k < g.images.len() ==> group_rank_of(g) < rank_of(
                    row_posture(#[trigger] g.images[k]),
                ) + 1
        }),
{
    lemma_loudest(inventory(rows)[i].images);
}

/// What shows below a repository without a drift has no drift, and no image of it asks for more than
/// every image above: for each there is one above that asks for at least as much.
pub proof fn nothing_louder_shows_below(
    rows: Seq<PolicyDecisionRecord>,
    v: Seq<SigningRepoProps>,
    i: int,
    j: int,
)
    requires
        shows_inventory(rows, v),
        0 <= i < j < v.len(),
        v[i].regression is None,
        v[i].provenance_change is None,
    ensures
        v[j].regression is None,
        v[j].provenance_change is None,
        forall|b: int|
            0 <= b < v[j].images@.len() ==> exists|a: int|
                0 <= a < v[i].images@.len() && rank_of((#[trigger] v[i].images@[a]).posture)
                    <= rank_of((#[trigger] v[j].images@[b]).posture),
{
    let above = inventory(rows)[i];
    let below = inventory(rows)[j];
    assert(shows_group(rows, above, v[i]));
    assert(shows_group(rows, below, v[j]));
    loud_repositories_come_first(rows, i, j);
    lemma_loudest(above.images);
    lemma_loudest(below.images);
    assert forall|b: int| 0 <= b < v[j].images@.len() implies exists|a: int|
        0 <= a < v[i].images@.len() && rank_of((#[trigger] v[i].images@[a]).posture) <= rank_of(
            (#[trigger] v[j].images@[b]).posture,
        ) by {
        assert(shows_image(rows, below.images[b], v[j].images@[b]));
        let a = choose|a: int|
            0 <= a < above.images.len() && loudest(above.images) == rank_of(
                row_posture(#[trigger] above.images[a]),
            ) + 1;
        assert(shows_image(rows, above.images[a], v[i].images@[a]));
    }
}

/// A repository with a broken signature never shows below one without a drift whose images are all
/// unbroken.
pub proof fn broken_signatures_show_above(
    rows: Seq<PolicyDecisionRecord>,
    v: Seq<SigningRepoProps>,
    i: int,
    j: int,
    b: int,
)
    requires
        shows_inventory(rows, v),
        0 <= i < v.len(),
        0 <= j < v.len(),
        i != j,
        v[i].regression is None,
        v[i].provenance_change is None,
        forall|a: int|
            0 <= a < v[i].images@.len() ==> (#[trigger] v[i].images@[a]).posture
                != SigningPosture::Invalid,
        0 <= b < v[j].images@.len(),
        v[j].images@[b].posture == SigningPosture::Invalid,
    ensures
        j < i,
{
    if i < j {
        nothing_louder_shows_below(rows, v, i, j);
        let a = choose|a: int|
            0 <= a < v[i].images@.len() && rank_of((#[trigger] v[i].images@[a]).posture) <= rank_of(
                v[j].images@[b].posture,
            );
        assert(v[i].images@[a].posture != SigningPosture::Invalid);
    }
}

/// Within a shown repository, an image never shows below one that asks for less attention.
pub proof fn shown_images_are_in_order(
    rows: Seq<PolicyDecisionRecord>,
    v: Seq<SigningRepoProps>,
    i: int,
    a: int,
    b: int,
)
    requires
        shows_inventory(rows, v),
        0 <= i < v.len(),
        0 <= a <= b < v[i].images@.len(),
    ensures
        rank_of(v[i].images@[a].posture) <= rank_of(v[i].images@[b].posture),
{
    let g = inventory(rows)[i];
    assert(shows_group(rows, g, v[i]));
    lemma_inventory_repos(rows);
    assert(g == group_for(rows, g.repo));
    loud_images_come_first(rows, g.repo, a, b);
    assert(shows_image(rows, g.images[a], v[i].images@[a]));
    assert(shows_image(rows, g.images[b], v[i].images@[b]));
}

} // verus!
