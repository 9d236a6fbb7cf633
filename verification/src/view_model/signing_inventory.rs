//! The signing inventory: the images that the signing sweep observed, grouped by repository, with
//! what stands against each repository's history.

use crate::order;
use crate::props::signing::{
    ExceptionAcceptedProps, ProvenanceChangeProps, ProvenancePosture, ProvenanceProps, RepoStrength,
    SignerProps, SigningEnforcement, SigningPosture, SigningRegressionProps, SigningRepoProps,
    SigningRowProps,
};
use crate::state::PolicyDecisionRecord;
use crate::text;
use crate::text_set::{distinct, distinct_texts};
use crate::view_model::ids;
use crate::view_model::signing_records::{
    badge_text, build_parts, changes, changes_of, drifts, exceptions, exceptions_by_repo, is_about,
    issuer_badge, parse_provenance_reason, parse_signer_reason, provenance_changes_by_repo,
    ref_parts, regressions, regressions_by_repo, short_identity, short_identity_text, short_source,
    short_source_text, signer_parts, split_ref, Change, ChangeRow, Drift, DriftRow,
};
use vstd::prelude::*;
use vstd::string::*;

verus! {

// ---------------------------------------------------------------------------
// One image
// ---------------------------------------------------------------------------

/// The first row at or behind `i` for which `p` holds.
pub open spec fn first_row(
    rows: Seq<PolicyDecisionRecord>,
    p: spec_fn(PolicyDecisionRecord) -> bool,
    i: int,
) -> Option<PolicyDecisionRecord>
    decreases rows.len() - i,
{
    if i < 0 || i >= rows.len() {
        None
    } else if p(rows[i]) {
        Some(rows[i])
    } else {
        first_row(rows, p, i + 1)
    }
}

/// The row tells how an image was built.
pub open spec fn tells_build(r: PolicyDecisionRecord, image: Seq<char>) -> bool {
    is_about(r, "Provenance/"@) && r.image@ == image
}

/// The newest row on an image's build.
pub open spec fn build_row(rows: Seq<PolicyDecisionRecord>, image: Seq<char>) -> Option<
    PolicyDecisionRecord,
> {
    first_row(rows, |r: PolicyDecisionRecord| tells_build(r, image), 0)
}

/// An image's provenance posture; without a row there is no provenance.
pub open spec fn provenance_posture(rows: Seq<PolicyDecisionRecord>, image: Seq<char>) -> ProvenancePosture {
    match build_row(rows, image) {
        Some(r) => ProvenancePosture::parse_of(r.signature@),
        None => ProvenancePosture::Absent,
    }
}

/// The builder and source of a verified build.
pub open spec fn verified_build(rows: Seq<PolicyDecisionRecord>, image: Seq<char>) -> Option<
    (Seq<char>, Seq<char>),
> {
    match build_row(rows, image) {
        Some(r) => if ProvenancePosture::parse_of(r.signature@) == ProvenancePosture::Verified {
            build_parts(r.reason@)
        } else {
            None
        },
        None => None,
    }
}

/// The first drift at or behind `i` on this image.
pub open spec fn drift_on_image(v: Seq<Drift>, image: Seq<char>, i: int) -> Option<Drift>
    decreases v.len() - i,
{
    if i < 0 || i >= v.len() {
        None
    } else if v[i].image == image {
        Some(v[i])
    } else {
        drift_on_image(v, image, i + 1)
    }
}

/// What a continuity gate would do with an image: the verdict on the regression that stands for
/// it, and where it would be admitted anyway, whether that rests on an accepted exception.
pub open spec fn enforcement(
    rows: Seq<PolicyDecisionRecord>,
    posture: SigningPosture,
    image: Seq<char>,
) -> SigningEnforcement {
    let verdict = SigningEnforcement::verdict(
        posture,
        match drift_on_image(regressions(rows), image, 0) {
            Some(d) => Some(d.established),
            None => None,
        },
    );
    if verdict == SigningEnforcement::WouldAdmit && drift_on_image(exceptions(rows), image, 0)
        is Some {
        SigningEnforcement::ExceptionAccepted
    } else {
        verdict
    }
}

/// `p` shows this signer and issuer.
pub open spec fn shows_signer(s: Option<(Seq<char>, Option<Seq<char>>)>, p: Option<SignerProps>) -> bool {
    match (s, p) {
        (Some(t), Some(p)) => {
            &&& p.identity_short@ == short_identity_text(t.0)
            &&& p.identity_full@ == t.0
            &&& text::opt_text(p.issuer_full) == t.1
            &&& p.issuer_badge@ == (match t.1 {
                Some(i) => badge_text(i),
                None => Seq::empty(),
            })
        },
        (None, None) => true,
        _ => false,
    }
}

/// `p` shows this builder and source.
pub open spec fn shows_build(b: Option<(Seq<char>, Seq<char>)>, p: Option<ProvenanceProps>) -> bool {
    match (b, p) {
        (Some(t), Some(p)) => {
            &&& p.source_short@ == short_source_text(t.1)
            &&& p.source_full@ == t.1
            &&& p.builder_short@ == short_identity_text(t.0)
            &&& p.builder_full@ == t.0
        },
        (None, None) => true,
        _ => false,
    }
}

/// The posture a row records.
pub open spec fn row_posture(r: PolicyDecisionRecord) -> SigningPosture {
    SigningPosture::parse_of(r.signature@)
}

/// `p` shows the image that `r` observes.
pub open spec fn shows_image(
    rows: Seq<PolicyDecisionRecord>,
    r: PolicyDecisionRecord,
    p: SigningRowProps,
) -> bool {
    &&& p.dom_id@ == ids::signing_id_text("si"@, r.image@)
    &&& p.image@ == r.image@
    &&& p.label@ == (if ref_parts(r.image@).1.len() == 0 {
        r.image@
    } else {
        ref_parts(r.image@).1
    })
    &&& p.posture == row_posture(r)
    &&& shows_signer(
        if row_posture(r) == SigningPosture::Signed {
            signer_parts(r.reason@)
        } else {
            None
        },
        p.signer,
    )
    &&& p.provenance == provenance_posture(rows, r.image@)
    &&& shows_build(verified_build(rows, r.image@), p.provenance_info)
    &&& p.detail@ == r.reason@
    &&& p.enforcement == enforcement(rows, row_posture(r), r.image@)
    &&& p.count == r.count
}

/// The signer that a reason names.
fn signer_from_reason(reason: &str) -> (r: Option<SignerProps>)
    ensures
        shows_signer(signer_parts(reason@), r),
{
    match parse_signer_reason(reason) {
        Some(t) => {
            let (identity, issuer) = t;
            let badge = match &issuer {
                Some(i) => issuer_badge(i.as_str()),
                None => String::new(),
            };
            Some(
                SignerProps {
                    identity_short: short_identity(identity.as_str()),
                    identity_full: identity,
                    issuer_badge: badge,
                    issuer_full: issuer,
                },
            )
        },
        None => None,
    }
}

/// The provenance posture of an image and, for a verified build, what built it.
fn provenance_of_image(rows: &[PolicyDecisionRecord], image: &str) -> (r: (
    ProvenancePosture,
    Option<ProvenanceProps>,
))
    ensures
        r.0 == provenance_posture(rows@, image@),
        shows_build(verified_build(rows@, image@), r.1),
{
    let ghost p = |r: PolicyDecisionRecord| tells_build(r, image@);
    let mut i: usize = 0;
    while i < rows.len()
        invariant
            i <= rows.len(),
            p == |r: PolicyDecisionRecord| tells_build(r, image@),
            build_row(rows@, image@) == first_row(rows@, p, i as int),
        decreases rows.len() - i,
    {
        let r = &rows[i];
        if text::leads(r.subject.as_str(), "Provenance/") && text::same(r.image.as_str(), image) {
            let posture = ProvenancePosture::parse(r.signature.as_str());
            if posture == ProvenancePosture::Verified {
                let info = match parse_provenance_reason(r.reason.as_str()) {
                    Some(t) => Some(
                        ProvenanceProps {
                            source_short: short_source(t.1.as_str()),
                            builder_short: short_identity(t.0.as_str()),
                            source_full: t.1,
                            builder_full: t.0,
                        },
                    ),
                    None => None,
                };
                return (posture, info);
            }
            return (posture, None);
        }
        i += 1;
    }
    (ProvenancePosture::Absent, None)
}

/// The first drift on an image.
fn find_on_image<'a>(v: &'a Vec<DriftRow>, image: &str) -> (r: Option<&'a DriftRow>)
    ensures
        r matches Some(d) ==> drift_on_image(drifts(v@), image@, 0) == Some(d@),
        r is None ==> drift_on_image(drifts(v@), image@, 0) is None,
{
    let mut i: usize = 0;
    while i < v.len()
        invariant
            i <= v.len(),
            drift_on_image(drifts(v@), image@, 0) == drift_on_image(drifts(v@), image@, i as int),
        decreases v.len() - i,
    {
        assert(drifts(v@)[i as int] == v@[i as int]@);
        if text::same(v[i].image.as_str(), image) {
            return Some(&v[i]);
        }
        i += 1;
    }
    None
}

/// One image of the inventory.
fn signing_row(
    r: &PolicyDecisionRecord,
    rows: &[PolicyDecisionRecord],
    regs: &Vec<DriftRow>,
    excs: &Vec<DriftRow>,
) -> (p: SigningRowProps)
    requires
        drifts(regs@) == regressions(rows@),
        drifts(excs@) == exceptions(rows@),
    ensures
        shows_image(rows@, *r, p),
{
    let image = r.image.as_str();
    let posture = SigningPosture::parse(r.signature.as_str());
    let (_, remainder) = split_ref(image);
    let signer = if posture == SigningPosture::Signed {
        signer_from_reason(r.reason.as_str())
    } else {
        None
    };
    let (provenance, provenance_info) = provenance_of_image(rows, image);
    let regression = match find_on_image(regs, image) {
        Some(d) => Some(d.established),
        None => None,
    };
    let verdict = SigningEnforcement::for_image(posture, regression);
    let enforcement = if verdict == SigningEnforcement::WouldAdmit && find_on_image(
        excs,
        image,
    ).is_some() {
        SigningEnforcement::ExceptionAccepted
    } else {
        verdict
    };
    SigningRowProps {
        dom_id: ids::signing_dom_id("si", image),
        image: r.image.clone(),
        label: if remainder.as_str().is_empty() {
            r.image.clone()
        } else {
            remainder
        },
        posture,
        signer,
        provenance,
        provenance_info,
        detail: r.reason.clone(),
        enforcement,
        count: r.count,
    }
}

// ---------------------------------------------------------------------------
// Repositories
// ---------------------------------------------------------------------------

/// One repository of the inventory.
pub struct Group {
    pub repo: Seq<char>,
    /// The rows that observe its images.
    pub images: Seq<PolicyDecisionRecord>,
    pub regression: Option<Drift>,
    pub exception: Option<Drift>,
    pub change: Option<Change>,
    pub strength: RepoStrength,
}

/// The attention a posture asks for; less is louder.
pub open spec fn rank_of(p: SigningPosture) -> int {
    match p {
        SigningPosture::Invalid => 0,
        SigningPosture::NotSigned => 1,
        SigningPosture::Unverifiable => 2,
        SigningPosture::Checking => 3,
        SigningPosture::SignedKeyBased => 4,
        SigningPosture::Signed => 5,
    }
}

/// The loudest rank among images, one more than it: 255 where there is none.
pub open spec fn loudest(images: Seq<PolicyDecisionRecord>) -> int
    decreases images.len(),
{
    if images.len() == 0 {
        255
    } else {
        let rest = loudest(images.drop_last());
        let last = rank_of(row_posture(images.last())) + 1;
        if last < rest {
            last
        } else {
            rest
        }
    }
}

/// The attention a repository asks for: a drift that stands is the loudest, else its loudest image
/// counts.
pub open spec fn group_rank_of(g: Group) -> int {
    if g.regression is Some || g.change is Some {
        0
    } else {
        loudest(g.images)
    }
}

/// The order of images: the louder first.
pub open spec fn image_order() -> spec_fn(PolicyDecisionRecord, PolicyDecisionRecord) -> bool {
    |a: PolicyDecisionRecord, b: PolicyDecisionRecord|
        rank_of(row_posture(a)) <= rank_of(row_posture(b))
}

/// The order of repositories: the louder first.
pub open spec fn group_order() -> spec_fn(Group, Group) -> bool {
    |a: Group, b: Group| group_rank_of(a) <= group_rank_of(b)
}

/// The rows that observe images.
pub open spec fn observed(rows: Seq<PolicyDecisionRecord>) -> Seq<PolicyDecisionRecord> {
    rows.filter(|r: PolicyDecisionRecord| is_about(r, "Image/"@))
}

/// The repository of the image that a row observes.
pub open spec fn repo_of(r: PolicyDecisionRecord) -> Seq<char> {
    ref_parts(r.image@).0
}

/// Every mention of a repository: by its images, then by its drifts. A drift whose image is no
/// longer observed still shows.
pub open spec fn repo_mentions(rows: Seq<PolicyDecisionRecord>) -> Seq<Seq<char>> {
    observed(rows).map_values(|r: PolicyDecisionRecord| repo_of(r)) + regressions(rows).map_values(
        |d: Drift| d.repo,
    ) + exceptions(rows).map_values(|d: Drift| d.repo) + changes(rows).map_values(
        |c: Change| c.repo,
    )
}

/// The first drift at or behind `i` on this repository.
pub open spec fn drift_on_repo(v: Seq<Drift>, repo: Seq<char>, i: int) -> Option<Drift>
    decreases v.len() - i,
{
    if i < 0 || i >= v.len() {
        None
    } else if v[i].repo == repo {
        Some(v[i])
    } else {
        drift_on_repo(v, repo, i + 1)
    }
}

/// The first change at or behind `i` on this repository.
pub open spec fn change_on_repo(v: Seq<Change>, repo: Seq<char>, i: int) -> Option<Change>
    decreases v.len() - i,
{
    if i < 0 || i >= v.len() {
        None
    } else if v[i].repo == repo {
        Some(v[i])
    } else {
        change_on_repo(v, repo, i + 1)
    }
}

/// The row tells the strength of a repository's baseline, in a word that is known.
pub open spec fn tells_strength(r: PolicyDecisionRecord, repo: Seq<char>) -> bool {
    text::strip_prefix(r.subject@, "SigningStrength/"@) == Some(repo) && RepoStrength::parse_of(
        r.signature@,
    ) != RepoStrength::Unknown
}

/// The strength of a repository's baseline: what its newest row with a known word says.
pub open spec fn strength_of(rows: Seq<PolicyDecisionRecord>, repo: Seq<char>) -> RepoStrength {
    match first_row(rows, |r: PolicyDecisionRecord| tells_strength(r, repo), 0) {
        Some(r) => RepoStrength::parse_of(r.signature@),
        None => RepoStrength::Unknown,
    }
}

/// One repository: its images, the loud ones first, and what stands against it.
pub open spec fn group_for(rows: Seq<PolicyDecisionRecord>, repo: Seq<char>) -> Group {
    Group {
        repo,
        images: order::sorted(
            observed(rows).filter(|r: PolicyDecisionRecord| repo_of(r) == repo),
            image_order(),
        ),
        regression: drift_on_repo(regressions(rows), repo, 0),
        exception: drift_on_repo(exceptions(rows), repo, 0),
        change: change_on_repo(changes(rows), repo, 0),
        strength: strength_of(rows, repo),
    }
}

/// The inventory: the repositories, the loud ones first, those that tie as they were first
/// mentioned.
pub open spec fn inventory(rows: Seq<PolicyDecisionRecord>) -> Seq<Group> {
    order::sorted(
        distinct(repo_mentions(rows)).map_values(|repo: Seq<char>| group_for(rows, repo)),
        group_order(),
    )
}

/// `p` shows this regression.
pub open spec fn shows_regression(d: Option<Drift>, p: Option<SigningRegressionProps>) -> bool {
    match (d, p) {
        (Some(d), Some(p)) => {
            &&& p.dom_id@ == ids::signing_id_text("sr"@, d.repo)
            &&& p.kind == d.kind
            &&& p.established == d.established
            &&& text::texts(p.before_identities@) == d.before
            &&& text::opt_text(p.after_identity) == d.after_identity
            &&& text::opt_text(p.after_issuer) == d.after_issuer
            &&& p.image@ == d.image
        },
        (None, None) => true,
        _ => false,
    }
}

/// `p` shows this accepted exception.
pub open spec fn shows_exception(d: Option<Drift>, p: Option<ExceptionAcceptedProps>) -> bool {
    match (d, p) {
        (Some(d), Some(p)) => {
            &&& p.dom_id@ == ids::signing_id_text("se"@, d.repo)
            &&& p.kind == d.kind
            &&& p.established == d.established
            &&& text::texts(p.before_identities@) == d.before
            &&& text::opt_text(p.after_identity) == d.after_identity
            &&& p.image@ == d.image
        },
        (None, None) => true,
        _ => false,
    }
}

/// `p` shows this change of builds.
pub open spec fn shows_change(c: Option<Change>, p: Option<ProvenanceChangeProps>) -> bool {
    match (c, p) {
        (Some(c), Some(p)) => {
            &&& p.dom_id@ == ids::signing_id_text("pc"@, c.repo)
            &&& p.established == c.established
            &&& text::texts(p.before_builders@) == c.before
            &&& p.after_builder@ == c.after_builder
            &&& p.after_source@ == c.after_source
            &&& p.image@ == c.image
        },
        (None, None) => true,
        _ => false,
    }
}

/// `p` shows this repository.
pub open spec fn shows_group(rows: Seq<PolicyDecisionRecord>, g: Group, p: SigningRepoProps) -> bool {
    &&& p.repo@ == g.repo
    &&& p.images@.len() == g.images.len()
    &&& forall|i: int|
        0 <= i < g.images.len() ==> shows_image(rows, g.images[i], #[trigger] p.images@[i])
    &&& shows_regression(g.regression, p.regression)
    &&& shows_exception(g.exception, p.exception)
    &&& shows_change(g.change, p.provenance_change)
    &&& p.strength == g.strength
}

/// `v` shows the inventory of these rows.
pub open spec fn shows_inventory(rows: Seq<PolicyDecisionRecord>, v: Seq<SigningRepoProps>) -> bool {
    &&& v.len() == inventory(rows).len()
    &&& forall|i: int| 0 <= i < v.len() ==> shows_group(rows, inventory(rows)[i], #[trigger] v[i])
}

fn posture_rank(p: SigningPosture) -> (r: u8)
    ensures
        r == rank_of(p),
        r <= 5,
{
    match p {
        SigningPosture::Invalid => 0,
        SigningPosture::NotSigned => 1,
        SigningPosture::Unverifiable => 2,
        SigningPosture::Checking => 3,
        SigningPosture::SignedKeyBased => 4,
        SigningPosture::Signed => 5,
    }
}

/// The loudest rank among shown images.
spec fn loudest_shown(images: Seq<SigningRowProps>) -> int
    decreases images.len(),
{
    if images.len() == 0 {
        255
    } else {
        let rest = loudest_shown(images.drop_last());
        let last = rank_of(images.last().posture) + 1;
        if last < rest {
            last
        } else {
            rest
        }
    }
}

/// The attention that a shown repository asks for.
spec fn shown_rank(g: SigningRepoProps) -> int {
    if g.regression is Some || g.provenance_change is Some {
        0
    } else {
        loudest_shown(g.images@)
    }
}

proof fn lemma_loudest_shown(
    rows: Seq<PolicyDecisionRecord>,
    model: Seq<PolicyDecisionRecord>,
    shown: Seq<SigningRowProps>,
)
    requires
        model.len() == shown.len(),
        forall|i: int| 0 <= i < model.len() ==> shows_image(rows, model[i], #[trigger] shown[i]),
    ensures
        loudest(model) == loudest_shown(shown),
    decreases model.len(),
{
    if model.len() > 0 {
        assert(shows_image(rows, model[model.len() - 1], shown[shown.len() - 1]));
        assert forall|i: int| 0 <= i < model.len() - 1 implies shows_image(
            rows,
            model.drop_last()[i],
            #[trigger] shown.drop_last()[i],
        ) by {
            assert(shows_image(rows, model[i], shown[i]));
        }
        lemma_loudest_shown(rows, model.drop_last(), shown.drop_last());
    }
}

/// The attention that a repository asks for.
fn group_rank(g: &SigningRepoProps) -> (r: u8)
    ensures
        r == shown_rank(*g),
{
    if g.regression.is_some() || g.provenance_change.is_some() {
        return 0;
    }
    let mut r: u8 = 255;
    let mut i: usize = 0;
    while i < g.images.len()
        invariant
            i <= g.images.len(),
            r == loudest_shown(g.images@.take(i as int)),
        decreases g.images.len() - i,
    {
        assert(g.images@.take(i + 1).drop_last() =~= g.images@.take(i as int));
        let rank: u8 = posture_rank(g.images[i].posture) + 1;
        if rank < r {
            r = rank;
        }
        i += 1;
    }
    assert(g.images@.take(g.images@.len() as int) =~= g.images@);
    r
}

/// The first drift on a repository.
fn find_on_repo<'a>(v: &'a Vec<DriftRow>, repo: &str) -> (r: Option<&'a DriftRow>)
    ensures
        r matches Some(d) ==> drift_on_repo(drifts(v@), repo@, 0) == Some(d@),
        r is None ==> drift_on_repo(drifts(v@), repo@, 0) is None,
{
    let mut i: usize = 0;
    while i < v.len()
        invariant
            i <= v.len(),
            drift_on_repo(drifts(v@), repo@, 0) == drift_on_repo(drifts(v@), repo@, i as int),
        decreases v.len() - i,
    {
        assert(drifts(v@)[i as int] == v@[i as int]@);
        if text::same(v[i].repo.as_str(), repo) {
            return Some(&v[i]);
        }
        i += 1;
    }
    None
}

/// The first change on a repository.
fn find_change<'a>(v: &'a Vec<ChangeRow>, repo: &str) -> (r: Option<&'a ChangeRow>)
    ensures
        r matches Some(c) ==> change_on_repo(changes_of(v@), repo@, 0) == Some(c@),
        r is None ==> change_on_repo(changes_of(v@), repo@, 0) is None,
{
    let mut i: usize = 0;
    while i < v.len()
        invariant
            i <= v.len(),
            change_on_repo(changes_of(v@), repo@, 0) == change_on_repo(
                changes_of(v@),
                repo@,
                i as int,
            ),
        decreases v.len() - i,
    {
        assert(changes_of(v@)[i as int] == v@[i as int]@);
        if text::same(v[i].repo.as_str(), repo) {
            return Some(&v[i]);
        }
        i += 1;
    }
    None
}

/// The strength of a repository's baseline.
fn repo_strength(rows: &[PolicyDecisionRecord], repo: &str) -> (r: RepoStrength)
    ensures
        r == strength_of(rows@, repo@),
{
    let ghost p = |r: PolicyDecisionRecord| tells_strength(r, repo@);
    let mut i: usize = 0;
    while i < rows.len()
        invariant
            i <= rows.len(),
            p == |r: PolicyDecisionRecord| tells_strength(r, repo@),
            first_row(rows@, p, 0) == first_row(rows@, p, i as int),
        decreases rows.len() - i,
    {
        let r = &rows[i];
        match text::without_prefix(r.subject.as_str(), "SigningStrength/") {
            Some(of) => {
                let strength = RepoStrength::parse(r.signature.as_str());
                if strength != RepoStrength::Unknown && text::same(of.as_str(), repo) {
                    return strength;
                }
            },
            None => {},
        }
        i += 1;
    }
    RepoStrength::Unknown
}

/// The images of one repository, the loud ones first.
fn repo_images(
    rows: &[PolicyDecisionRecord],
    regs: &Vec<DriftRow>,
    excs: &Vec<DriftRow>,
    repo: &str,
) -> (v: Vec<SigningRowProps>)
    requires
        drifts(regs@) == regressions(rows@),
        drifts(excs@) == exceptions(rows@),
    ensures
        v@.len() == group_for(rows@, repo@).images.len(),
        forall|i: int|
            0 <= i < v@.len() ==> shows_image(
                rows@,
                group_for(rows@, repo@).images[i],
                #[trigger] v@[i],
            ),
{
    broadcast use vstd::seq::Seq::lemma_filter_push;

    let ghost about = |r: PolicyDecisionRecord| is_about(r, "Image/"@);
    let ghost of_repo = |r: PolicyDecisionRecord| repo_of(r) == repo@;
    let mut v: Vec<SigningRowProps> = Vec::new();
    let mut i: usize = 0;
    assert(rows@.take(0).filter(about).filter(of_repo) =~= Seq::empty());
    while i < rows.len()
        invariant
            i <= rows.len(),
            about == |r: PolicyDecisionRecord| is_about(r, "Image/"@),
            of_repo == |r: PolicyDecisionRecord| repo_of(r) == repo@,
            drifts(regs@) == regressions(rows@),
            drifts(excs@) == exceptions(rows@),
            v@.len() == rows@.take(i as int).filter(about).filter(of_repo).len(),
            forall|k: int|
                0 <= k < v@.len() ==> shows_image(
                    rows@,
                    rows@.take(i as int).filter(about).filter(of_repo)[k],
                    #[trigger] v@[k],
                ),
        decreases rows.len() - i,
    {
        broadcast use vstd::seq::Seq::lemma_filter_push;

        let r = &rows[i];
        assert(rows@.take(i + 1) =~= rows@.take(i as int).push(rows@[i as int]));
        if text::leads(r.subject.as_str(), "Image/") {
            let (of, _) = split_ref(r.image.as_str());
            if text::same(of.as_str(), repo) {
                v.push(signing_row(r, rows, regs, excs));
            }
        }
        i += 1;
    }
    assert(rows@.take(rows@.len() as int) =~= rows@);
    let ghost model = observed(rows@).filter(of_repo);
    let ghost le = |a: SigningRowProps, b: SigningRowProps|
        rank_of(a.posture) <= rank_of(b.posture);
    proof {
        order::lemma_sorted_related(
            model,
            v@,
            |r: PolicyDecisionRecord, p: SigningRowProps| shows_image(rows@, r, p),
            image_order(),
            le,
        );
    }
    let at_most = |a: &SigningRowProps, b: &SigningRowProps| -> (o: bool)
        ensures
            o == (rank_of(a.posture) <= rank_of(b.posture)),
        {
            let (x, y): (u8, u8) = (posture_rank(a.posture), posture_rank(b.posture));
            x <= y
        };
    order::sort_stable(v, at_most, Ghost(le))
}

/// One repository of the inventory.
fn repo_group(
    rows: &[PolicyDecisionRecord],
    regs: &Vec<DriftRow>,
    excs: &Vec<DriftRow>,
    chgs: &Vec<ChangeRow>,
    repo: &str,
) -> (p: SigningRepoProps)
    requires
        drifts(regs@) == regressions(rows@),
        drifts(excs@) == exceptions(rows@),
        changes_of(chgs@) == changes(rows@),
    ensures
        shows_group(rows@, group_for(rows@, repo@), p),
{
    let regression = match find_on_repo(regs, repo) {
        Some(d) => Some(
            SigningRegressionProps {
                dom_id: ids::signing_dom_id("sr", d.repo.as_str()),
                kind: d.kind,
                established: d.established,
                before_identities: d.before.clone(),
                after_identity: d.after_identity.clone(),
                after_issuer: d.after_issuer.clone(),
                image: d.image.clone(),
            },
        ),
        None => None,
    };
    let exception = match find_on_repo(excs, repo) {
        Some(d) => Some(
            ExceptionAcceptedProps {
                dom_id: ids::signing_dom_id("se", d.repo.as_str()),
                kind: d.kind,
                established: d.established,
                before_identities: d.before.clone(),
                after_identity: d.after_identity.clone(),
                image: d.image.clone(),
            },
        ),
        None => None,
    };
    let provenance_change = match find_change(chgs, repo) {
        Some(c) => Some(
            ProvenanceChangeProps {
                dom_id: ids::signing_dom_id("pc", c.repo.as_str()),
                established: c.established,
                before_builders: c.before.clone(),
                after_builder: c.after_builder.clone(),
                after_source: c.after_source.clone(),
                image: c.image.clone(),
            },
        ),
        None => None,
    };
    let p = SigningRepoProps {
        repo: repo.to_string(),
        images: repo_images(rows, regs, excs, repo),
        regression,
        exception,
        provenance_change,
        strength: repo_strength(rows, repo),
    };
    p
}

/// Every mention of a repository.
fn mentioned(
    rows: &[PolicyDecisionRecord],
    regs: &Vec<DriftRow>,
    excs: &Vec<DriftRow>,
    chgs: &Vec<ChangeRow>,
) -> (r: Vec<String>)
    requires
        drifts(regs@) == regressions(rows@),
        drifts(excs@) == exceptions(rows@),
        changes_of(chgs@) == changes(rows@),
    ensures
        text::texts(r@) == repo_mentions(rows@),
{
    broadcast use vstd::seq::Seq::lemma_filter_push;

    let ghost about = |r: PolicyDecisionRecord| is_about(r, "Image/"@);
    let ghost repo = |r: PolicyDecisionRecord| repo_of(r);
    let mut r: Vec<String> = Vec::new();
    let mut i: usize = 0;
    assert(text::texts(r@) =~= rows@.take(0).filter(about).map_values(repo));
    while i < rows.len()
        invariant
            i <= rows.len(),
            about == |r: PolicyDecisionRecord| is_about(r, "Image/"@),
            repo == |r: PolicyDecisionRecord| repo_of(r),
            text::texts(r@) == rows@.take(i as int).filter(about).map_values(repo),
        decreases rows.len() - i,
    {
        broadcast use vstd::seq::Seq::lemma_filter_push;

        assert(rows@.take(i + 1) =~= rows@.take(i as int).push(rows@[i as int]));
        if text::leads(rows[i].subject.as_str(), "Image/") {
            let ghost before = r@;
            let (of, _) = split_ref(rows[i].image.as_str());
            let ghost name = of@;
            r.push(of);
            assert(text::texts(r@) =~= text::texts(before).push(name));
            assert(rows@.take(i + 1).filter(about).map_values(repo) =~= rows@.take(
                i as int,
            ).filter(about).map_values(repo).push(name));
        }
        i += 1;
    }
    assert(rows@.take(rows@.len() as int) =~= rows@);
    let ghost images = observed(rows@).map_values(repo);
    let ghost drift_repo = |d: Drift| d.repo;
    let ghost change_repo = |c: Change| c.repo;
    let mut k: usize = 0;
    while k < regs.len()
        invariant
            k <= regs.len(),
            drift_repo == |d: Drift| d.repo,
            text::texts(r@) =~= images + drifts(regs@).take(k as int).map_values(drift_repo),
        decreases regs.len() - k,
    {
        let ghost before = r@;
        assert(drifts(regs@)[k as int] == regs@[k as int]@);
        r.push(regs[k].repo.clone());
        assert(text::texts(r@) =~= text::texts(before).push(regs@[k as int]@.repo));
        k += 1;
    }
    assert(drifts(regs@).take(regs@.len() as int) =~= drifts(regs@));
    let ghost with_regs = images + regressions(rows@).map_values(drift_repo);
    let mut m: usize = 0;
    while m < excs.len()
        invariant
            m <= excs.len(),
            drift_repo == |d: Drift| d.repo,
            text::texts(r@) =~= with_regs + drifts(excs@).take(m as int).map_values(drift_repo),
        decreases excs.len() - m,
    {
        let ghost before = r@;
        assert(drifts(excs@)[m as int] == excs@[m as int]@);
        r.push(excs[m].repo.clone());
        assert(text::texts(r@) =~= text::texts(before).push(excs@[m as int]@.repo));
        m += 1;
    }
    assert(drifts(excs@).take(excs@.len() as int) =~= drifts(excs@));
    let ghost with_excs = with_regs + exceptions(rows@).map_values(drift_repo);
    let mut n: usize = 0;
    while n < chgs.len()
        invariant
            n <= chgs.len(),
            change_repo == |c: Change| c.repo,
            text::texts(r@) =~= with_excs + changes_of(chgs@).take(n as int).map_values(change_repo),
        decreases chgs.len() - n,
    {
        let ghost before = r@;
        assert(changes_of(chgs@)[n as int] == chgs@[n as int]@);
        r.push(chgs[n].repo.clone());
        assert(text::texts(r@) =~= text::texts(before).push(chgs@[n as int]@.repo));
        n += 1;
    }
    assert(changes_of(chgs@).take(chgs@.len() as int) =~= changes_of(chgs@));
    r
}

/// The signing inventory of the rows.
pub fn build(rows: &[PolicyDecisionRecord]) -> (v: Vec<SigningRepoProps>)
    ensures
        shows_inventory(rows@, v@),
{
    let regs = regressions_by_repo(rows);
    let excs = exceptions_by_repo(rows);
    let chgs = provenance_changes_by_repo(rows);
    let all = mentioned(rows, &regs, &excs, &chgs);
    let repos = distinct_texts(&all);
    let ghost names = distinct(repo_mentions(rows@));
    let ghost model = names.map_values(|repo: Seq<char>| group_for(rows@, repo));
    let mut v: Vec<SigningRepoProps> = Vec::new();
    let mut i: usize = 0;
    while i < repos.len()
        invariant
            i <= repos.len(),
            drifts(regs@) == regressions(rows@),
            drifts(excs@) == exceptions(rows@),
            changes_of(chgs@) == changes(rows@),
            text::texts(repos@) == names,
            v@.len() == i,
            forall|k: int| 0 <= k < i ==> shows_group(rows@, group_for(rows@, names[k]), #[trigger] v@[k]),
        decreases repos.len() - i,
    {
        assert(names[i as int] == repos@[i as int]@);
        v.push(repo_group(rows, &regs, &excs, &chgs, repos[i].as_str()));
        i += 1;
    }
    assert(names.len() == repos@.len());
    let ghost le = |a: SigningRepoProps, b: SigningRepoProps| shown_rank(a) <= shown_rank(b);
    proof {
        assert forall|g: Group, p: SigningRepoProps| #[trigger]
            shows_group(rows@, g, p) implies shown_rank(p) == group_rank_of(g) by {
            lemma_loudest_shown(rows@, g.images, p.images@);
        }
        order::lemma_sorted_related(
            model,
            v@,
            |g: Group, p: SigningRepoProps| shows_group(rows@, g, p),
            group_order(),
            le,
        );
    }
    let at_most = |a: &SigningRepoProps, b: &SigningRepoProps| -> (o: bool)
        ensures
            o == (shown_rank(*a) <= shown_rank(*b)),
        {
            let (x, y): (u8, u8) = (group_rank(a), group_rank(b));
            x <= y
        };
    order::sort_stable(v, at_most, Ghost(le))
}

} // verus!
