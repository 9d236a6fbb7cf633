//! What a gate on signing continuity would do with each image.

use protector_view::props::signing::{SigningEnforcement, SigningPosture};
use protector_view::state::PolicyDecisionRecord;
use protector_view::view_model::signing_inventory::build;
use protector_view::view_model::signing_records::counts;

fn record(
    policy: &str,
    decision: &str,
    subject: impl Into<String>,
    image: &str,
    signature: &str,
    mesh: &str,
    namespace: &str,
    reason: &str,
) -> PolicyDecisionRecord {
    PolicyDecisionRecord {
        policy: policy.to_string(),
        decision: decision.to_string(),
        subject: subject.into(),
        image: image.to_string(),
        signature: signature.to_string(),
        mesh: mesh.to_string(),
        namespace: namespace.to_string(),
        reason: reason.to_string(),
        would_admit: false,
        count: 1,
        at_ms: 0,
    }
}

fn observed(image: &str, status: &str, reason: &str) -> PolicyDecisionRecord {
    record(
        "image-signature",
        "allow",
        format!("Image/{image}"),
        image,
        status,
        "",
        "",
        reason,
    )
}

fn regression(repo: &str, image: &str, signature: &str, reason: &str) -> PolicyDecisionRecord {
    record(
        "signing-regression",
        "allow",
        format!("SigningRegression/{repo}"),
        image,
        signature,
        "",
        "",
        reason,
    )
}

#[test]
fn an_established_regression_makes_the_regressed_image_would_block() {
    let rows = vec![
        observed("ghcr.io/acme/app:2", "not-signed", ""),
        regression(
            "ghcr.io/acme/app",
            "ghcr.io/acme/app:2",
            "regression-unsigned-established",
            "now not signed (was signed) | before: a",
        ),
    ];
    let img = &build(&rows)[0].images[0];
    assert_eq!(img.posture, SigningPosture::NotSigned);
    assert_eq!(
        img.enforcement,
        SigningEnforcement::WouldBlock,
        "signed\u{2192}unsigned on an established repo would block"
    );
}

#[test]
fn a_downgrade_on_an_established_keyless_repo_would_block() {
    let rows = vec![
        observed("ghcr.io/acme/app:2", "signed-key-based", "key-based cosign"),
        regression(
            "ghcr.io/acme/app",
            "ghcr.io/acme/app:2",
            "regression-downgrade-key-based-established",
            "now key-based signature, no keyless identity (was keyless-verified) | before: a",
        ),
    ];
    let img = &build(&rows)[0].images[0];
    assert_eq!(img.posture, SigningPosture::SignedKeyBased);
    assert_eq!(img.enforcement, SigningEnforcement::WouldBlock);
}

#[test]
fn an_identity_change_on_an_established_repo_would_block() {
    let rows = vec![
        observed(
            "ghcr.io/acme/app:3",
            "signed",
            "signed by https://github.com/evil/app/.github/workflows/pwn.yaml@refs/heads/main via \
             https://token.actions.githubusercontent.com",
        ),
        regression(
            "ghcr.io/acme/app",
            "ghcr.io/acme/app:3",
            "regression-identity-established",
            "signed by https://github.com/evil/app/.github/workflows/pwn.yaml@refs/heads/main via \
             https://token.actions.githubusercontent.com | before: \
             https://github.com/acme/app/.github/workflows/r.yaml@refs/tags/v1",
        ),
    ];
    let img = &build(&rows)[0].images[0];
    assert_eq!(img.posture, SigningPosture::Signed);
    assert_eq!(
        img.enforcement,
        SigningEnforcement::WouldBlock,
        "a new-signer identity change on an established repo would block"
    );
}

#[test]
fn a_cold_baseline_regression_reads_uncertain_not_blocked() {
    let rows = vec![
        observed("ghcr.io/acme/app:2", "not-signed", ""),
        regression(
            "ghcr.io/acme/app",
            "ghcr.io/acme/app:2",
            "regression-unsigned-cold",
            "now not signed (was signed) | before: a",
        ),
    ];
    let img = &build(&rows)[0].images[0];
    assert_eq!(
        img.enforcement,
        SigningEnforcement::Uncertain,
        "a cold-baseline regression is uncertain (non-green), not would-block"
    );
}

#[test]
fn only_the_regressed_image_blocks_calm_siblings_still_admit() {
    let rows = vec![
        observed("ghcr.io/acme/app:2", "not-signed", ""),
        observed(
            "ghcr.io/acme/app:1",
            "signed",
            "signed by https://github.com/acme/app/.github/workflows/r.yaml@refs/tags/v1",
        ),
        regression(
            "ghcr.io/acme/app",
            "ghcr.io/acme/app:2",
            "regression-unsigned-established",
            "now not signed (was signed) | before: a",
        ),
    ];
    let group = &build(&rows)[0];
    let bad = group
        .images
        .iter()
        .find(|i| i.image == "ghcr.io/acme/app:2")
        .unwrap();
    let good = group
        .images
        .iter()
        .find(|i| i.image == "ghcr.io/acme/app:1")
        .unwrap();
    assert_eq!(bad.enforcement, SigningEnforcement::WouldBlock);
    assert_eq!(
        good.enforcement,
        SigningEnforcement::WouldAdmit,
        "the calm, continuous sibling still admits"
    );
}

#[test]
fn invalid_blocks_even_against_a_cold_baseline_no_evasion() {
    let rows = vec![
        observed("ghcr.io/acme/app:2", "invalid-signature", "tampered chain"),
        regression(
            "ghcr.io/acme/app",
            "ghcr.io/acme/app:2",
            "regression-invalid-cold",
            "now invalid signature (was signed) | before: a",
        ),
    ];
    let groups = build(&rows);
    let img = groups[0]
        .images
        .iter()
        .find(|i| i.image == "ghcr.io/acme/app:2")
        .unwrap();
    assert_eq!(img.enforcement, SigningEnforcement::WouldBlock);
}

#[test]
fn enforcement_verdict_covers_the_continuity_matrix() {
    assert_eq!(
        SigningEnforcement::for_image(SigningPosture::Invalid, None),
        SigningEnforcement::WouldBlock
    );
    assert_eq!(
        SigningEnforcement::for_image(SigningPosture::Invalid, Some(false)),
        SigningEnforcement::WouldBlock
    );
    for p in [
        SigningPosture::Signed,
        SigningPosture::SignedKeyBased,
        SigningPosture::Unverifiable,
        SigningPosture::NotSigned,
        SigningPosture::Checking,
    ] {
        assert_eq!(SigningEnforcement::for_image(p, None), SigningEnforcement::WouldAdmit);
        assert_eq!(SigningEnforcement::for_image(p, Some(true)), SigningEnforcement::WouldBlock);
        assert_eq!(SigningEnforcement::for_image(p, Some(false)), SigningEnforcement::Uncertain);
    }
}

fn exception(repo: &str, image: &str, signature: &str, reason: &str) -> PolicyDecisionRecord {
    record(
        "signing-exception",
        "allow",
        format!("SigningException/{repo}"),
        image,
        signature,
        "",
        "",
        reason,
    )
}

#[test]
fn an_accepted_exception_renders_calm_distinct_and_uncounted() {
    let rows = vec![
        exception(
            "ghcr.io/acme/app",
            "ghcr.io/acme/app:2",
            "exception-unsigned-established",
            "now not signed (was signed) | before: https://github.com/acme/app/.github/workflows/r.yml@refs/tags/v1",
        ),
        observed("ghcr.io/acme/app:2", "not-signed", ""),
    ];
    let groups = build(&rows);
    let group = groups
        .iter()
        .find(|g| g.repo == "ghcr.io/acme/app")
        .expect("the excepted repo group is present (visible)");
    assert!(group.exception.is_some(), "a calm exception banner stands");
    assert!(
        group.regression.is_none(),
        "an accepted exception is NOT the loud regression channel"
    );
    let img = group
        .images
        .iter()
        .find(|i| i.image == "ghcr.io/acme/app:2")
        .expect("the excepted image row is visible");
    assert_eq!(
        img.enforcement,
        SigningEnforcement::ExceptionAccepted,
        "the image's if-enforced chip is the distinct exception-accepted state"
    );
    assert_eq!(
        img.enforcement.word(),
        "exception accepted",
        "the label is a distinct word, never 'signed'/'would admit'"
    );
    assert_eq!(
        counts(&rows),
        (0, 0),
        "an accepted exception never counts toward breach"
    );
}
