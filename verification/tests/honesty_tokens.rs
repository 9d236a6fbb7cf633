//! What the strip and the rows may read as: green only where everything is cleared.

use protector_view::props::admission::{AdmissionDecision, GateStatus};
use protector_view::props::findings::{DeltaProps, Posture};
use protector_view::props::readiness::InputStateProps;
use protector_view::props::signing::{
    ProvenancePosture, RegressionKind, RepoStrength, SigningEnforcement,
};
use protector_view::props::status::{CoverageChip, StatusStripProps, StripCoverageAlert, Tab};

fn all_clear_strip() -> StatusStripProps {
    StatusStripProps {
        cluster: "prod-east".into(),
        armed: false,
        model_judging: true,
        warming_up: false,
        model_attached: true,
        coverage: vec![CoverageChip {
            label: "kev".into(),
            present: true,
            degraded: false,
            blind: false,
            stalled: false,
        }],
        coverage_alert: None,
        last_pass: Some("12s ago".into()),
        breach_count: 0,
        awaiting_count: 0,
        uncertain_count: 0,
        cleared_count: 3,
        escalated_count: 0,
        signing_regression_breach: 0,
        signing_regression_uncertain: 0,
    }
}

#[test]
fn all_clear_strip_serializes_the_green_honesty_token() {
    let v = all_clear_strip();
    assert_eq!(
        v.all_clear(),
        true,
        "an honest all-clear ships green"
    );
    assert_eq!(v.watching(), false);
}

#[test]
fn awaiting_strip_never_ships_green_and_reads_watching() {
    let mut strip = all_clear_strip();
    strip.awaiting_count = 1;
    let v = strip;
    assert_eq!(
        v.all_clear(),
        false,
        "an awaiting entry can never ship the green token"
    );
    assert_eq!(
        v.watching(),
        true,
        "it reads the calm watching token"
    );
}

#[test]
fn blind_strip_never_ships_green_or_watching() {
    let mut strip = all_clear_strip();
    strip.model_judging = false;
    let v = strip;
    assert_eq!(v.all_clear(), false);
    assert_eq!(
        v.watching(),
        false,
        "a blind strip is neither all-clear nor watching"
    );
}

#[test]
fn standing_signing_regression_forbids_the_green_token() {
    let strip = all_clear_strip().with_signing_regressions(1, 0);
    let v = strip;
    assert_eq!(v.all_clear(), false);
    assert_eq!(
        v.watching(),
        false,
        "an established regression is louder than watching"
    );
    assert_eq!(v.signing_regression_breach, 1);
}

fn runtime_covered_strip() -> StatusStripProps {
    let mut strip = all_clear_strip();
    strip.coverage = vec![CoverageChip {
        label: "Runtime".into(),
        present: true,
        degraded: false,
        blind: false,
        stalled: false,
    }];
    strip
}

fn runtime_alert() -> StripCoverageAlert {
    StripCoverageAlert {
        feed_label: "Runtime".into(),
        last_observation: Some("2m ago".into()),
        message: "runtime corroboration stalled — all 2 sensor nodes went dark".into(),
    }
}

#[test]
fn a_stalled_feed_forbids_the_green_token_and_ships_the_alert() {
    let strip = runtime_covered_strip().with_coverage_stall(Some(runtime_alert()));
    let v = strip;
    assert_eq!(
        v.all_clear(),
        false,
        "a stalled feed can never ship the green all-clear"
    );
    let chip = &v.coverage[0];
    assert_eq!(chip.stalled, true, "the chip reads stalled");
    assert_eq!(
        chip.present,
        false,
        "a stalled feed is not present"
    );
    assert_eq!(chip.degraded, false, "stalled is not degraded");
    assert_eq!(v.coverage_alert.as_ref().unwrap().feed_label, "Runtime");
    assert_eq!(v.coverage_alert.as_ref().unwrap().last_observation.as_deref(), Some("2m ago"));
    assert!(
        v.coverage_alert.as_ref().unwrap().message
            .contains("stalled")
    );
}

#[test]
fn no_stall_ships_a_null_coverage_alert() {
    let v = runtime_covered_strip();
    assert_eq!(
        v.coverage_alert,
        None,
        "no stall means no banner — the client never synthesizes one"
    );
}

#[test]
fn a_wholly_blind_expected_feed_forbids_the_green_token() {
    let mut blind = all_clear_strip();
    blind.coverage = vec![CoverageChip {
        label: "Runtime".into(),
        present: false,
        degraded: false,
        blind: true,
        stalled: false,
    }];
    assert!(
        !blind.all_clear(),
        "a wholly-blind EXPECTED feed must forbid the green all-clear"
    );
    assert_ne!(
        blind.judging_state(),
        "all-clear",
        "and its judging token is not the green one"
    );
    let v = blind;
    assert_eq!(
        v.coverage[0].blind,
        true,
        "the chip reads blind on the wire"
    );
    assert_eq!(v.all_clear(), false);

    let mut absent = all_clear_strip();
    absent.coverage = vec![CoverageChip {
        label: "Runtime".into(),
        present: false,
        degraded: false,
        blind: false,
        stalled: false,
    }];
    assert!(
        absent.all_clear(),
        "an absent (never-enabled) feed is an honest known-absence — it does not block the all-clear"
    );
}

#[test]
fn judging_state_all_clear_ships_the_green_token() {
    let v = all_clear_strip();
    assert_eq!(
        v.judging_state(),
        "all-clear",
        "an affirmatively-cleared strip ships the green judging token"
    );
}

#[test]
fn judging_state_reads_watching_when_something_is_outstanding() {
    let mut awaiting = all_clear_strip();
    awaiting.awaiting_count = 1;
    assert_eq!(
        awaiting.judging_state(),
        "watching"
    );

    let mut uncertain = all_clear_strip();
    uncertain.uncertain_count = 1;
    assert_eq!(
        uncertain.judging_state(),
        "watching"
    );

    let cold = all_clear_strip().with_signing_regressions(0, 1);
    assert_eq!(
        cold.judging_state(),
        "watching",
        "a cold regression reads the calm watching token"
    );
}

#[test]
fn judging_state_reads_judging_when_up_with_a_breach() {
    let mut breach = all_clear_strip();
    breach.breach_count = 1;
    assert_eq!(
        breach.judging_state(),
        "judging"
    );
}

#[test]
fn judging_state_reads_warming_when_warming_up() {
    let mut warming = all_clear_strip();
    warming.warming_up = true;
    let v = warming;
    assert_eq!(v.judging_state(), "warming");
    assert_eq!(v.all_clear(), false, "warming is never green");
    assert_eq!(v.watching(), false);
}

#[test]
fn judging_state_reads_no_model_when_none_attached() {
    let mut none = all_clear_strip();
    none.model_judging = false;
    none.model_attached = false;
    assert_eq!(
        none.judging_state(),
        "no-model"
    );
}

#[test]
fn judging_state_reads_blind_when_the_model_is_down() {
    let mut down = all_clear_strip();
    down.model_judging = false;
    let v = down;
    assert_eq!(v.judging_state(), "blind");
    assert_eq!(v.all_clear(), false);
}

#[test]
fn judging_state_is_all_clear_iff_the_green_token_is() {
    let cases: Vec<StatusStripProps> = vec![
        all_clear_strip(),
        {
            let mut s = all_clear_strip();
            s.awaiting_count = 1;
            s
        },
        {
            let mut s = all_clear_strip();
            s.breach_count = 2;
            s
        },
        {
            let mut s = all_clear_strip();
            s.warming_up = true;
            s
        },
        {
            let mut s = all_clear_strip();
            s.model_judging = false;
            s
        },
        all_clear_strip().with_signing_regressions(1, 0),
    ];
    for strip in cases {
        let all_clear = strip.all_clear();
        let v = &strip;
        assert_eq!(
            v.judging_state() == "all-clear",
            all_clear,
            "judging-state may read all-clear IFF the strip is all_clear() ({strip:?})"
        );
    }
}

#[test]
fn cleared_posture_is_the_only_green_row_token() {
    for (posture, cleared) in [
        (Posture::Cleared, true),
        (Posture::Breach, false),
        (Posture::Uncertain, false),
        (Posture::Awaiting, false),
    ] {
        assert_eq!(
            posture.is_cleared(),
            cleared,
            "{posture:?} greenness must match the honesty gate"
        );
    }
}


#[test]
fn posture_serializes_to_stable_string_tags() {
    assert_eq!(Posture::Breach.token(), "breach");
    assert_eq!(Posture::Cleared.token(), "cleared");
    assert_eq!(Posture::Uncertain.token(), "uncertain");
    assert_eq!(Posture::Awaiting.token(), "awaiting");
    assert_eq!(Posture::Breach.word(), "BREACH");
    assert_ne!(Posture::Awaiting.glyph(), Posture::Cleared.glyph());
}

#[test]
fn input_state_stalled_serializes_distinctly() {
    assert_eq!(InputStateProps::Stalled.token(), "stalled");
    assert_ne!(InputStateProps::Stalled.token(), InputStateProps::Absent.token());
    assert_ne!(InputStateProps::Stalled.token(), InputStateProps::Degraded.token());
}

#[test]
fn the_tabs_have_their_paths_labels_and_tokens() {
    assert_eq!(Tab::Findings.token(), "findings");
    assert_eq!(Tab::Alerts.token(), "alerts");
    assert_eq!(Tab::Admission.token(), "admission");
    assert_eq!(Tab::Findings.path(), "/");
    assert_eq!(Tab::Readiness.path(), "/?tab=readiness");
    assert_eq!(Tab::Action.label(), "Action");
}

#[test]
fn changes_have_their_marks_and_words() {
    assert_eq!(DeltaProps::New.label(), "new this pass");
    assert_eq!(DeltaProps::Escalated.glyph(), "\u{25b2}");
    assert_eq!(DeltaProps::DeEscalated.token(), Some("down"));
    let steady = DeltaProps::Unchanged { age: Some("4m".into()) };
    assert_eq!(steady.label(), "steady \u{b7} 4m");
    assert_eq!(steady.token(), None);
}

#[test]
fn gates_builds_and_regressions_read_as_they_are() {
    assert!(GateStatus::WouldFail.is_fail() && !GateStatus::Verified.is_fail());
    assert!(ProvenancePosture::Verified.is_verified() && !ProvenancePosture::Absent.is_verified());
    assert_eq!(SigningEnforcement::ExceptionAccepted.token(), "exception");
    assert_eq!(SigningEnforcement::WouldBlock.word(), "would block");
    for kind in [
        RegressionKind::Unsigned,
        RegressionKind::Invalid,
        RegressionKind::IdentityChange,
        RegressionKind::DivergenceRegistrySigned,
        RegressionKind::DivergenceLogSigned,
        RegressionKind::DowngradeKeyBased,
        RegressionKind::DowngradeUnverifiable,
    ] {
        assert_eq!(RegressionKind::parse(kind.token()), kind);
        assert!(!kind.after_word().is_empty());
        assert!(kind.word().contains("signing regression"), "{}", kind.word());
    }
    assert_eq!(RepoStrength::parse("log-corroborated"), RepoStrength::LogCorroborated);
    assert!(!RepoStrength::LocalOnly.detail().is_empty());
    assert_eq!(AdmissionDecision::parse(AdmissionDecision::Deny.token()), AdmissionDecision::Deny);
    assert_eq!(AdmissionDecision::parse("?"), AdmissionDecision::Other);
}
