//! Postures, ages and changes.

use protector_view::props::findings::{DeltaProps, LiveTag};
use protector_view::state::{Delta, RecencyInfo, Verdict};
use protector_view::view_model::posture::{
    delta_of, human_age, live_tag_of, posture_of, relative_time, seconds_since,
};

#[test]
fn uncertain_and_awaiting_are_never_cleared() {
    assert!(!posture_of(None).is_cleared());
    assert!(!posture_of(Some(&Verdict::Uncertain("timed out".into()))).is_cleared());
    assert!(posture_of(Some(&Verdict::Refuted("internal only".into()))).is_cleared());
    assert!(!posture_of(Some(&Verdict::Confirmed)).is_cleared());
    assert!(!posture_of(Some(&Verdict::Exploitable("RCE".into()))).is_cleared());
}

#[test]
fn live_vs_judged_sub_tag() {
    assert_eq!(live_tag_of(Some(&Verdict::Confirmed)), LiveTag::Live);
    assert_eq!(
        live_tag_of(Some(&Verdict::Exploitable("x".into()))),
        LiveTag::Judged
    );
    assert_eq!(live_tag_of(None), LiveTag::Untagged);
    assert_eq!(
        live_tag_of(Some(&Verdict::Refuted("x".into()))),
        LiveTag::Untagged
    );
}

#[test]
fn human_age_buckets() {
    assert_eq!(human_age(12), "12s");
    assert_eq!(human_age(240), "4m");
    assert_eq!(human_age(7200), "2h");
    assert_eq!(human_age(259_200), "3d");
}

#[test]
fn steady_delta_shows_age_not_glyph() {
    let info = RecencyInfo {
        delta: Delta::Unchanged,
        age_secs: Some(90),
    };
    let d = delta_of(Some(&info));
    assert_eq!(
        d,
        DeltaProps::Unchanged {
            age: Some("1m".into())
        }
    );
    assert_eq!(d.glyph(), "");
}

#[test]
fn ages_at_the_edges_of_their_units() {
    assert_eq!(human_age(0), "0s");
    assert_eq!(human_age(59), "59s");
    assert_eq!(human_age(60), "1m");
    assert_eq!(human_age(3599), "59m");
    assert_eq!(human_age(3600), "1h");
    assert_eq!(human_age(86_399), "23h");
    assert_eq!(human_age(86_400), "1d");
    assert_eq!(relative_time(None), "waiting for first pass");
    assert_eq!(relative_time(Some(0)), "just now");
    assert_eq!(relative_time(Some(5)), "5s ago");
    assert_eq!(seconds_since(1_000, 3_999), 2);
    assert_eq!(seconds_since(4_000, 3_999), 0);
}

#[test]
fn a_change_that_was_not_recorded_is_steady() {
    assert_eq!(delta_of(None), DeltaProps::Unchanged { age: None });
    let info = RecencyInfo { delta: Delta::New, age_secs: Some(90) };
    assert_eq!(delta_of(Some(&info)), DeltaProps::New);
}
