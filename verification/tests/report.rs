//! The report of what would have been done.

use protector_view::view_model::report::{report_props, Lifetime, ReportBody};
use protector_view::view_model::report_data::{LeftAloneEntry, Report, WouldActEntry};

fn would(open: bool, short_lived: bool) -> WouldActEntry {
    WouldActEntry {
        entry: "workload/app/Pod/web".into(),
        episodes: 1,
        would_act_decisions: 2,
        max_lifetime_secs: 7200,
        open,
        short_lived,
        coverage_gap: false,
        last_verdict: "exploitable — RCE".into(),
    }
}

fn report_with(would_act: Vec<WouldActEntry>, left_alone: Vec<LeftAloneEntry>) -> Report {
    Report {
        window_secs: 7 * 24 * 3600,
        short_lived_secs: 300,
        decisions_in_window: 1,
        journal_empty: false,
        would_act,
        left_alone,
    }
}

#[test]
fn empty_journal_maps_to_the_empty_body() {
    let r = report_with(vec![], vec![]);
    let empty = Report {
        journal_empty: true,
        ..r
    };
    assert_eq!(
        report_props(&empty).body,
        ReportBody::Empty {
            window: "7d".into()
        }
    );
}

#[test]
fn history_but_no_window_decisions_maps_to_out_of_window() {
    let r = report_with(vec![], vec![]);
    assert_eq!(
        report_props(&r).body,
        ReportBody::OutOfWindow {
            window: "7d".into()
        }
    );
}

#[test]
fn would_act_lifetime_kind_follows_open_then_short_lived_then_sustained() {
    let open = report_props(&report_with(vec![would(true, false)], vec![]));
    let short = report_props(&report_with(vec![would(false, true)], vec![]));
    let sustained = report_props(&report_with(vec![would(false, false)], vec![]));
    for (props, want) in [
        (open, Lifetime::Open),
        (short, Lifetime::ShortLived),
        (sustained, Lifetime::Sustained),
    ] {
        let ReportBody::Diff(diff) = props.body else {
            panic!("expected a diff body");
        };
        assert_eq!(diff.would_act[0].lifetime_kind, want);
    }
}

#[test]
fn entry_keys_are_shortened_for_display() {
    let r = report_with(
        vec![would(true, false)],
        vec![LeftAloneEntry {
            entry: "workload/app/Pod/safe".into(),
            verdict: "not exploitable".into(),
        }],
    );
    let ReportBody::Diff(diff) = report_props(&r).body else {
        panic!("expected a diff body");
    };
    assert_eq!(diff.would_act[0].entry, "app/Pod/web");
    assert_eq!(diff.left_alone[0].entry, "app/Pod/safe");
}
