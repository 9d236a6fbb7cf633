//! The aggregation of the journal.

use protector_view::view_model::report_data::{
    aggregate_report, human_span, is_coverage_gap, verdict_clears, verdict_would_act, Decision,
    EnrichmentCoverage, JournalEntry, ReportQuery,
};

const HOUR: u64 = 3_600_000;
const NOW: u64 = 1_000 * HOUR;

fn entry(hours_ago: u64, key: &str, verdict: &str) -> JournalEntry {
    JournalEntry {
        at_ms: NOW - hours_ago * HOUR,
        decision: Decision::Breach {
            entry: key.into(),
            verdict: verdict.into(),
            coverage: Some(EnrichmentCoverage { cve_evidence: true, behavioral_signal: false }),
        },
    }
}

#[test]
fn the_window_is_hours_then_days_then_a_week() {
    let q = |hours, days| ReportQuery { hours, days, short_lived_secs: None };
    assert_eq!(q(Some(2), Some(9)).window(), 7_200);
    assert_eq!(q(None, Some(2)).window(), 172_800);
    assert_eq!(q(None, None).window(), 604_800);
    assert_eq!(q(Some(u64::MAX), None).window(), u64::MAX);
    assert_eq!(q(None, None).short_lived(), 300);
    let asked = ReportQuery { hours: None, days: None, short_lived_secs: Some(5) };
    assert_eq!(asked.short_lived(), 5);
    assert_eq!(human_span(7_200), "2h");
}

#[test]
fn only_an_affirmation_would_act() {
    assert!(verdict_would_act("exploitable \u{2014} RCE"));
    assert!(verdict_would_act("  Confirmed"));
    assert!(!verdict_would_act("not exploitable"));
    assert!(!verdict_would_act("uncertain"));
}

#[test]
fn a_gap_is_a_decision_with_nothing_to_weigh() {
    let c = |cve_evidence, behavioral_signal| {
        Some(EnrichmentCoverage { cve_evidence, behavioral_signal })
    };
    assert!(is_coverage_gap(c(false, false).as_ref()));
    assert!(!is_coverage_gap(c(true, false).as_ref()));
    assert!(!is_coverage_gap(c(false, true).as_ref()));
    assert!(!is_coverage_gap(None));
}

#[test]
fn an_open_episode_lives_until_now() {
    let r = aggregate_report(&[entry(5, "web", "exploitable"), entry(3, "web", "exploitable")], NOW, 604_800, 300);
    assert_eq!(r.would_act_count(), 1);
    let w = &r.would_act[0];
    assert!(w.open && !w.short_lived);
    assert_eq!((w.episodes, w.would_act_decisions, w.max_lifetime_secs), (1, 2, 5 * 3600));
    assert_eq!(r.decisions_in_window, 2);
    assert!(!r.journal_empty);
}

#[test]
fn a_clearing_decision_ends_an_episode() {
    let mut end = entry(5, "web", "not exploitable");
    end.at_ms += 60_000;
    let r = aggregate_report(
        &[entry(5, "web", "exploitable"), end, entry(8, "api", "not exploitable")],
        NOW,
        604_800,
        300,
    );
    let w = &r.would_act[0];
    assert_eq!((w.entry.as_str(), w.open, w.short_lived, w.max_lifetime_secs), ("web", false, true, 60));
    assert_eq!(r.short_lived_count(), 1);
    assert_eq!(r.left_alone_count(), 1);
    assert_eq!(r.left_alone[0].entry, "api");
    assert_eq!(r.coverage_gap_count(), 0);
}

#[test]
fn what_is_out_of_the_window_is_history() {
    let r = aggregate_report(&[entry(50, "web", "exploitable")], NOW, 3_600, 300);
    assert!(!r.journal_empty);
    assert_eq!(r.decisions_in_window, 0);
    assert!(r.would_act.is_empty() && r.left_alone.is_empty());
}

#[test]
fn an_empty_journal_reports_nothing() {
    let other = JournalEntry { at_ms: NOW, decision: Decision::Other };
    for entries in [vec![], vec![other]] {
        let r = aggregate_report(&entries, NOW, 604_800, 300);
        assert!(r.journal_empty);
        assert!(r.would_act.is_empty() && r.left_alone.is_empty());
    }
}

#[test]
fn sustained_workloads_show_before_short_lived_ones() {
    let mut end = entry(5, "a", "not exploitable");
    end.at_ms += 60_000;
    let r = aggregate_report(
        &[entry(5, "a", "exploitable"), end, entry(4, "b", "exploitable")],
        NOW,
        604_800,
        300,
    );
    let order: Vec<&str> = r.would_act.iter().map(|w| w.entry.as_str()).collect();
    assert_eq!(order, ["b", "a"]);
}

#[test]
fn what_is_uncertain_is_not_left_alone() {
    let r = aggregate_report(&[entry(5, "w", "uncertain: model timed out")], NOW, 604_800, 300);
    assert!(r.would_act.is_empty() && r.left_alone.is_empty());
    assert_eq!(r.decisions_in_window, 1);
    assert!(!r.journal_empty);
    let r = aggregate_report(
        &[entry(6, "w", "not exploitable"), entry(5, "w", "uncertain: model timed out")],
        NOW,
        604_800,
        300,
    );
    assert!(r.left_alone.is_empty(), "the last word counts");
    let r = aggregate_report(
        &[entry(6, "w", "uncertain"), entry(5, "w", "  Refuted(\"internal\")")],
        NOW,
        604_800,
        300,
    );
    assert_eq!(r.left_alone[0].verdict, "  Refuted(\"internal\")");
    assert!(verdict_clears("Not exploitable: b") && !verdict_clears("exploitable"));
}

#[test]
fn the_longest_episode_counts_open_or_closed() {
    let b = |at_ms: u64, verdict: &str| JournalEntry {
        at_ms,
        decision: Decision::Breach { entry: "w".into(), verdict: verdict.into(), coverage: None },
    };
    let mut entries = vec![
        b(100_000, "exploitable: a"),
        b(500_000, "not exploitable: b"),
        b(900_000, "exploitable: c"),
    ];
    let r = aggregate_report(&entries, 1_000_000, 1_000, 300);
    assert_eq!(r.would_act.len(), 1);
    assert_eq!(r.would_act[0].max_lifetime_secs, 400);
    assert!(r.would_act[0].open && !r.would_act[0].short_lived);
    assert_eq!(r.would_act[0].episodes, 2);
    entries.rotate_left(1);
    assert_eq!(aggregate_report(&entries, 1_000_000, 1_000, 300), r, "the order does not matter");
    let r = aggregate_report(&entries, 2_000_000, 2_000, 300);
    assert_eq!(r.would_act[0].max_lifetime_secs, 1_100);
}
