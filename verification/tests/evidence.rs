//! The evidence on one exposed entry.

use protector_view::graph::{Behavior, Reachability, Severity, Signal};
use protector_view::state::{CveEvidence, EntryEvidence, FindingEvidence};
use protector_view::view_model::evidence::{evidence_blocks, glyph_strip};

fn behavior(signal: Signal, variant: &str, summary: String) -> Behavior {
    Behavior {
        signal,
        variant: variant.into(),
        summary,
        notable_exec: None,
        alarming_write: None,
        foothold_peer: None,
    }
}

fn alert(rule: &str) -> Behavior {
    behavior(Signal::Alert { rule: rule.into() }, "alert", format!("alert: {rule}"))
}

fn exec(path: &str) -> Behavior {
    behavior(Signal::ProcessExec { path: path.into() }, "exec", format!("executed {path}"))
}

fn vuln(
    id: &str,
    sev: Severity,
    kev: bool,
    score: Option<f64>,
    epss: Option<f32>,
) -> CveEvidence {
    CveEvidence {
        id: id.into(),
        severity: sev.label().into(),
        score: score.map(|s| format!("{s:.1}")),
        score_rank: score.map_or(0, |s| (s * 10.0).round() as u64),
        kev,
        epss: epss.map(|e| format!("{:.0}%", e * 100.0)),
        epss_rank: epss.map_or(0, |e| (e * 100.0).round() as u64),
        reachability: Reachability::NotObserved.label().into(),
        fix: "no fix available".into(),
        cwe: vec![],
        title: None,
    }
}

#[test]
fn glyph_strip_takes_the_max_cvss_and_epss_and_flags_kev() {
    let ev = EntryEvidence {
        cves: vec![
            vuln("CVE-1", Severity::High, false, Some(7.5), Some(0.10)),
            vuln("CVE-2", Severity::Critical, true, Some(9.8), Some(0.90)),
        ],
        ..Default::default()
    };
    let g = glyph_strip(&ev, false);
    assert_eq!(g.cvss.as_deref(), Some("cvss 9.8"));
    assert_eq!(g.epss.as_deref(), Some("epss 90%"));
    assert!(g.kev);
    assert!(!g.secret);
    assert!(!g.runtime);
}

#[test]
fn runtime_glyph_set_by_alert_or_corroboration() {
    let ev = EntryEvidence {
        runtime: vec![alert("shell in container")],
        ..Default::default()
    };
    assert!(
        glyph_strip(&ev, false).runtime,
        "an alert sets the runtime glyph"
    );
    assert!(
        glyph_strip(&EntryEvidence::default(), true).runtime,
        "corroboration alone sets it"
    );
}

#[test]
fn empty_strip_is_empty() {
    assert!(glyph_strip(&EntryEvidence::default(), false).is_empty());
}

#[test]
fn blocks_split_alerts_from_context_and_carry_cve_lines() {
    let ev = EntryEvidence {
        cves: vec![vuln(
            "CVE-9",
            Severity::Critical,
            true,
            Some(9.8),
            Some(0.9),
        )],
        runtime: vec![
            alert("shell in container"),
            exec("/bin/sh"),
        ],
        ..Default::default()
    };
    let b = evidence_blocks(&ev);
    assert_eq!(b.cves.len(), 1);
    assert_eq!(b.cves[0].cvss.as_deref(), Some("9.8"));
    assert_eq!(b.cves[0].epss.as_deref(), Some("90%"));
    assert_eq!(b.alerts.len(), 1);
    assert_eq!(b.context.len(), 1);
    assert!(!b.is_empty());
}

#[test]
fn a_secret_sets_its_glyph_and_its_block() {
    let ev = EntryEvidence {
        exposed_secrets: vec![FindingEvidence {
            id: "aws-key".into(),
            severity: "high".into(),
            category: Some("AWS".into()),
            title: None,
        }],
        ..Default::default()
    };
    let g = glyph_strip(&ev, false);
    assert!(g.secret && !g.is_empty());
    let b = evidence_blocks(&ev);
    assert_eq!(b.exposed_secrets[0].category.as_deref(), Some("AWS"));
    assert!(b.misconfigs.is_empty() && b.rbac.is_empty());
    assert!(evidence_blocks(&EntryEvidence::default()).is_empty());
}
