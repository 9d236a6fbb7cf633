//! The runtime signals of a pass.

use protector_view::view_model::bake::{bake_props, BakeProps};
use protector_view::view_model::readiness_data::BakeStats;

/// The share of attributed signals that no workload was found for, in percent.
fn unresolved_pct(props: &BakeProps) -> f64 {
    if props.attributed == 0 {
        0.0
    } else {
        props.unresolved as f64 / props.attributed as f64 * 100.0
    }
}

fn bake(resolved: u64, unresolved: u64) -> BakeStats {
    BakeStats {
        signals_by_variant: vec![
            ("connection".to_string(), 12),
            ("library-load".to_string(), 5),
            ("secret-read".to_string(), 3),
        ],
        resolved,
        unresolved,
        runtime_store: 7,
        corroborations: 2,
    }
}

#[test]
fn empty_bake_is_quiet() {
    let props = bake_props(&BakeStats::default());
    assert!(props.quiet, "nothing observed ⇒ quiet");
}

#[test]
fn props_carry_volume_attribution_and_corroborations() {
    let props = bake_props(&bake(80, 20));
    assert!(!props.quiet);
    assert_eq!(props.total, 20);
    assert_eq!(props.resolved, 80);
    assert_eq!(props.unresolved, 20);
    assert!((unresolved_pct(&props) - 20.0).abs() < 1e-9);
    assert_eq!(props.corroborations, 2);
    assert_eq!(props.variants.len(), 3);
    assert_eq!(props.variants[0].variant, "connection");
}

#[test]
fn fully_resolved_pass_has_zero_unresolved() {
    let props = bake_props(&bake(15, 0));
    assert_eq!(props.unresolved, 0);
    assert_eq!(unresolved_pct(&props), 0.0);
}

#[test]
fn attribution_never_overflows() {
    let props = bake_props(&bake(u64::MAX, u64::MAX));
    assert_eq!(props.attributed, 2 * (u64::MAX as u128));
    assert_eq!(props.runtime_store, 7);
    assert!((unresolved_pct(&props) - 50.0).abs() < 1e-9);
}
