//! The reversions.

use protector_view::state::ReversionRecord;
use protector_view::view_model::reversions::reversions_props;

const NOW: u64 = 1_700_000_000_000;

#[test]
fn empty_reversions_have_no_rows() {
    assert!(reversions_props(&[], NOW).rows.is_empty());
}

#[test]
fn props_resolve_cut_reason_and_when() {
    let props = reversions_props(&[ReversionRecord {
        cut: "workload/app/Pod/web -[reaches/Tcp]-> workload/app/Pod/db".into(),
        reason: "no proven chain still justifies this control".into(),
        at_ms: NOW,
    }], NOW);
    assert_eq!(props.rows.len(), 1);
    assert!(props.rows[0].cut.contains("workload/app/Pod/web"));
    assert!(
        props.rows[0]
            .reason
            .contains("no proven chain still justifies")
    );
    assert_eq!(props.rows[0].when, "just now");
}
