//! The decision inputs.

use protector_view::view_model::readiness_data::{
    derive_readiness, BakeStats, InputState, ModelHealth, Readiness, ReadinessConfig,
};

fn config(model_attached: bool) -> ReadinessConfig {
    ReadinessConfig {
        model_attached,
        kev_count: 1,
        epss_count: 0,
        journal_durable: true,
        armed: true,
    }
}

fn row<'a>(r: &'a Readiness, id: &str) -> &'a str {
    &r.inputs.iter().find(|row| row.id == id).expect("there is such a row").detail
}

fn state(r: &Readiness, id: &str) -> InputState {
    r.inputs.iter().find(|row| row.id == id).expect("there is such a row").state
}

#[test]
fn only_an_answering_model_judges() {
    let bake = BakeStats::default();
    for (attached, health, judging) in [
        (true, ModelHealth::Answering, true),
        (true, ModelHealth::Timeout, false),
        (true, ModelHealth::Unknown, false),
        (false, ModelHealth::Answering, false),
    ] {
        let r = derive_readiness(&config(attached), health, &bake, Some(0));
        assert_eq!(r.model_judging, judging);
        assert_eq!(r.model_attached(), attached);
    }
    let r = derive_readiness(&config(true), ModelHealth::Timeout, &bake, Some(0));
    assert_eq!(state(&r, "model"), InputState::Degraded);
    assert_eq!(state(&r, "model").word(), "degraded");
}

#[test]
fn no_pass_is_warming_up() {
    let bake = BakeStats::default();
    assert!(derive_readiness(&config(true), ModelHealth::Unknown, &bake, None).warming_up);
    assert!(!derive_readiness(&config(true), ModelHealth::Unknown, &bake, Some(9)).warming_up);
}

#[test]
fn the_feeds_share_the_signals() {
    let mut bake = BakeStats::default();
    bake.signals_by_variant = vec![("alert".into(), 2), ("exec".into(), 3), ("write".into(), 4)];
    assert_eq!(bake.total_signals(), 9);
    let r = derive_readiness(&config(true), ModelHealth::Answering, &bake, Some(0));
    assert!(row(&r, "falco").contains('2'), "{}", row(&r, "falco"));
    assert!(row(&r, "ebpf-agent").contains('7'), "{}", row(&r, "ebpf-agent"));
    assert_eq!(state(&r, "falco"), InputState::Present);
}

#[test]
fn unmet_inputs_are_those_that_weaken_decisions() {
    let r = derive_readiness(&config(true), ModelHealth::Answering, &BakeStats::default(), Some(0));
    assert_eq!(state(&r, "epss"), InputState::Absent);
    assert!(r.has_unmet());
    assert_eq!(r.unmet_count(), 3);
    assert_eq!(row(&r, "arm-state"), "enforcing (acting)");
    assert_eq!(row(&r, "journal"), "durable volume mounted");
}
