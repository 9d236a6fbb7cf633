//! The judgement cards.

use protector_view::state::Judgement;
use protector_view::view_model::judgements::{judgements_props, JudgementLead};

fn judgement(verdict: &str, prompt: Option<&str>, reply: Option<&str>) -> Judgement {
    Judgement {
        entry: "workload/app/Pod/web".into(),
        objectives: 2,
        verdict: verdict.to_string(),
        prompt: prompt.map(str::to_string),
        reply: reply.map(str::to_string),
    }
}

#[test]
fn lead_follows_the_three_meta_states() {
    let pre = &judgements_props(&[judgement("Refuted(..)", None, None)]).cards[0];
    assert_eq!(pre.lead, JudgementLead::PreFilter);
    let timeout = &judgements_props(&[judgement("Uncertain(..)", Some("p"), None)]).cards[0];
    assert_eq!(timeout.lead, JudgementLead::Timeout);
    let normal =
        &judgements_props(&[judgement("exploitable — RCE", Some("p"), Some("r"))]).cards[0];
    assert_eq!(
        normal.lead,
        JudgementLead::Verdict("exploitable — RCE".into())
    );
}

#[test]
fn posture_maps_breach_safe_awaiting() {
    let breach =
        &judgements_props(&[judgement("exploitable — RCE", Some("p"), Some("r"))]).cards[0];
    assert_eq!(breach.posture_label, "[BREACH]");
    let safe =
        &judgements_props(&[judgement("not exploitable — denied", Some("p"), Some("r"))]).cards
            [0];
    assert_eq!(safe.posture_label, "[SAFE]");
}

#[test]
fn raw_defaults_are_resolved_for_the_meta_states() {
    let card = &judgements_props(&[judgement("Refuted(..)", None, None)]).cards[0];
    assert_eq!(card.prompt, "(none — pre-filter decided)");
    assert_eq!(card.reply, "(none — model timed out)");
    assert_eq!(
        card.entry, "app/Pod/web",
        "the entry key is shortened (kind prefix dropped) for display"
    );
}
