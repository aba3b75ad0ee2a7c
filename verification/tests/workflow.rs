use libra::runtime::network_policy_interaction_id;
use libra::workflow::{
    open_intent_review_from_workflow, open_network_policy_from_workflow,
    open_plan_review_from_workflow, open_review_gate_phase_turn_id, CodeWorkflowEventKind as Kind,
};

fn plan_review(interaction_id: &str, plan_id: &str, turn_id: &str, phase1: &str) -> Kind {
    Kind::PlanReviewRequested {
        interaction_id: interaction_id.to_string(),
        plan_id: plan_id.to_string(),
        turn_id: turn_id.to_string(),
        phase1_turn_id: phase1.to_string(),
    }
}

fn network(interaction_id: &str, plan_id: &str, turn_id: &str, default_allow: bool) -> Kind {
    Kind::NetworkPolicyRequested {
        interaction_id: interaction_id.to_string(),
        plan_id: plan_id.to_string(),
        turn_id: turn_id.to_string(),
        default_allow,
    }
}

fn resolved(interaction_id: &str, resolution: &str) -> Kind {
    Kind::InteractionResolved {
        interaction_id: interaction_id.to_string(),
        resolution: resolution.to_string(),
    }
}

#[test]
fn open_review_gate_phase_turn_id_prefers_phase0_then_phase1() {
    let mut events: Vec<Kind> = Vec::new();
    assert_eq!(
        open_review_gate_phase_turn_id(&events),
        None,
        "an empty workflow log must keep every pending mutation fenced"
    );

    events.push(plan_review("plan-1", "plan-1", "plan-review-turn", "phase1-turn"));
    assert_eq!(open_review_gate_phase_turn_id(&events).as_deref(), Some("phase1-turn"));

    events.push(Kind::IntentReviewRequested {
        interaction_id: "intent-1".to_string(),
        intent_id: "intent-1".to_string(),
        turn_id: "intent-review-turn".to_string(),
        phase0_turn_id: "phase0-turn".to_string(),
    });
    assert_eq!(open_review_gate_phase_turn_id(&events).as_deref(), Some("phase0-turn"));

    events.push(resolved("intent-1", "confirm"));
    assert_eq!(
        open_review_gate_phase_turn_id(&events).as_deref(),
        Some("phase1-turn"),
        "resolving the IntentSpec gate falls back to the still-open Plan gate"
    );

    events.push(resolved("plan-1", "execute"));
    assert_eq!(
        open_review_gate_phase_turn_id(&events),
        None,
        "with no gate open, recovery must fence every pending mutation"
    );
}

#[test]
fn open_network_policy_survives_resolved_plan_review() {
    let mut events = vec![plan_review("plan-9", "plan-9", "plan-review-turn", "phase1-turn")];
    assert!(
        open_network_policy_from_workflow(&events).is_none(),
        "a plan review alone must not look like an open network gate"
    );

    events.push(network("plan-9:network-policy", "plan-9", "network-policy-turn", true));
    events.push(resolved("plan-9", "execute"));

    assert_eq!(
        open_plan_review_from_workflow(&events),
        None,
        "the plan review is resolved once Execute is delivered"
    );
    assert_eq!(
        open_network_policy_from_workflow(&events),
        Some((
            "plan-9:network-policy".to_string(),
            "plan-9".to_string(),
            "network-policy-turn".to_string(),
            true,
        )),
        "the unanswered network gate must survive the resolved plan review"
    );

    events.push(resolved("plan-9:network-policy", "network-allow"));
    assert!(
        open_network_policy_from_workflow(&events).is_none(),
        "an answer must clear the durable network marker"
    );
}

#[test]
fn open_network_policy_survives_execute_with_empty_plan_id() {
    let mut events = vec![
        plan_review("review-empty", "", "plan-review-turn", "phase1-turn"),
        network(&network_policy_interaction_id(None), "", "network-policy-turn", false),
    ];
    assert!(
        open_network_policy_from_workflow(&events).is_none(),
        "empty-plan network marker must not restore while plan review is open"
    );

    events.push(resolved("review-empty", "execute"));
    assert_eq!(
        open_network_policy_from_workflow(&events),
        Some((
            network_policy_interaction_id(None),
            String::new(),
            "network-policy-turn".to_string(),
            false,
        )),
        "Execute with empty plan_id must still restore the network gate"
    );
}

#[test]
fn open_network_policy_demotes_when_plan_review_reopens_after_back() {
    let mut events = vec![
        plan_review("review-back", "plan-back", "plan-review-turn", "phase1-turn"),
        network("plan-back:network-policy", "plan-back", "network-policy-turn", true),
        resolved("review-back", "execute"),
    ];
    assert_eq!(
        open_network_policy_from_workflow(&events).map(|(id, ..)| id),
        Some("plan-back:network-policy".to_string()),
        "network gate is restorable after Execute"
    );

    events.push(plan_review("review-back", "plan-back", "plan-review-turn-2", ""));
    assert!(
        open_network_policy_from_workflow(&events).is_none(),
        "re-opened plan review must demote the prior network gate"
    );
    assert_eq!(
        open_plan_review_from_workflow(&events).map(|(id, ..)| id),
        Some("review-back".to_string()),
        "plan review owns recovery after Back"
    );
}

#[test]
fn open_network_policy_waits_for_a_durable_plan_execute() {
    let mut events = vec![
        plan_review("review-11", "plan-11", "plan-review-turn", "phase1-turn"),
        network("plan-11:network-policy", "plan-11", "network-policy-turn", false),
    ];
    assert!(
        open_network_policy_from_workflow(&events).is_none(),
        "a network marker must not open a gate while its plan review is unresolved"
    );
    assert!(
        open_plan_review_from_workflow(&events).is_some(),
        "the plan review still owns the session in this crash window"
    );

    events.push(resolved("review-11", "cancel"));
    assert!(
        open_network_policy_from_workflow(&events).is_none(),
        "a cancelled plan never owes a network decision"
    );
}

#[test]
fn intent_review_stays_open_until_resolved() {
    let mut events = vec![Kind::IntentReviewRequested {
        interaction_id: "intent-2".to_string(),
        intent_id: "intent-2".to_string(),
        turn_id: "turn".to_string(),
        phase0_turn_id: "phase0".to_string(),
    }];
    assert!(open_intent_review_from_workflow(&events).is_some());
    events.push(resolved("intent-2", "confirm"));
    assert!(open_intent_review_from_workflow(&events).is_none());
}
