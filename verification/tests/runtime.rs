use libra::runtime::{
    is_plan_execution_turn, network_policy_interaction_id, plan_execution_turn_request,
    NetworkPolicyDecision, PlanReviewDecision, TurnRequest, PLAN_EXECUTION_TURN_INPUT,
};

#[test]
fn plan_execution_turn_request_is_mutating_and_marked() {
    let request = plan_execution_turn_request("session", "turn-1");
    assert!(is_plan_execution_turn(&request));
    assert!(request.mutating);
    assert_eq!(request.input, PLAN_EXECUTION_TURN_INPUT);
}

#[test]
fn ordinary_chat_turn_is_not_plan_execution() {
    let request = TurnRequest::new("session", "turn-1", "hello", true);
    assert!(!is_plan_execution_turn(&request));
}

#[test]
fn network_policy_wire_ids_round_trip() {
    for decision in [
        NetworkPolicyDecision::Allow,
        NetworkPolicyDecision::Deny,
        NetworkPolicyDecision::Back,
    ] {
        assert_eq!(NetworkPolicyDecision::from_wire_id(decision.wire_id()), Some(decision));
    }
    assert_eq!(NetworkPolicyDecision::from_wire_id("maybe"), None);
}

#[test]
fn plan_review_wire_ids_round_trip() {
    for index in 0..8usize {
        if let Some(decision) = PlanReviewDecision::from_choice_index(index) {
            assert_eq!(PlanReviewDecision::from_wire_id(decision.wire_id()), Some(decision));
        }
    }
}

#[test]
fn network_policy_interaction_id_is_scoped_to_the_plan() {
    assert_eq!(network_policy_interaction_id(Some("plan-9")), "plan-9:network-policy");
}
