use libra::review_fix::{
    control_endpoint, control_endpoint_at, control_endpoint_path, denial_for, finish_admission, finish_execution, normalize_active_execution_error,
    requires_code_session_handoff, review_fix_admission_gate, validate_response,
    ReviewFixBridgeError, ReviewFixExecutionOutcome, ReviewFixInput, ReviewFixInteraction,
    ReviewFixInteractionKind, ReviewFixInteractionResponse, ReviewFixInteractionStatus,
    ReviewFixQuestion, ReviewFixSessionSnapshot, ReviewFixSessionStatus, WireInteraction,
    WireInteractionMetadata, WireOption, WireQuestion,
};

#[test]
fn active_transport_failure_is_not_reported_as_missing_runtime() {
    assert_eq!(
        normalize_active_execution_error(ReviewFixBridgeError::Unavailable),
        ReviewFixBridgeError::ExecutionFailed
    );
}

#[test]
fn detach_failure_does_not_hide_a_definitive_denial() {
    assert_eq!(
        finish_execution(
            Err(ReviewFixBridgeError::ApprovalDenied),
            Err(ReviewFixBridgeError::ExecutionFailed),
        ),
        Err(ReviewFixBridgeError::ApprovalDenied)
    );
}

#[test]
fn detach_failure_still_fails_an_otherwise_successful_execution() {
    assert_eq!(
        finish_execution(
            Ok(ReviewFixExecutionOutcome::PatchApplied),
            Err(ReviewFixBridgeError::ExecutionFailed),
        ),
        Err(ReviewFixBridgeError::ExecutionFailed)
    );
}

#[test]
fn fix_execution_tests_untrusted_seed_is_refused_before_control_discovery() {
    assert_eq!(
        review_fix_admission_gate(ReviewFixInput::UntrustedSeed),
        Err(ReviewFixBridgeError::UntrustedSeed)
    );
    assert_eq!(review_fix_admission_gate(ReviewFixInput::TrustedAdmission), Ok(()));
}

#[test]
fn successful_execution_with_clean_detach_succeeds() {
    assert_eq!(
        finish_execution(Ok(ReviewFixExecutionOutcome::PatchApplied), Ok(())),
        Ok(ReviewFixExecutionOutcome::PatchApplied)
    );
}

fn question(id: &str) -> ReviewFixQuestion {
    ReviewFixQuestion {
        id: id.to_string(),
        prompt: "Answer?".to_string(),
        options: Vec::new(),
        allow_other: false,
        is_secret: false,
    }
}

#[test]
fn oversized_user_response_fails_before_control_submission() {
    let interaction = ReviewFixInteraction {
        id: "input-1".to_string(),
        kind: ReviewFixInteractionKind::RequestUserInput,
        title: None,
        prompt: None,
        options: Vec::new(),
        questions: vec![question("answer")],
    };
    let response = ReviewFixInteractionResponse {
        selected_option: String::new(),
        answers: vec![("answer".to_string(), vec!["x".repeat(256 * 1024 + 1)])],
    };
    assert_eq!(
        validate_response(&interaction, &response).expect_err("oversized response fails closed"),
        ReviewFixBridgeError::InvalidInteractionResponse
    );
}

#[test]
fn small_user_response_is_accepted() {
    let interaction = ReviewFixInteraction {
        id: "input-1".to_string(),
        kind: ReviewFixInteractionKind::RequestUserInput,
        title: None,
        prompt: None,
        options: Vec::new(),
        questions: vec![question("answer")],
    };
    let response = ReviewFixInteractionResponse {
        selected_option: String::new(),
        answers: vec![("answer".to_string(), vec!["yes".to_string()])],
    };
    assert_eq!(validate_response(&interaction, &response), Ok(()));
}

#[test]
fn abort_is_a_stable_approval_denial() {
    let interaction = ReviewFixInteraction {
        id: "approval-1".to_string(),
        kind: ReviewFixInteractionKind::Approval,
        title: None,
        prompt: None,
        options: vec!["approve".to_string(), "abort".to_string()],
        questions: Vec::new(),
    };
    let response = ReviewFixInteractionResponse {
        selected_option: "abort".to_string(),
        answers: Vec::new(),
    };
    assert_eq!(
        denial_for(&interaction, &response),
        Some(ReviewFixBridgeError::ApprovalDenied)
    );
}

#[test]
fn plan_revision_hands_control_back_without_idle_timeout() {
    let interaction = ReviewFixInteraction {
        id: "plan-1".to_string(),
        kind: ReviewFixInteractionKind::PostPlanChoice,
        title: None,
        prompt: None,
        options: vec!["execute".to_string(), "modify".to_string()],
        questions: Vec::new(),
    };
    let response = ReviewFixInteractionResponse {
        selected_option: "modify".to_string(),
        answers: Vec::new(),
    };
    assert!(requires_code_session_handoff(&interaction, &response));
}

fn snapshot_with_interaction(interaction: WireInteraction) -> ReviewFixSessionSnapshot {
    ReviewFixSessionSnapshot {
        status: ReviewFixSessionStatus::AwaitingInteraction,
        interactions: vec![interaction],
        patchsets: Vec::new(),
    }
}

fn wire_question(id: &str, prompt: &str) -> WireQuestion {
    WireQuestion {
        id: id.to_string(),
        header: String::new(),
        prompt: prompt.to_string(),
        options: Vec::new(),
        is_other: false,
        is_secret: false,
    }
}

#[test]
fn request_user_input_requires_unique_question_ids() {
    let snapshot = snapshot_with_interaction(WireInteraction {
        id: "input-1".to_string(),
        kind: ReviewFixInteractionKind::RequestUserInput,
        status: ReviewFixInteractionStatus::Pending,
        title: None,
        description: None,
        prompt: None,
        options: Vec::new(),
        metadata: WireInteractionMetadata {
            questions: vec![wire_question("risk", "Risk?"), wire_question("risk", "Again?")],
        },
    });
    assert_eq!(
        snapshot.pending_interactions().expect_err("duplicate ids fail closed"),
        ReviewFixBridgeError::ExecutionFailed
    );
}

#[test]
fn selectable_ids_reject_terminal_control_characters() {
    let snapshot = snapshot_with_interaction(WireInteraction {
        id: "approval-1".to_string(),
        kind: ReviewFixInteractionKind::Approval,
        status: ReviewFixInteractionStatus::Pending,
        title: None,
        description: None,
        prompt: None,
        options: vec![WireOption { id: "approve\u{001b}[2J".to_string() }],
        metadata: WireInteractionMetadata { questions: Vec::new() },
    });
    assert_eq!(
        snapshot.pending_interactions().expect_err("control ids fail closed"),
        ReviewFixBridgeError::ExecutionFailed
    );
}

#[test]
fn well_formed_pending_interaction_is_projected() {
    let snapshot = snapshot_with_interaction(WireInteraction {
        id: "approval-1".to_string(),
        kind: ReviewFixInteractionKind::Approval,
        status: ReviewFixInteractionStatus::Pending,
        title: None,
        description: None,
        prompt: None,
        options: vec![
            WireOption { id: "approve".to_string() },
            WireOption { id: "abort".to_string() },
        ],
        metadata: WireInteractionMetadata { questions: Vec::new() },
    });
    let pending = snapshot.pending_interactions().expect("valid interaction");
    assert_eq!(pending.len(), 1);
    assert_eq!(pending[0].id, "approval-1");
    assert_eq!(pending[0].options, vec!["approve".to_string(), "abort".to_string()]);
}

#[test]
fn admission_failure_outranks_detach_failure() {
    assert_eq!(
        finish_admission(
            Err(ReviewFixBridgeError::UntrustedSeed),
            Err(ReviewFixBridgeError::ExecutionFailed),
        ),
        Err(ReviewFixBridgeError::UntrustedSeed)
    );
    assert_eq!(
        finish_admission(Ok(()), Err(ReviewFixBridgeError::ExecutionFailed)),
        Err(ReviewFixBridgeError::ExecutionFailed)
    );
    assert_eq!(finish_admission(Ok(()), Ok(())), Ok(()));
}

#[test]
fn control_endpoint_joins_paths_with_one_slash() {
    assert_eq!(control_endpoint_path("/control//", "//api/code/messages"), "/control/api/code/messages");
    assert_eq!(control_endpoint_path("/", "/api/code/messages"), "/api/code/messages");
}

#[test]
fn control_endpoint_appends_to_the_base_path_and_drops_query_and_fragment() {
    assert_eq!(
        control_endpoint("http://127.0.0.1:8080/control/?session=1#top", "/api/code/messages").as_deref(),
        Some("http://127.0.0.1:8080/control/api/code/messages")
    );
}

#[test]
fn control_endpoint_under_a_bare_origin() {
    assert_eq!(
        control_endpoint("http://127.0.0.1:8080", "/api/code/controller/attach").as_deref(),
        Some("http://127.0.0.1:8080/api/code/controller/attach")
    );
}

#[test]
fn control_endpoint_percent_encodes_the_new_path() {
    assert_eq!(
        control_endpoint_at("http://127.0.0.1:8080/x?y=1", "/a b", "/c").as_deref(),
        Some("http://127.0.0.1:8080/a%20b/c")
    );
}

#[test]
fn control_endpoint_of_an_unparsable_base_is_none() {
    assert_eq!(control_endpoint("not a url", "/api/code/messages"), None);
}
