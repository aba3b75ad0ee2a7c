use libra::headless::{
    advertised_capabilities, intent_review_restore_skipped, restored_review_needs_metadata,
    restored_review_turn_id, retry_restore_with_fresh_turn, ProjectedInteraction, TrackFailure,
    interaction_resolution, ResolutionSource, intent_review_settlement, pending_intent_review_settlement, phase0_risk_level, tool_call_status, RiskLevel, ToolCallResult, headless_capabilities, headless_tool_call_summary, interaction_metadata_has_intent_spec, intent_review_decision_from_response, interaction_note_from_response,
    request_user_input_question_to_metadata, user_input_response_from_code_ui_request,
    web_turn_mode_for_message, CodeUiInteractionResponse,
    IntentReviewDecision, UserInputOption, UserInputQuestion, WebTurnMode,
};
use libra::object_summary::{JsonDocument, JsonField};
use libra::runtime::{RuntimeTurnExecution, RuntimeWorkerError};

#[test]
fn request_user_input_question_to_metadata_projects_browser_wire_fields() {
    let option = |label: &str, description: &str| UserInputOption {
        label: label.to_string(),
        description: description.to_string(),
    };
    let metadata = request_user_input_question_to_metadata(&UserInputQuestion {
        id: "risk".to_string(),
        header: "Risk".to_string(),
        question: "Pick a profile".to_string(),
        is_other: true,
        is_secret: true,
        options: Some(vec![
            option("Low", "Safer"),
            option("   ", "blank"),
            option("Low", "duplicate"),
            option("High", "Faster"),
        ]),
    });

    assert_eq!(metadata.id, "risk");
    assert_eq!(metadata.header, "Risk");
    assert_eq!(metadata.prompt, "Pick a profile");
    assert_eq!(metadata.kind, "single");
    assert!(metadata.is_other);
    assert!(metadata.is_secret);
    assert_eq!(metadata.options.len(), 2);
    assert_eq!(metadata.options[0].id, "Low");
    assert_eq!(metadata.options[0].label, "Low");
    assert_eq!(metadata.options[0].description.as_deref(), Some("Safer"));
    assert_eq!(metadata.options[1].id, "High");
    assert_eq!(metadata.options[1].label, "High");
    assert_eq!(metadata.options[1].description.as_deref(), Some("Faster"));
}

#[test]
fn question_without_options_is_free_text() {
    let metadata = request_user_input_question_to_metadata(&UserInputQuestion {
        id: "why".to_string(),
        header: "Why".to_string(),
        question: "Explain".to_string(),
        is_other: false,
        is_secret: false,
        options: None,
    });
    assert_eq!(metadata.kind, "text");
    assert!(metadata.options.is_empty());
}

#[test]
fn headless_capabilities_advertise_projected_plan_and_patchset_surfaces() {
    let capabilities = headless_capabilities();

    assert!(capabilities.plan_updates);
    assert!(capabilities.patchsets);
    assert!(capabilities.tool_calls);
    assert!(capabilities.interactive_approvals);
}

fn response(selected: Option<&str>, note: Option<&str>) -> CodeUiInteractionResponse {
    CodeUiInteractionResponse {
        approved: None,
        selected_option: selected.map(str::to_string),
        note: note.map(str::to_string),
        answers: Vec::new(),
        apply_to_future: None,
    }
}

#[test]
fn note_is_trimmed_and_blank_notes_are_dropped() {
    assert_eq!(
        interaction_note_from_response(&response(None, Some("  tighten scope  "))).as_deref(),
        Some("tighten scope")
    );
    assert_eq!(interaction_note_from_response(&response(None, Some("   "))), None);
}

#[test]
fn unknown_intent_review_answer_names_the_selection() {
    match intent_review_decision_from_response(&response(Some("later"), None), "maybe") {
        Err(RuntimeWorkerError::ExecutionFailed(message)) => assert_eq!(
            message,
            "unrecognized IntentSpec review response; expected confirm/modify/cancel (got selected_option=Some(\"later\"))"
        ),
        other => panic!("expected an execution failure, got {other:?}"),
    }
}

#[test]
fn unknown_intent_review_answer_without_a_selection_says_none() {
    match intent_review_decision_from_response(&response(None, None), "maybe") {
        Err(RuntimeWorkerError::ExecutionFailed(message)) => assert_eq!(
            message,
            "unrecognized IntentSpec review response; expected confirm/modify/cancel (got selected_option=None)"
        ),
        other => panic!("expected an execution failure, got {other:?}"),
    }
}

#[test]
fn intent_review_selection_wins_over_raw_text() {
    let confirm = IntentReviewDecision::Confirm.wire_id();
    assert_eq!(
        intent_review_decision_from_response(&response(Some(confirm), None), "garbage").unwrap(),
        IntentReviewDecision::Confirm
    );
}

#[test]
fn plain_messages_route_to_the_plan_workflow() {
    assert_eq!(web_turn_mode_for_message("add a test"), WebTurnMode::PlanPhase0);
    assert_eq!(web_turn_mode_for_message("  /status"), WebTurnMode::ExplicitDirect);
    assert_eq!(web_turn_mode_for_message("   "), WebTurnMode::ExplicitDirect);
}

fn object(fields: &[(&str, JsonField)]) -> JsonDocument {
    JsonDocument::Object(fields.iter().map(|(k, v)| (k.to_string(), v.clone())).collect())
}

#[test]
fn tool_call_summaries_name_the_command_path_or_query() {
    let shell = object(&[("command", JsonField::String("cargo test".to_string()))]);
    assert_eq!(headless_tool_call_summary("shell", &shell), "Run `cargo test`");
    let read = object(&[("path", JsonField::String("src/lib.rs".to_string()))]);
    assert_eq!(headless_tool_call_summary("read_file", &read), "Read src/lib.rs");
    let search = object(&[("query", JsonField::String("verus".to_string()))]);
    assert_eq!(headless_tool_call_summary("web_search", &search), "Search verus");
    assert_eq!(headless_tool_call_summary("shell", &object(&[("command", JsonField::Null)])), "shell");
    assert_eq!(headless_tool_call_summary("update_plan", &JsonDocument::Other(JsonField::Null)), "Update plan");
    assert_eq!(headless_tool_call_summary("apply_patch", &object(&[])), "Apply patch");
    assert_eq!(headless_tool_call_summary("list_dir_entries", &object(&[])), "list dir entries");
}

#[test]
fn review_metadata_carries_a_non_blank_or_structured_intent_spec() {
    assert!(interaction_metadata_has_intent_spec(&object(&[("intentSpec", JsonField::String("{..}".to_string()))])));
    assert!(!interaction_metadata_has_intent_spec(&object(&[("intentSpec", JsonField::String("  ".to_string()))])));
    assert!(interaction_metadata_has_intent_spec(&object(&[("intentSpec", JsonField::Object(0))])));
    assert!(!interaction_metadata_has_intent_spec(&object(&[("other", JsonField::Object(1))])));
    assert!(!interaction_metadata_has_intent_spec(&JsonDocument::Other(JsonField::Bool(true))));
}

#[test]
fn phase0_risk_needs_a_selection_that_agrees_with_the_draft() {
    assert_eq!(phase0_risk_level(Some(RiskLevel::High), None), Ok(RiskLevel::High));
    assert_eq!(phase0_risk_level(Some(RiskLevel::Low), Some(RiskLevel::Low)), Ok(RiskLevel::Low));
    assert_eq!(
        phase0_risk_level(Some(RiskLevel::Low), Some(RiskLevel::High)),
        Err("risk_profile selection (Low) does not match IntentDraft.risk.level (High)".to_string())
    );
    assert_eq!(
        phase0_risk_level(None, Some(RiskLevel::Medium)),
        Err("Phase 0 requires a completed risk_profile selection before IntentSpec review".to_string())
    );
}

#[test]
fn finished_tool_calls_report_completion_or_failure() {
    let ok = ToolCallResult::Output { success: true, text: Some("done".to_string()) };
    assert_eq!(tool_call_status(&ok), ("completed".to_string(), Some("done".to_string())));
    let failed = ToolCallResult::Output { success: false, text: None };
    assert_eq!(tool_call_status(&failed), ("failed".to_string(), None));
    let error = ToolCallResult::Error("boom".to_string());
    assert_eq!(tool_call_status(&error), ("failed".to_string(), Some("boom".to_string())));
}

#[test]
fn intent_review_answers_settle_their_turn() {
    match intent_review_settlement("i-1", "i-1", IntentReviewDecision::Confirm) {
        Ok(RuntimeTurnExecution::Completed { summary }) => {
            assert_eq!(summary, "IntentSpec confirmed; Phase 1 plan generation remains GATE-WEB-PLAN")
        }
        other => panic!("unexpected {other:?}"),
    }
    match intent_review_settlement("i-1", "i-1", IntentReviewDecision::Cancel) {
        Ok(RuntimeTurnExecution::CompletedDiscardQueued { summary }) => assert_eq!(summary, "IntentSpec review cancelled"),
        other => panic!("unexpected {other:?}"),
    }
    match intent_review_settlement("i-1", "i-2", IntentReviewDecision::Modify) {
        Err(RuntimeWorkerError::ExecutionFailed(text)) => assert_eq!(
            text,
            "IntentSpec review response targeted 'i-2' but pending gate is 'i-1'"
        ),
        other => panic!("unexpected {other:?}"),
    }
}

#[test]
fn intent_review_answers_need_a_pending_review() {
    match pending_intent_review_settlement(None, "i-1", IntentReviewDecision::Confirm) {
        Err(RuntimeWorkerError::ExecutionFailed(text)) => {
            assert_eq!(text, "no pending IntentSpec review is registered for this web turn")
        }
        other => panic!("unexpected {other:?}"),
    }
    assert!(matches!(
        pending_intent_review_settlement(Some("i-1"), "i-1", IntentReviewDecision::Modify),
        Ok(RuntimeTurnExecution::CompletedDiscardQueued { .. })
    ));
}

#[test]
fn answered_interactions_record_their_resolution() {
    assert_eq!(interaction_resolution(ResolutionSource::UserInput), "answered");
    assert_eq!(
        interaction_resolution(ResolutionSource::ExecApproval(Some(response(Some("deny"), None)))),
        "denied"
    );
    assert_eq!(
        interaction_resolution(ResolutionSource::ExecApproval(Some(response(Some("abort"), None)))),
        "aborted"
    );
    assert_eq!(
        interaction_resolution(ResolutionSource::ExecApproval(Some(response(Some("maybe"), None)))),
        "approval_resolved"
    );
    assert_eq!(interaction_resolution(ResolutionSource::ExecApproval(None)), "approval_resolved");
    assert_eq!(
        interaction_resolution(ResolutionSource::IntentReview(Some(IntentReviewDecision::Confirm))),
        IntentReviewDecision::Confirm.wire_id()
    );
    assert_eq!(interaction_resolution(ResolutionSource::IntentReview(None)), "intent_review_resolved");
}

#[test]
fn command_idempotency_needs_persistence() {
    let base = headless_capabilities();
    let without = advertised_capabilities(base, false);
    assert!(!without.command_idempotency);
    assert!(without.message_input && without.patchsets && without.structured_questions);
    assert_eq!(advertised_capabilities(base, true), base);
}

#[test]
fn restoring_a_review_reuses_what_the_projection_and_log_hold() {
    assert!(intent_review_restore_skipped(false, false));
    assert!(intent_review_restore_skipped(true, true));
    assert!(!intent_review_restore_skipped(true, false));
    let with_spec = ProjectedInteraction {
        id: "i-1".to_string(),
        intent_review_choice: true,
        pending: true,
        metadata: object(&[("intentSpec", JsonField::Object(3))]),
    };
    let resolved = ProjectedInteraction { pending: false, ..with_spec.clone() };
    assert!(!restored_review_needs_metadata(&vec![with_spec.clone()], "i-1"));
    assert!(restored_review_needs_metadata(&vec![resolved], "i-1"));
    assert!(restored_review_needs_metadata(&vec![with_spec], "i-2"));
    assert_eq!(restored_review_turn_id("turn-7", "abc"), "turn-7");
    assert_eq!(restored_review_turn_id("", "abc"), "intent-review-restore-abc");
    assert!(retry_restore_with_fresh_turn(TrackFailure::IdempotentCommand { ack_ok: true }));
    assert!(!retry_restore_with_fresh_turn(TrackFailure::IdempotentCommand { ack_ok: false }));
    assert!(!retry_restore_with_fresh_turn(TrackFailure::Other));
}

fn question(id: &str) -> UserInputQuestion {
    UserInputQuestion {
        id: id.to_string(),
        header: "Header".to_string(),
        question: "Question?".to_string(),
        is_other: false,
        is_secret: false,
        options: None,
    }
}

fn answers_response(answers: Vec<(&str, Vec<&str>)>) -> CodeUiInteractionResponse {
    CodeUiInteractionResponse {
        approved: None,
        selected_option: None,
        note: None,
        answers: answers
            .into_iter()
            .map(|(k, v)| (k.to_string(), v.into_iter().map(str::to_string).collect()))
            .collect(),
        apply_to_future: None,
    }
}

#[test]
fn user_input_request_with_repeated_question_ids_is_refused() {
    let error = user_input_response_from_code_ui_request(
        &[question("scope"), question("depth"), question("scope")],
        answers_response(vec![("scope", vec!["all"]), ("depth", vec!["1"])]),
    )
    .unwrap_err();
    assert_eq!(error, "User input request contains duplicate question ids and cannot be answered safely");
}

#[test]
fn user_input_request_refusals_come_in_order() {
    assert_eq!(
        user_input_response_from_code_ui_request(&[], answers_response(vec![])).unwrap_err(),
        "User input request contains no questions"
    );
    assert_eq!(
        user_input_response_from_code_ui_request(
            &[question("a"), question("  "), question("a")],
            answers_response(vec![])
        )
        .unwrap_err(),
        "User input request contains a question without a stable id"
    );
}

#[test]
fn user_input_answers_follow_the_questions() {
    let response = user_input_response_from_code_ui_request(
        &[question("scope"), question("depth")],
        answers_response(vec![("depth", vec!["1"]), ("scope", vec!["all"])]),
    )
    .unwrap();
    let ids: Vec<&str> = response.answers.iter().map(|(id, _)| id.as_str()).collect();
    assert_eq!(ids, vec!["scope", "depth"]);
    assert_eq!(response.answers[0].1.answers, vec!["all".to_string()]);
}
