use libra::codex::CodeUiSessionStatus;
use libra::headless::WebTurnMode;
use libra::headless::ProjectedInteraction;
use libra::object_summary::{JsonDocument, JsonField};
use libra::web_turn::{
    admission_for_turn, cancel_precheck, cancel_reply, cancel_settlement, headless_turn_finish,
    is_intent_review_cancel, review_cancel_not_saved, turn_result, CancelRefusal, CancelReply,
    CancelSettlement, TurnFinish, TurnLoopOutcome, TurnResult,
};

#[test]
fn uncertain_runtime_overrides_the_loop_result() {
    match headless_turn_finish(true, true, WebTurnMode::PlanPhase0, TurnLoopOutcome::Cancelled) {
        TurnFinish::Reconcile { reason } => assert!(reason.starts_with("runtime_shutdown_timeout: ")),
        other => panic!("expected reconciliation, got {other:?}"),
    }
    match headless_turn_finish(false, true, WebTurnMode::PlanPhase0, TurnLoopOutcome::Cancelled) {
        TurnFinish::Reconcile { reason } => assert_eq!(
            reason,
            "interaction_persistence_failure: interaction persistence failed before the active turn reached a determinate result; session requires reconciliation"
        ),
        other => panic!("expected reconciliation, got {other:?}"),
    }
}

#[test]
fn phase0_drafts_park_for_review() {
    assert_eq!(
        headless_turn_finish(false, false, WebTurnMode::PlanPhase0, TurnLoopOutcome::Succeeded { intent_draft: true }),
        TurnFinish::ParkIntentReview
    );
    assert_eq!(
        headless_turn_finish(false, false, WebTurnMode::ExplicitDirect, TurnLoopOutcome::Succeeded { intent_draft: true }),
        TurnFinish::Completed { summary: "web explicit direct turn completed".to_string() }
    );
    assert_eq!(
        headless_turn_finish(false, false, WebTurnMode::PlanPhase0, TurnLoopOutcome::Succeeded { intent_draft: false }),
        TurnFinish::Completed { summary: "web plan phase-0 turn completed".to_string() }
    );
}

#[test]
fn failures_carry_the_completion_error() {
    assert_eq!(
        headless_turn_finish(false, false, WebTurnMode::ExplicitDirect, TurnLoopOutcome::Failed { error: "boom".to_string() }),
        TurnFinish::Failed { message: "Agent turn failed: boom".to_string() }
    );
    assert_eq!(
        headless_turn_finish(false, false, WebTurnMode::ExplicitDirect, TurnLoopOutcome::Cancelled),
        TurnFinish::Cancelled
    );
}

#[test]
fn cancellation_settles_by_worker_state() {
    assert_eq!(cancel_settlement(true, true, CodeUiSessionStatus::Thinking), CancelSettlement::Cooperative);
    assert_eq!(
        cancel_settlement(false, true, CodeUiSessionStatus::AwaitingInteraction),
        CancelSettlement::Release { status: CodeUiSessionStatus::Idle }
    );
    assert_eq!(
        cancel_settlement(false, true, CodeUiSessionStatus::IndeterminateSideEffect),
        CancelSettlement::Release { status: CodeUiSessionStatus::IndeterminateSideEffect }
    );
    assert_eq!(cancel_settlement(false, false, CodeUiSessionStatus::Thinking), CancelSettlement::AwaitWorker);
}

#[test]
fn a_turn_runs_only_while_its_admission_holds() {
    assert_eq!(admission_for_turn(Some("turn-1"), "turn-1"), Ok(()));
    let released = "browser turn admission was released before runtime execution began".to_string();
    assert_eq!(admission_for_turn(None, "turn-1"), Err(released.clone()));
    assert_eq!(admission_for_turn(Some("turn-2"), "turn-1"), Err(released));
}

#[test]
fn an_unsaved_completion_needs_reconciliation() {
    let done = TurnFinish::Completed { summary: "web explicit direct turn completed".to_string() };
    assert_eq!(
        turn_result(done.clone(), false, true),
        (TurnResult::Completed { summary: "web explicit direct turn completed".to_string() }, true)
    );
    assert_eq!(
        turn_result(done, false, false),
        (
            TurnResult::Indeterminate {
                reason: "failed to persist headless web assistant message after a successful mutating turn; session requires reconciliation".to_string()
            },
            true
        )
    );
}

#[test]
fn a_parked_review_keeps_the_admission_and_a_failed_park_releases_it() {
    assert_eq!(turn_result(TurnFinish::ParkIntentReview, true, true), (TurnResult::WaitingForReview, false));
    assert_eq!(turn_result(TurnFinish::ParkIntentReview, false, true), (TurnResult::ParkFailed, true));
    assert_eq!(turn_result(TurnFinish::Cancelled, false, false), (TurnResult::Cancelled, true));
}

#[test]
fn cancelling_with_nothing_running_is_a_busy_conflict() {
    assert_eq!(cancel_precheck(false), Err(CancelRefusal::NothingRunning));
    assert_eq!(cancel_precheck(true), Ok(()));
    let (code, message) = CancelRefusal::busy_conflict();
    assert_eq!(code, "SESSION_BUSY");
    assert_eq!(message, "No turn is currently running; there is nothing to cancel");
}

#[test]
fn runtime_cancel_answers_are_mapped() {
    assert_eq!(cancel_reply(CancelReply::Accepted), Ok(()));
    assert_eq!(cancel_reply(CancelReply::UnknownTurn), Ok(()));
    assert_eq!(cancel_reply(CancelReply::ReconciliationRequired), Err(CancelRefusal::ReconciliationRequired));
    assert_eq!(
        cancel_reply(CancelReply::Failed { message: "worker gone".to_string() }),
        Err(CancelRefusal::RuntimeFailed {
            message: "Unable to request cancellation from the AgentRuntime: worker gone".to_string()
        })
    );
}

#[test]
fn an_unsaved_review_cancel_leaves_the_session_indeterminate() {
    let review = ProjectedInteraction {
        id: "review-1".to_string(),
        intent_review_choice: true,
        pending: true,
        metadata: JsonDocument::Other(JsonField::Null),
    };
    let other = ProjectedInteraction {
        id: "approval-1".to_string(),
        intent_review_choice: false,
        pending: true,
        metadata: JsonDocument::Other(JsonField::Null),
    };
    let all = vec![other, review];
    assert!(is_intent_review_cancel(&all, Some("review-1")));
    assert!(!is_intent_review_cancel(&all, Some("approval-1")));
    assert!(!is_intent_review_cancel(&all, None));
    assert_eq!(
        review_cancel_not_saved("disk full"),
        (
            CodeUiSessionStatus::IndeterminateSideEffect,
            CancelRefusal::ReviewCancelNotSaved {
                message: "Unable to persist IntentSpec review cancellation; session requires reconciliation: disk full".to_string()
            }
        )
    );
}
