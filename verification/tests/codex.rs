use libra::codex::{
    normalize_codex_notification, run_status_for_turn_completed, AgentEventKind,
    InteractionState, JsonField, NotificationParams, RunStatus, CODEX_PROVIDER,
};

fn params() -> NotificationParams {
    NotificationParams {
        error: false,
        status: JsonField::Absent,
        turn_status: JsonField::Absent,
        request_id: JsonField::Absent,
        request_id_snake: JsonField::Absent,
        id: JsonField::Absent,
        item_type: JsonField::Absent,
    }
}

fn with_status(status: &str) -> NotificationParams {
    NotificationParams {
        status: JsonField::Text(status.to_string()),
        ..params()
    }
}

#[test]
fn unknown_method_uses_diagnosable_fallback() {
    let envelope = normalize_codex_notification("codex/future/brandNew", &params());
    assert!(envelope.used_fallback);
    assert_eq!(envelope.classification, "unknown");
    match envelope.primary_kind() {
        Some(AgentEventKind::ProviderNotification {
            provider,
            method,
            classification,
            detail,
        }) => {
            assert_eq!(provider, CODEX_PROVIDER);
            assert_eq!(method, "codex/future/brandNew");
            assert_eq!(classification, "unknown");
            assert!(detail.contains("unrecognized"));
        }
        other => panic!("expected ProviderNotification fallback, got {other:?}"),
    }
}

#[test]
fn turn_and_approval_map_to_first_class_kinds() {
    let started = normalize_codex_notification("turn/started", &params());
    assert!(matches!(started.primary_kind(), Some(AgentEventKind::TurnStarted)));

    let completed = normalize_codex_notification("turn/completed", &with_status("completed"));
    assert!(matches!(
        completed.primary_kind(),
        Some(AgentEventKind::TurnCompleted { .. })
    ));

    let failed = normalize_codex_notification("turn/completed", &with_status("failed"));
    assert!(matches!(failed.primary_kind(), Some(AgentEventKind::TurnFailed { .. })));

    let approval = normalize_codex_notification(
        "item/commandExecution/requestApproval",
        &NotificationParams {
            request_id: JsonField::Text("req-1".to_string()),
            ..params()
        },
    );
    match approval.primary_kind() {
        Some(AgentEventKind::InteractionRequested {
            state: InteractionState::AwaitingToolApproval {
                interaction_id,
                tool_name,
            },
        }) => {
            assert_eq!(interaction_id, "req-1");
            assert_eq!(tool_name, "command_execution");
        }
        other => panic!("expected InteractionRequested, got {other:?}"),
    }
}

#[test]
fn turn_completed_terminal_statuses_map_to_persisted_run_status() {
    assert_eq!(run_status_for_turn_completed(&with_status("failed")), RunStatus::Failed);
    assert_eq!(run_status_for_turn_completed(&with_status("cancelled")), RunStatus::Cancelled);
    assert_eq!(run_status_for_turn_completed(&with_status("completed")), RunStatus::Completed);
    assert_eq!(
        run_status_for_turn_completed(&NotificationParams { error: true, ..params() }),
        RunStatus::Failed
    );
    assert_eq!(
        run_status_for_turn_completed(&with_status("interrupted")),
        RunStatus::Cancelled
    );
}

#[test]
fn envelope_carries_one_kind_and_the_raw_method() {
    let envelope = normalize_codex_notification("turn/started", &params());
    assert_eq!(envelope.method, "turn/started");
    assert_eq!(envelope.kinds().len(), 1);
    assert!(!envelope.used_fallback);
}
