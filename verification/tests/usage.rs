use libra::usage::{
    bool_to_i64_value, sum_present, u64_to_i64_value, usage_status, validate_idempotency_context,
    UsageContext, UsageStatus,
};

fn context() -> UsageContext {
    UsageContext {
        repo_id: Some("repo-1".to_string()),
        session_id: Some("s1".to_string()),
        thread_id: Some("t1".to_string()),
        agent_run_id: Some("r1".to_string()),
        run_id: Some("run1".to_string()),
        turn_id: Some("turn1".to_string()),
        event_id: Some("event1".to_string()),
        provider: "openai".to_string(),
        model: "gpt-4".to_string(),
        request_kind: "chat".to_string(),
        intent: Some("fix".to_string()),
        agent_name: Some("coder".to_string()),
    }
}

#[test]
fn u64_to_i64_value_clamps_overflow_to_i64_max() {
    assert_eq!(u64_to_i64_value(42), 42);
    assert_eq!(u64_to_i64_value(0), 0);
    assert_eq!(u64_to_i64_value(i64::MAX as u64), i64::MAX);
    assert_eq!(u64_to_i64_value(u64::MAX), i64::MAX);
}

#[test]
fn bool_to_i64_value_maps_true_one_false_zero() {
    assert_eq!(bool_to_i64_value(true), 1);
    assert_eq!(bool_to_i64_value(false), 0);
}

#[test]
fn usage_context_derives_clone_and_eq() {
    let ctx = context();
    let cloned = ctx.clone();
    assert_eq!(cloned, ctx);
    let mut anon = ctx.clone();
    anon.agent_name = None;
    assert_ne!(anon, ctx);
    let mut empty = ctx.clone();
    empty.agent_name = Some(String::new());
    assert_ne!(empty, ctx);
    assert_ne!(empty.agent_name, anon.agent_name);
}

#[test]
fn usage_context_binds_durable_runtime_turn_ids() {
    let context = UsageContext {
        repo_id: Some("repo-1".to_string()),
        session_id: Some("session-1".to_string()),
        thread_id: None,
        agent_run_id: None,
        run_id: None,
        turn_id: None,
        event_id: None,
        provider: "openai".to_string(),
        model: "gpt-4".to_string(),
        request_kind: "completion".to_string(),
        intent: None,
        agent_name: None,
    };

    let bound = context.for_runtime_turn("tui-local-123");
    assert_eq!(bound.turn_id.as_deref(), Some("tui-local-123"));
    assert_eq!(bound.event_id.as_deref(), Some("runtime-turn:tui-local-123"));
    assert_eq!(context.turn_id, None);
    assert_eq!(context.event_id, None);
}

#[test]
fn event_id_requires_non_empty_session_id() {
    let context = UsageContext {
        repo_id: None,
        session_id: None,
        thread_id: None,
        agent_run_id: None,
        run_id: None,
        turn_id: None,
        event_id: Some("event-1".to_string()),
        provider: "openai".to_string(),
        model: "gpt-4".to_string(),
        request_kind: "completion".to_string(),
        intent: None,
        agent_name: None,
    };

    assert!(
        validate_idempotency_context(&context)
            .expect_err("event ids require a session")
            .contains("usage event_id requires a non-empty session_id"),
        "the recorder must reject event IDs without an idempotency scope"
    );
}

#[test]
fn event_id_with_a_session_is_accepted() {
    assert!(validate_idempotency_context(&context()).is_ok());
    let mut blank = context();
    blank.session_id = Some("   ".to_string());
    assert!(validate_idempotency_context(&blank).is_err());
}

#[test]
fn cancellation_event_id_names_the_model_turn() {
    let bound = context().for_runtime_turn_cancellation("turn-9", 3);
    assert_eq!(bound.turn_id.as_deref(), Some("turn-9"));
    assert_eq!(bound.event_id.as_deref(), Some("runtime-turn:turn-9:model-turn:3"));
    assert_eq!(bound.session_id.as_deref(), Some("s1"));
}

#[test]
fn usage_status_classifies_known_partial_and_unknown() {
    assert_eq!(usage_status(0, 0), UsageStatus::Unknown);
    assert_eq!(usage_status(4, 4), UsageStatus::Unknown);
    assert_eq!(usage_status(4, 0), UsageStatus::Known);
    assert_eq!(usage_status(4, 1), UsageStatus::Partial);
    assert_eq!(UsageStatus::Partial.as_str(), "partial");
}

#[test]
fn sum_present_skips_missing_values() {
    assert_eq!(sum_present(&[Some(2), None, Some(5)]), Some(7));
    assert_eq!(sum_present(&[None, None]), None);
}
