use libra::admission::{
    admission_command_id, admitted_input, in_flight_decision, remember_admitted_input,
    submit_failure_outcome, validate_command_id, AdmissionRefusal, InFlightDecision,
    SubmitOutcome, SubmitRefusal, ADMITTED_COMMAND_INPUT_LIMIT,
};

#[test]
fn blank_messages_are_refused_first() {
    let refusal = admission_command_id("   ", Some("cmd"), true, true, false).unwrap_err();
    assert_eq!(refusal, AdmissionRefusal::EmptyMessage);
    assert_eq!(refusal.message(), "Empty messages are not accepted by libra code");
}

#[test]
fn command_ids_need_durable_storage() {
    assert_eq!(
        admission_command_id("hi", Some("cmd-1"), false, false, false).unwrap_err(),
        AdmissionRefusal::CommandIdNeedsDurableStorage
    );
    assert_eq!(admission_command_id("hi", None, false, false, false).unwrap(), None);
    assert_eq!(
        admission_command_id("hi", Some("  cmd-1 "), false, false, true).unwrap(),
        Some("cmd-1".to_string())
    );
}

#[test]
fn shutdown_and_indeterminate_sessions_refuse_admission() {
    assert_eq!(
        admission_command_id("hi", None, true, false, true).unwrap_err(),
        AdmissionRefusal::ShuttingDown
    );
    assert_eq!(
        admission_command_id("hi", None, false, true, true).unwrap_err(),
        AdmissionRefusal::ReconciliationRequired
    );
}

#[test]
fn malformed_command_ids_are_refused_with_a_reason() {
    assert_eq!(
        validate_command_id("   ").unwrap_err(),
        AdmissionRefusal::InvalidCommandId("commandId must be a non-empty string when provided".to_string())
    );
    assert_eq!(
        validate_command_id(&"x".repeat(513)).unwrap_err(),
        AdmissionRefusal::InvalidCommandId("commandId must be at most 512 characters (got 513)".to_string())
    );
    assert_eq!(
        validate_command_id("a b").unwrap_err(),
        AdmissionRefusal::InvalidCommandId(
            "commandId must not contain whitespace or control characters".to_string()
        )
    );
    assert_eq!(validate_command_id(&"y".repeat(512)).unwrap(), "y".repeat(512));
}

#[test]
fn in_flight_turns_decide_resubmissions() {
    assert_eq!(in_flight_decision(None, "t1", "hi"), InFlightDecision::Admit);
    assert_eq!(in_flight_decision(Some(("t1", "hi")), "t1", "hi"), InFlightDecision::AlreadyAdmitted);
    assert_eq!(in_flight_decision(Some(("t1", "hi")), "t1", "bye"), InFlightDecision::PayloadConflict);
    assert_eq!(in_flight_decision(Some(("t0", "hi")), "t1", "hi"), InFlightDecision::SessionBusy);
}

#[test]
fn queue_refusals_are_answered() {
    assert_eq!(
        submit_failure_outcome(SubmitRefusal::IdempotentAcked, "t1", None, "hi", "x"),
        SubmitOutcome::AlreadyAdmitted
    );
    assert_eq!(
        submit_failure_outcome(
            SubmitRefusal::DuplicateTurn { turn_id: "t1".to_string() },
            "t1",
            Some("hi"),
            "hi",
            "x"
        ),
        SubmitOutcome::AlreadyAdmitted
    );
    assert_eq!(
        submit_failure_outcome(
            SubmitRefusal::DuplicateTurn { turn_id: "t1".to_string() },
            "t1",
            None,
            "hi",
            "x"
        ),
        SubmitOutcome::PayloadConflict
    );
    let terminal = submit_failure_outcome(
        SubmitRefusal::IdempotentTerminal { turn_id: "t1".to_string(), status: "completed".to_string() },
        "t1",
        None,
        "hi",
        "x",
    );
    match terminal {
        SubmitOutcome::Refused(refusal) => assert_eq!(
            refusal.message(),
            "commandId 't1' already finished with state completed; allocate a new commandId to retry"
        ),
        other => panic!("expected a refusal, got {other:?}"),
    }
    match submit_failure_outcome(SubmitRefusal::Other { detail: "queue closed".to_string() }, "t1", None, "hi", "x") {
        SubmitOutcome::Refused(refusal) => assert_eq!(
            refusal.message(),
            "Unable to admit the browser turn to the AgentRuntime queue; no turn was started: queue closed"
        ),
        other => panic!("expected a refusal, got {other:?}"),
    }
    assert_eq!(
        submit_failure_outcome(SubmitRefusal::ReconciliationRequired, "t1", None, "hi", "x"),
        SubmitOutcome::RuntimeError
    );
}

#[test]
fn admitted_inputs_are_bounded_and_keep_the_newest_command() {
    let mut admitted: Vec<(String, String)> = Vec::new();
    for n in 0..70 {
        remember_admitted_input(&mut admitted, &format!("cmd-{n:03}"), &format!("text {n}"));
    }
    assert_eq!(admitted.len(), ADMITTED_COMMAND_INPUT_LIMIT);
    assert_eq!(admitted[0].0, "cmd-006");
    assert!(admitted.windows(2).all(|w| w[0].0 < w[1].0));
    assert_eq!(admitted_input(&admitted, "cmd-069"), Some("text 69"));
    assert_eq!(admitted_input(&admitted, "cmd-000"), None);

    // A new command that sorts first is kept, even over the limit.
    remember_admitted_input(&mut admitted, "a-first", "early");
    assert_eq!(admitted_input(&admitted, "a-first"), Some("early"));
    assert_eq!(admitted.len(), ADMITTED_COMMAND_INPUT_LIMIT + 1);
}

#[test]
fn readmitting_a_command_replaces_its_input() {
    let mut admitted: Vec<(String, String)> = Vec::new();
    remember_admitted_input(&mut admitted, "b", "one");
    remember_admitted_input(&mut admitted, "a", "two");
    remember_admitted_input(&mut admitted, "b", "three");
    assert_eq!(
        admitted,
        vec![("a".to_string(), "two".to_string()), ("b".to_string(), "three".to_string())]
    );
}
