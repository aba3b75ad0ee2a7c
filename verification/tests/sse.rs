use libra::sse::{
    durable_workflow_tail_sequence, parse_code_events_cursor, parse_code_events_wire_version,
    CodeEventsQuery, CodeUiSseWireVersion, replay_after_decision, replay_gap_message, ReplayDecision, ReplayRead};

fn query(wire: Option<&str>) -> CodeEventsQuery {
    CodeEventsQuery {
        wire: wire.map(str::to_string),
        cursor: None,
    }
}

#[test]
fn parse_wire_defaults_to_v1_when_unspecified() {
    let query = CodeEventsQuery::default();
    assert_eq!(
        parse_code_events_wire_version(&query, &[]).unwrap(),
        CodeUiSseWireVersion::V1
    );
}

#[test]
fn parse_wire_accepts_explicit_v1_and_v2() {
    for (raw, expected) in [
        ("1", CodeUiSseWireVersion::V1),
        ("v1", CodeUiSseWireVersion::V1),
        ("2", CodeUiSseWireVersion::V2),
        ("V2", CodeUiSseWireVersion::V2),
    ] {
        assert_eq!(
            parse_code_events_wire_version(&query(Some(raw)), &[]).unwrap(),
            expected
        );
    }
}

#[test]
fn parse_wire_rejects_illegal_values() {
    assert!(parse_code_events_wire_version(&query(Some("3")), &[]).is_err());
}

#[test]
fn query_wire_wins_over_accept_header() {
    let accept = vec!["text/event-stream;libra-wire=2".to_string()];
    assert_eq!(
        parse_code_events_wire_version(&query(Some("1")), &accept).unwrap(),
        CodeUiSseWireVersion::V1
    );
}

#[test]
fn accept_header_selects_v2_when_query_omitted() {
    let accept = vec!["text/event-stream; libra-wire=2".to_string()];
    assert_eq!(
        parse_code_events_wire_version(&CodeEventsQuery::default(), &accept).unwrap(),
        CodeUiSseWireVersion::V2
    );
}

#[test]
fn accept_header_ignores_prefix_lookalike_media_types() {
    let accept = vec!["text/event-streaming;libra-wire=2".to_string()];
    assert_eq!(
        parse_code_events_wire_version(&CodeEventsQuery::default(), &accept).unwrap(),
        CodeUiSseWireVersion::V1
    );
}

#[test]
fn cursor_parses_decimal_sequences() {
    let q = CodeEventsQuery {
        wire: Some("2".to_string()),
        cursor: Some("17".to_string()),
    };
    assert_eq!(parse_code_events_cursor(&q), Ok(17));
}

#[test]
fn tail_sequence_is_one_below_the_next() {
    assert_eq!(durable_workflow_tail_sequence(5), 4);
    assert_eq!(durable_workflow_tail_sequence(0), 0);
}

#[test]
fn replay_after_cursor_refuses_gaps_and_tracks_the_tail() {
    let gap = ReplayRead::Events { first_gap: Some((4, 9)), last_sequence: Some(12) };
    assert_eq!(replay_after_decision(gap, 3, 10), ReplayDecision::Gap { after: 4, before: 9 });
    let events = ReplayRead::Events { first_gap: None, last_sequence: Some(12) };
    assert_eq!(replay_after_decision(events, 3, 10), ReplayDecision::Send { tail: 12 });
    let older = ReplayRead::Events { first_gap: None, last_sequence: Some(7) };
    assert_eq!(replay_after_decision(older, 3, 10), ReplayDecision::Send { tail: 10 });
    let none = ReplayRead::Events { first_gap: None, last_sequence: None };
    assert_eq!(replay_after_decision(none, 10, 10), ReplayDecision::Send { tail: 10 });
}

#[test]
fn unprovable_tail_is_idle_only_at_the_durable_tip() {
    assert_eq!(replay_after_decision(ReplayRead::UnprovableTail, 10, 10), ReplayDecision::Idle);
    assert_eq!(replay_after_decision(ReplayRead::UnprovableTail, 0, 0), ReplayDecision::Fail);
    assert_eq!(replay_after_decision(ReplayRead::UnprovableTail, 9, 10), ReplayDecision::Fail);
    assert_eq!(replay_after_decision(ReplayRead::Failed, 10, 10), ReplayDecision::Fail);
    assert_eq!(
        replay_gap_message(4, 9),
        "Code UI wire v2 cannot resume across missing workflow events between sequences 4 and 9"
    );
}
