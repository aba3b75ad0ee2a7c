use libra::codex::{CodeUiInteractionStatus, CodeUiSessionStatus};
use libra::overlay::{
    count_pending_interactions, graph_overlay_bootstrap_status, graph_overlay_status,
    overlay_candidate_failure, select_newest_overlay_session, session_matches_thread_for_graph,
    OverlayRank, OverlaySession,
};

fn session(id: &str, thread_id: Option<&str>) -> OverlaySession {
    OverlaySession {
        id: id.to_string(),
        thread_id: thread_id.map(str::to_string),
        canonical_thread_id: None,
        thread_id_camel: None,
    }
}

fn rank(modified_ns: u128, updated_at_ms: i64, id: &str) -> OverlayRank {
    OverlayRank { modified_ns, updated_at_ms, session_id: id.to_string() }
}

#[test]
fn sessions_match_by_id_or_recorded_thread() {
    let thread = "aaaaaaaa-aaaa-4aaa-8aaa-aaaaaaaaaaaa";
    assert!(session_matches_thread_for_graph(&session(thread, None), thread));
    assert!(session_matches_thread_for_graph(&session("s1", Some(thread)), thread));
    let camel = OverlaySession { thread_id_camel: Some(thread.to_string()), ..session("s2", None) };
    assert!(session_matches_thread_for_graph(&camel, thread));
    assert!(!session_matches_thread_for_graph(&session("s3", Some("other")), thread));
}

#[test]
fn graph_overlay_selects_newest_matching_session() {
    let ranks = vec![rank(100, 5, "stale"), rank(120, 1, "fresh"), rank(120, 1, "a-older-id")];
    assert_eq!(select_newest_overlay_session(&ranks), Some(1));
    assert_eq!(select_newest_overlay_session(&Vec::new()), None);
    let tie_on_time = vec![rank(7, 7, "b"), rank(7, 7, "c"), rank(7, 7, "a")];
    assert_eq!(select_newest_overlay_session(&tie_on_time), Some(1));
}

#[test]
fn missing_canonical_candidate_is_skipped_but_others_fail_closed() {
    assert_eq!(overlay_candidate_failure("t1", "t1", true), None);
    assert_eq!(
        overlay_candidate_failure("t1", "t1", false).as_deref(),
        Some("failed to load Code session 't1' while building graph overlay for thread 't1'")
    );
    assert_eq!(
        overlay_candidate_failure("s9", "t1", true).as_deref(),
        Some("failed to load indexed Code session 's9' while building graph overlay for thread 't1'")
    );
}

#[test]
fn bootstrap_status_keeps_activity_and_surfaces_pending_interactions() {
    assert_eq!(
        graph_overlay_bootstrap_status(CodeUiSessionStatus::Completed, false),
        CodeUiSessionStatus::Idle
    );
    assert_eq!(
        graph_overlay_bootstrap_status(CodeUiSessionStatus::Completed, true),
        CodeUiSessionStatus::AwaitingInteraction
    );
    assert_eq!(
        graph_overlay_bootstrap_status(CodeUiSessionStatus::Thinking, false),
        CodeUiSessionStatus::Thinking
    );
    assert_eq!(
        graph_overlay_bootstrap_status(CodeUiSessionStatus::IndeterminateSideEffect, true),
        CodeUiSessionStatus::IndeterminateSideEffect
    );
}

#[test]
fn graph_overlay_emits_indeterminate_status_for_unresolved_mutations() {
    assert_eq!(
        graph_overlay_status(CodeUiSessionStatus::Idle, true),
        CodeUiSessionStatus::IndeterminateSideEffect
    );
    assert_eq!(graph_overlay_status(CodeUiSessionStatus::Idle, false), CodeUiSessionStatus::Idle);
}

#[test]
fn pending_interactions_are_counted() {
    let statuses = vec![
        CodeUiInteractionStatus::Pending,
        CodeUiInteractionStatus::Resolved,
        CodeUiInteractionStatus::Pending,
    ];
    assert_eq!(count_pending_interactions(&statuses), 2);
}
