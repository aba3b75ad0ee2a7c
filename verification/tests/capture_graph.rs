use libra::capture_graph::{
    assemble_indexed_turns, graph_store_error, group_revisions, safe_display,
    session_unknown_error, validate_subagent_links, validate_turn_checkpoints, CheckpointStructure,
    ClaimRow, RevisionOutput, RevisionRow, SubagentNodeOutput,
};

fn revision(revision: i64, checkpoint: &str, completeness: &str, channel: &str) -> RevisionOutput {
    RevisionOutput {
        revision,
        completeness: completeness.to_string(),
        checkpoint_id: checkpoint.to_string(),
        source_channel: channel.to_string(),
        created_at: revision * 10,
    }
}

fn row(key: &str, version: i64, rev: RevisionOutput) -> RevisionRow {
    RevisionRow { logical_turn_key: key.to_string(), coverage_schema_version: version, revision: rev }
}

fn claim(key: &str, state: &str, revision: i64, checkpoint: &str, completeness: &str, channel: &str) -> ClaimRow {
    ClaimRow {
        logical_turn_key: key.to_string(),
        coverage_schema_version: 1,
        state: state.to_string(),
        completeness: completeness.to_string(),
        revision,
        checkpoint_id: checkpoint.to_string(),
        source_channel: channel.to_string(),
    }
}

fn checkpoints(ids: &[&str]) -> Vec<CheckpointStructure> {
    ids.iter()
        .enumerate()
        .map(|(i, id)| CheckpointStructure { checkpoint_id: id.to_string(), created_at: i as i64 })
        .collect()
}

#[test]
fn committed_claims_become_indexed_turns() {
    let rows = vec![
        row("turn-a", 1, revision(1, "cp-1", "complete", "hook")),
        row("turn-b", 1, revision(1, "cp-2", "incomplete", "hook")),
        row("turn-a", 1, revision(2, "cp-3", "complete", "hook")),
    ];
    let groups = group_revisions(&rows);
    assert_eq!(groups.len(), 2);
    let claims = vec![
        claim("turn-a", "catalog_committed", 2, "cp-3", "complete", "hook"),
        claim("reserved", "reserved", 1, "cp-9", "complete", "hook"),
        claim("turn-b", "reserved", 1, "cp-2", "complete", "import"),
    ];
    let turns = assemble_indexed_turns(&claims, &groups).expect("consistent catalog");
    assert_eq!(turns.len(), 2);
    assert_eq!(turns[0].logical_turn_key, "turn-a");
    assert_eq!(turns[0].ordinal, 0);
    assert_eq!(turns[0].coverage_state, "indexed");
    assert_eq!(turns[0].current_revision, Some(2));
    assert_eq!(turns[0].revisions.len(), 2);
    assert_eq!(turns[1].logical_turn_key, "turn-b");
    assert_eq!(turns[1].ordinal, 1);
    assert_eq!(turns[1].completeness.as_deref(), Some("incomplete"));
    assert_eq!(turns[1].source_channel.as_deref(), Some("hook"));
}

#[test]
fn missing_current_revision_is_an_inconsistency() {
    let groups = group_revisions(&vec![row("turn-a", 1, revision(1, "cp-1", "complete", "hook"))]);
    let claims = vec![claim("turn-a", "catalog_committed", 2, "cp-1", "complete", "hook")];
    let error = assemble_indexed_turns(&claims, &groups).unwrap_err();
    assert_eq!(error.message, "failed to validate the current turn against revision history");
    assert_eq!(error.hint, "run `libra agent doctor` to inspect the capture catalog.");
}

#[test]
fn checkpoint_mismatch_is_an_inconsistency() {
    let groups = group_revisions(&vec![row("turn-a", 1, revision(1, "cp-1", "complete", "hook"))]);
    let claims = vec![claim("turn-a", "reserved", 1, "cp-2", "complete", "hook")];
    assert_eq!(
        assemble_indexed_turns(&claims, &groups).unwrap_err().message,
        "failed to validate the current turn checkpoint against its revision"
    );
}

#[test]
fn committed_metadata_mismatch_is_an_inconsistency() {
    let groups = group_revisions(&vec![row("turn-a", 1, revision(1, "cp-1", "complete", "hook"))]);
    let claims = vec![claim("turn-a", "conflicted", 1, "cp-1", "incomplete", "hook")];
    assert_eq!(
        assemble_indexed_turns(&claims, &groups).unwrap_err().message,
        "failed to validate current turn metadata against its revision"
    );
}

#[test]
fn turns_and_links_must_stay_inside_the_session() {
    let groups = group_revisions(&vec![row("turn-a", 1, revision(1, "cp-1", "complete", "hook"))]);
    let claims = vec![claim("turn-a", "catalog_committed", 1, "cp-1", "complete", "hook")];
    let turns = assemble_indexed_turns(&claims, &groups).unwrap();
    assert!(validate_turn_checkpoints(&turns, &checkpoints(&["cp-1"])).is_ok());
    assert_eq!(
        validate_turn_checkpoints(&turns, &checkpoints(&["cp-2"])).unwrap_err().message,
        "failed to validate turn checkpoints within the captured session"
    );

    let node = |state: &str, boundary: Option<&str>| SubagentNodeOutput {
        checkpoint_id: "cp-1".to_string(),
        link_state: state.to_string(),
        boundary_checkpoint_id: boundary.map(str::to_string),
        created_at: 1,
    };
    let known = checkpoints(&["cp-1", "cp-2"]);
    assert!(validate_subagent_links(&vec![node("resolved", Some("cp-2"))], &known).is_ok());
    assert!(validate_subagent_links(&vec![node("dangling", None)], &known).is_err());
    assert!(validate_subagent_links(&vec![node("unresolved", Some("cp-9"))], &known).is_err());
}

#[test]
fn safe_display_drops_controls_and_caps_length() {
    assert_eq!(safe_display("ses\u{1b}[2Jsion"), "ses[2Jsion");
    let long = "x".repeat(200);
    let shown = safe_display(&long);
    assert_eq!(shown.chars().count(), 163);
    assert!(shown.ends_with("..."));
    assert_eq!(safe_display(&"y".repeat(160)), "y".repeat(160));
}

#[test]
fn error_messages_name_the_failure() {
    assert_eq!(graph_store_error("read subagent capture links").message, "failed to read subagent capture links");
    assert_eq!(
        session_unknown_error("abc").message,
        "captured agent session 'abc' is unknown"
    );
}
