use libra::bridge::{is_mutation, mutation_route, params_digest, replay_digest_conflict, to_lower_hex, MutationRoute, link_conflict_refusal, require_param_str, session_scope_refusal, build_provenance, ProvenanceRecord};
use libra::object_summary::{JsonDocument, JsonField};

#[test]
fn mutation_methods_are_recognized() {
    for method in ["checkpoint.create", "checkpoint.restore", "commit.create", "review.run"] {
        assert!(is_mutation(method));
    }
    assert!(!is_mutation("session.list"));
}

#[test]
fn vcs_mutations_are_refused_as_not_wired() {
    assert_eq!(mutation_route("checkpoint.create"), MutationRoute::CheckpointCreate);
    assert_eq!(mutation_route("session.list"), MutationRoute::NotMutation);
    assert_eq!(
        mutation_route("commit.create"),
        MutationRoute::NotWiredVcs {
            message: "commit.create passed admission/authorization but is not wired to the VCS service in this build".to_string()
        }
    );
}

#[test]
fn params_digest_is_the_sha256_of_the_json_text() {
    assert_eq!(
        params_digest(None),
        "44136fa355b3678a1146ad16f7e8649e94fb4fc21fe77e8310c060f61caaff8a"
    );
    assert_eq!(params_digest(Some("{}")), params_digest(None));
    assert_eq!(
        params_digest(Some("")),
        "e3b0c44298fc1c149afbf4c8996fb92427ae41e4649b934ca495991b7852b855"
    );
}

#[test]
fn hex_is_lowercase_two_digits_per_byte() {
    assert_eq!(to_lower_hex(&vec![10, 20, 30, 255, 0]), "0a141eff00");
}

#[test]
fn drifted_replays_are_refused() {
    assert_eq!(replay_digest_conflict("op-1", true, Some("aa"), "bb"), None);
    assert_eq!(replay_digest_conflict("op-1", false, Some("aa"), "aa"), None);
    assert_eq!(
        replay_digest_conflict("op-1", false, Some("aa"), "bb").as_deref(),
        Some("operation 'op-1' was already recorded with a different payload digest; refusing replay with diverging params")
    );
}

#[test]
fn mutations_require_a_string_operation_id() {
    let params = Some(JsonDocument::Object(vec![
        ("operation_id".to_string(), JsonField::String("op-1".to_string())),
        ("count".to_string(), JsonField::Number("3".to_string())),
    ]));
    assert_eq!(require_param_str(&params, "operation_id"), Ok("op-1".to_string()));
    assert_eq!(
        require_param_str(&params, "count"),
        Err("mutation requires string param 'count'".to_string())
    );
    assert_eq!(
        require_param_str(&None, "session_id"),
        Err("mutation requires string param 'session_id'".to_string())
    );
}

#[test]
fn sessions_outside_the_repository_are_refused() {
    assert_eq!(session_scope_refusal("s1", Some("repo-a"), "repo-a"), None);
    assert_eq!(
        session_scope_refusal("s1", None, "repo-a").as_deref(),
        Some("bridge session 's1' is not open in this repository; open it first")
    );
    assert_eq!(
        session_scope_refusal("s1", Some("repo-b"), "repo-a").as_deref(),
        Some("bridge session 's1' belongs to repository 'repo-b', not 'repo-a'")
    );
    assert_eq!(
        link_conflict_refusal("evidence", "e1", "op-old", "op-new"),
        "provenance association evidence:e1 already points at 'op-old', not 'op-new'; refusing"
    );
}

#[test]
fn provenance_takes_each_field_from_its_argument() {
    let evidence = vec!["ev-1".to_string(), "ev-2".to_string()];
    let record = build_provenance(
        "repo-1",
        "wt-1",
        "sess-1",
        "op-1",
        Some("deepseek-harness"),
        None,
        Some("parent-1"),
        None,
        Some(("openai", "gpt")),
        &evidence,
    );
    assert_eq!(
        record,
        ProvenanceRecord {
            operation_id: "op-1".to_string(),
            session_id: "sess-1".to_string(),
            repository_id: "repo-1".to_string(),
            worktree_id: "wt-1".to_string(),
            workspace_id: None,
            parent_session_id: Some("parent-1".to_string()),
            actor_kind: Some("deepseek-harness".to_string()),
            actor_id: None,
            provider_kind: Some("openai".to_string()),
            provider_model: Some("gpt".to_string()),
            evidence_ids: evidence.clone(),
        }
    );
    let unknown = build_provenance("r", "w", "s", "o", None, None, None, None, None, &Vec::new());
    assert_eq!((unknown.provider_kind, unknown.provider_model), (None, None));
}
