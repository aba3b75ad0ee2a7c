use libra::scheduler::{
    apply_scheduler_mutation, apply_scheduler_mutation_at, apply_scheduler_mutation_with_reading,
    millis_of_reading, ApplySchedulerMutationError, DagStage,
    MaterializedProjection, MetaValue, Phase0Bundle, PlanWriteOutcome, ProjectionStaleReason,
    ProjectionVersions, SchedulerMetadata, SchedulerMutation, SchedulerState, SelectedPlanSet,
};

const THREAD: u128 = 0x1111_0000_0000_4000_8000_0000_0000_0001;
const OTHER_THREAD: u128 = 0x2222_0000_0000_4000_8000_0000_0000_0002;
const TASK: u128 = 0x3333_0000_0000_4000_8000_0000_0000_0003;
const RUN: u128 = 0x4444_0000_0000_4000_8000_0000_0000_0004;
const PLAN_EXEC: u128 = 0x5555_0000_0000_4000_8000_0000_0000_0005;
const PLAN_TEST: u128 = 0x6666_0000_0000_4000_8000_0000_0000_0006;

fn dummy_scheduler_state(version: i64) -> SchedulerState {
    SchedulerState {
        thread_id: THREAD,
        selected_plan_id: None,
        selected_plan_ids: Vec::new(),
        current_plan_heads: Vec::new(),
        active_task_id: None,
        active_run_id: None,
        metadata: None,
        updated_at: chrono::Utc::now().timestamp_millis(),
        version,
    }
}

fn expecting(scheduler: i64) -> ProjectionVersions {
    ProjectionVersions { thread: 0, scheduler, live_context_window: 0 }
}

fn object(entries: &[(&str, &str)]) -> Option<SchedulerMetadata> {
    Some(SchedulerMetadata::Object(
        entries
            .iter()
            .map(|(k, v)| (k.to_string(), MetaValue::Text(v.to_string())))
            .collect(),
    ))
}

fn text_of(metadata: &SchedulerMetadata, key: &str) -> Option<String> {
    match metadata.get(key) {
        Some(MetaValue::Text(t)) => Some(t.clone()),
        _ => None,
    }
}

#[test]
fn apply_scheduler_mutation_mark_task_active_sets_active_task_and_run() {
    let current = dummy_scheduler_state(7);
    let mutation = SchedulerMutation::MarkTaskActive {
        expected: expecting(7),
        task_id: TASK,
        run_id: Some(RUN),
    };

    let next = apply_scheduler_mutation(&current, mutation).expect("mutation should apply");

    assert_eq!(next.active_task_id, Some(TASK));
    assert_eq!(next.active_run_id, Some(RUN));
    assert_eq!(next.version, 8);
    assert!(next.updated_at >= current.updated_at);
}

#[test]
fn apply_scheduler_mutation_clear_active_run_keeps_task_drops_run() {
    let mut current = dummy_scheduler_state(3);
    current.active_task_id = Some(TASK);
    current.active_run_id = Some(RUN);
    let preserved_task = current.active_task_id;
    let mutation = SchedulerMutation::ClearActiveRun { expected: expecting(3) };

    let next = apply_scheduler_mutation(&current, mutation).expect("mutation should apply");

    assert_eq!(next.active_task_id, preserved_task);
    assert_eq!(next.active_run_id, None);
    assert_eq!(next.version, 4);
}

#[test]
fn apply_scheduler_mutation_rejects_version_mismatch() {
    let current = dummy_scheduler_state(5);
    let mutation = SchedulerMutation::MarkTaskActive {
        expected: expecting(99),
        task_id: TASK,
        run_id: None,
    };

    let error = apply_scheduler_mutation(&current, mutation)
        .expect_err("version mismatch must fail-closed");
    assert_eq!(
        error,
        ApplySchedulerMutationError::VersionMismatch { expected: 99, actual: 5 }
    );
}

#[test]
fn apply_scheduler_mutation_seed_thread_initialises_clean_state() {
    let mut current = dummy_scheduler_state(1);
    current.active_task_id = Some(TASK);
    current.active_run_id = Some(RUN);
    current.selected_plan_id = Some(PLAN_EXEC);
    current.metadata = object(&[
        ("stage", "execution"),
        ("stale_reason", "rebuild_required"),
        ("previous_marker", "should be preserved"),
    ]);
    let intent_id: u128 = 0x7777;
    let context_snapshot_id: u128 = 0x8888;
    let mutation = SchedulerMutation::SeedThread {
        expected: expecting(1),
        bundle: Phase0Bundle {
            thread_id: current.thread_id,
            intent_id,
            context_snapshot_id: Some(context_snapshot_id),
        },
    };

    let next = apply_scheduler_mutation(&current, mutation).expect("seed should apply");

    assert_eq!(next.active_task_id, None);
    assert_eq!(next.active_run_id, None);
    assert_eq!(next.selected_plan_id, None);
    assert!(next.selected_plan_ids.is_empty());
    assert!(next.current_plan_heads.is_empty());

    let metadata = next.metadata.expect("metadata must be set");
    match metadata.get("seed_bundle").expect("seed_bundle key should be written") {
        MetaValue::SeedBundle { intent_id: seeded_intent, context_snapshot_id: seeded_context } => {
            assert_eq!(*seeded_intent, intent_id);
            assert_eq!(*seeded_context, Some(context_snapshot_id));
        }
        other => panic!("expected the seed bundle, got {other:?}"),
    }
    assert!(metadata.get("stale_reason").is_none());
    assert!(metadata.get("stage").is_none());
    assert_eq!(
        text_of(&metadata, "previous_marker").as_deref(),
        Some("should be preserved"),
        "unrelated metadata keys must be preserved"
    );

    assert_eq!(next.version, 2);
}

#[test]
fn apply_scheduler_mutation_seed_thread_rejects_cross_thread_seed() {
    let current = dummy_scheduler_state(1);
    assert_ne!(OTHER_THREAD, current.thread_id, "test sanity: stranger must differ from state thread");
    let mutation = SchedulerMutation::SeedThread {
        expected: expecting(1),
        bundle: Phase0Bundle {
            thread_id: OTHER_THREAD,
            intent_id: 0x9999,
            context_snapshot_id: None,
        },
    };

    let error = apply_scheduler_mutation(&current, mutation)
        .expect_err("cross-thread seed must fail-closed");
    assert_eq!(
        error,
        ApplySchedulerMutationError::SeedThreadMismatch {
            bundle_thread_id: OTHER_THREAD,
            state_thread_id: current.thread_id,
        }
    );
}

#[test]
fn apply_scheduler_mutation_set_current_plan_heads_populates_both_heads() {
    let current = dummy_scheduler_state(1);
    let mutation = SchedulerMutation::SetCurrentPlanHeads {
        expected: expecting(1),
        execution_plan_id: PLAN_EXEC,
        test_plan_id: PLAN_TEST,
    };

    let next = apply_scheduler_mutation(&current, mutation).expect("should apply");

    assert_eq!(next.current_plan_heads.len(), 2);
    assert_eq!(next.current_plan_heads[0].plan_id, PLAN_EXEC);
    assert_eq!(next.current_plan_heads[0].ordinal, 0);
    assert_eq!(next.current_plan_heads[1].plan_id, PLAN_TEST);
    assert_eq!(next.current_plan_heads[1].ordinal, 1);
    assert_eq!(next.selected_plan_id, Some(PLAN_EXEC));
    assert_eq!(next.version, 2);
}

#[test]
fn apply_scheduler_mutation_select_plan_set_populates_ordered_ids() {
    let current = dummy_scheduler_state(2);
    let mutation = SchedulerMutation::SelectPlanSet {
        expected: expecting(2),
        selected: SelectedPlanSet { execution_plan_id: PLAN_EXEC, test_plan_id: PLAN_TEST },
    };

    let next = apply_scheduler_mutation(&current, mutation).expect("should apply");

    assert_eq!(next.selected_plan_ids.len(), 2);
    assert_eq!(next.selected_plan_ids[0].plan_id, PLAN_EXEC);
    assert_eq!(next.selected_plan_ids[0].ordinal, 0);
    assert_eq!(next.selected_plan_ids[1].plan_id, PLAN_TEST);
    assert_eq!(next.selected_plan_ids[1].ordinal, 1);
    assert_eq!(next.selected_plan_id, Some(PLAN_EXEC));
}

#[test]
fn apply_scheduler_mutation_start_stage_writes_stage_metadata() {
    let mut current = dummy_scheduler_state(4);
    current.metadata = object(&[("stale_reason", "rebuild_required")]);
    let mutation = SchedulerMutation::StartStage { expected: expecting(4), stage: DagStage::Test };

    let next = apply_scheduler_mutation(&current, mutation).expect("should apply");

    let metadata = next.metadata.expect("metadata should be set");
    assert_eq!(text_of(&metadata, "stage").as_deref(), Some("test"));
    assert!(
        metadata.get("stale_reason").is_none(),
        "stale_reason should be cleared on stage transition"
    );
}

#[test]
fn apply_scheduler_mutation_mark_projection_stale_writes_reason() {
    let current = dummy_scheduler_state(6);
    let mutation = SchedulerMutation::MarkProjectionStale {
        expected: expecting(6),
        reason: ProjectionStaleReason::CasConflict,
    };

    let next = apply_scheduler_mutation(&current, mutation).expect("should apply");

    let metadata = next.metadata.expect("metadata should be set");
    assert_eq!(text_of(&metadata, "stale_reason").as_deref(), Some("cas_conflict"));
}

#[test]
fn apply_scheduler_mutation_apply_rebuild_clears_stale_and_records_versions() {
    let mut current = dummy_scheduler_state(9);
    current.metadata = object(&[("stale_reason", "rebuild_required")]);
    let materialized_versions = ProjectionVersions { thread: 5, scheduler: 9, live_context_window: 7 };
    let mutation = SchedulerMutation::ApplyRebuild {
        expected: expecting(9),
        materialized: MaterializedProjection { thread_id: THREAD, versions: materialized_versions },
    };

    let next = apply_scheduler_mutation(&current, mutation).expect("should apply");

    let metadata = next.metadata.expect("metadata should be set");
    assert!(metadata.get("stale_reason").is_none(), "stale_reason must be cleared after rebuild");
    match metadata.get("rebuild_versions").expect("rebuild_versions key should be written") {
        MetaValue::RebuildVersions(v) => {
            assert_eq!(v.thread, 5);
            assert_eq!(v.scheduler, 9);
            assert_eq!(v.live_context_window, 7);
        }
        other => panic!("expected rebuild versions, got {other:?}"),
    }
}

#[test]
fn ordered_plan_ids_returns_execution_then_test() {
    let outcome = PlanWriteOutcome {
        execution_plan_id: "plan-exec-1".to_string(),
        test_plan_id: "plan-test-1".to_string(),
        plan_id_by_task_id: Vec::new(),
    };
    let (exec, test) = outcome.ordered_plan_ids();
    assert_eq!(exec, "plan-exec-1");
    assert_eq!(test, "plan-test-1");
}

#[test]
fn outcome_is_clone() {
    let outcome = PlanWriteOutcome {
        execution_plan_id: "plan-exec-1".to_string(),
        test_plan_id: "plan-test-1".to_string(),
        plan_id_by_task_id: vec![(TASK, "plan-exec-1".to_string())],
    };
    let cloned = outcome.clone();
    assert_eq!(cloned, outcome);
    assert_eq!(cloned.plan_id_by_task_id[0].1, "plan-exec-1");
}

#[test]
fn replaying_an_applied_mutation_is_refused() {
    let current = dummy_scheduler_state(1);
    let mutation = SchedulerMutation::ClearActiveRun { expected: expecting(1) };
    let next = apply_scheduler_mutation_at(&current, mutation, 10).unwrap();
    assert_eq!(next.updated_at, 10);
    assert_eq!(
        apply_scheduler_mutation_at(&next, mutation, 11).unwrap_err(),
        ApplySchedulerMutationError::VersionMismatch { expected: 1, actual: 2 }
    );
}

#[test]
fn stale_then_rebuild_leaves_no_staleness_marker() {
    let current = dummy_scheduler_state(1);
    let stale = apply_scheduler_mutation_at(
        &current,
        SchedulerMutation::MarkProjectionStale {
            expected: expecting(1),
            reason: ProjectionStaleReason::Backpressure,
        },
        10,
    )
    .unwrap();
    let rebuilt = apply_scheduler_mutation_at(
        &stale,
        SchedulerMutation::ApplyRebuild {
            expected: expecting(2),
            materialized: MaterializedProjection {
                thread_id: THREAD,
                versions: ProjectionVersions { thread: 1, scheduler: 2, live_context_window: 3 },
            },
        },
        11,
    )
    .unwrap();
    let metadata = rebuilt.metadata.unwrap();
    assert!(metadata.get("stale_reason").is_none());
    assert!(metadata.get("rebuild_versions").is_some());
}

#[test]
fn non_object_metadata_is_left_alone() {
    let mut current = dummy_scheduler_state(1);
    current.metadata = Some(SchedulerMetadata::Other("\"text\"".to_string()));
    let next = apply_scheduler_mutation_at(
        &current,
        SchedulerMutation::StartStage { expected: expecting(1), stage: DagStage::Execution },
        10,
    )
    .unwrap();
    match next.metadata {
        Some(SchedulerMetadata::Other(t)) => assert_eq!(t, "\"text\""),
        other => panic!("expected untouched metadata, got {other:?}"),
    }
}

#[test]
fn applied_mutations_are_stamped_with_the_wall_clock_in_milliseconds() {
    let before = std::time::SystemTime::now()
        .duration_since(std::time::UNIX_EPOCH)
        .unwrap()
        .as_millis() as i64;
    let current = dummy_scheduler_state(7);
    let mutation = SchedulerMutation::MarkTaskActive {
        expected: expecting(7),
        task_id: TASK,
        run_id: None,
    };
    let next = apply_scheduler_mutation(&current, mutation).expect("mutation should apply");
    let after = std::time::SystemTime::now()
        .duration_since(std::time::UNIX_EPOCH)
        .unwrap()
        .as_millis() as i64;
    assert!(before <= next.updated_at && next.updated_at <= after);
}

#[test]
fn clock_readings_become_milliseconds() {
    assert_eq!(millis_of_reading(Some((1_700_000_000, 123_456_789))), Some(1_700_000_000_123));
    assert_eq!(millis_of_reading(Some((0, 999_999))), Some(0));
    assert_eq!(millis_of_reading(None), None);
    assert_eq!(millis_of_reading(Some((u64::MAX, 0))), None);
    assert_eq!(millis_of_reading(Some((9_000_000_000_000_000, 0))), None);
}

#[test]
fn a_clock_before_the_epoch_leaves_the_mutation_unapplied() {
    let current = dummy_scheduler_state(7);
    let mutation = SchedulerMutation::MarkTaskActive {
        expected: expecting(7),
        task_id: TASK,
        run_id: None,
    };
    assert_eq!(
        apply_scheduler_mutation_with_reading(&current, mutation.clone(), None).unwrap_err(),
        ApplySchedulerMutationError::ClockUnavailable
    );
    let next = apply_scheduler_mutation_with_reading(&current, mutation, Some((1_700_000_000, 5_000_000)))
        .expect("a readable clock stamps the state");
    assert_eq!(next.updated_at, 1_700_000_000_005);
    assert_eq!(next.version, 8);
}

#[test]
fn a_version_mismatch_is_refused_before_the_clock_matters() {
    let current = dummy_scheduler_state(7);
    let mutation = SchedulerMutation::MarkTaskActive {
        expected: expecting(6),
        task_id: TASK,
        run_id: None,
    };
    assert_eq!(
        apply_scheduler_mutation_with_reading(&current, mutation, None).unwrap_err(),
        ApplySchedulerMutationError::VersionMismatch { expected: 6, actual: 7 }
    );
}
