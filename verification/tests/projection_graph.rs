use libra::graph::GraphNodeKind;
use libra::ids::{i64_string, uuid_string};
use libra::projection_graph::{
    graph_object_refs, group_rows, grouped_children_of, sort_timed, IndexRow, ProjectionIndexRows, RunEventRow,
    ThreadBundle, ThreadIntentRef, ThreadProjection,
};
use libra::scheduler::{PlanHeadRef, SchedulerState};
use libra::thread_graph::{GraphObjectDetails, ThreadGraph};

const THREAD: u128 = 0x11111111_1111_4111_8111_111111111111;
const INTENT: u128 = 0x22222222_2222_4222_8222_222222222222;
const PLAN: u128 = 0x33333333_3333_4333_8333_333333333333;
const TASK: u128 = 0x44444444_4444_4444_8444_444444444444;
const RUN: u128 = 0x55555555_5555_4555_8555_555555555555;

fn row(parent: &str, child: &str, sort: i64, is_latest: bool) -> IndexRow {
    IndexRow { parent: parent.to_string(), child: child.to_string(), sort, is_latest }
}

fn sample_bundle() -> ThreadBundle {
    ThreadBundle {
        thread: ThreadProjection {
            thread_id: THREAD,
            title: Some("Graph test".to_string()),
            current_intent_id: Some(INTENT),
            latest_intent_id: Some(INTENT),
            intents: vec![ThreadIntentRef {
                intent_id: INTENT,
                ordinal: 0,
                is_head: true,
                linked_at_ms: 2_000,
                link_reason: "Seed".to_string(),
            }],
            updated_at_ms: 10_000,
            version: 2,
        },
        scheduler: SchedulerState {
            thread_id: THREAD,
            selected_plan_id: Some(PLAN),
            selected_plan_ids: vec![PlanHeadRef { plan_id: PLAN, ordinal: 0 }],
            current_plan_heads: vec![PlanHeadRef { plan_id: PLAN, ordinal: 0 }],
            active_task_id: Some(TASK),
            active_run_id: Some(RUN),
            metadata: None,
            updated_at: 11_000,
            version: 3,
        },
        freshness: "Fresh".to_string(),
    }
}

fn sample_rows() -> ProjectionIndexRows {
    ProjectionIndexRows {
        intent_plans: vec![row(
            "22222222-2222-4222-8222-222222222222",
            "33333333-3333-4333-8333-333333333333",
            3,
            false,
        )],
        intent_tasks: vec![row(
            "22222222-2222-4222-8222-222222222222",
            "44444444-4444-4444-8444-444444444444",
            4,
            false,
        )],
        plan_tasks: vec![row(
            "33333333-3333-4333-8333-333333333333",
            "44444444-4444-4444-8444-444444444444",
            5,
            false,
        )],
        task_runs: vec![row(
            "44444444-4444-4444-8444-444444444444",
            "55555555-5555-4555-8555-555555555555",
            6,
            true,
        )],
        run_events: vec![RunEventRow {
            run_id: "55555555-5555-4555-8555-555555555555".to_string(),
            event_kind: "completed".to_string(),
            is_latest: true,
        }],
        run_patchsets: vec![row(
            "55555555-5555-4555-8555-555555555555",
            "88888888-8888-4888-8888-888888888888",
            1,
            true,
        )],
    }
}

#[test]
fn graph_model_orders_thread_versions_from_projection_indexes() {
    let graph = ThreadGraph::from_projection(sample_bundle(), sample_rows(), GraphObjectDetails::new())
        .expect("projection timestamps are in range");
    let kinds = graph.lines.iter().map(|line| line.kind).collect::<Vec<_>>();

    assert_eq!(
        kinds,
        vec![
            GraphNodeKind::Intent,
            GraphNodeKind::Plan,
            GraphNodeKind::Task,
            GraphNodeKind::Run,
            GraphNodeKind::Patchset,
        ]
    );
    assert!(graph.lines[1].tags.contains(&"selected".to_string()));
    assert!(graph.lines[2].tags.contains(&"active".to_string()));
    assert!(graph.lines[3].tags.contains(&"completed".to_string()));
}

#[test]
fn projection_graph_records_identity_and_intent_details() {
    let graph = ThreadGraph::from_projection(sample_bundle(), sample_rows(), GraphObjectDetails::new())
        .expect("projection timestamps are in range");
    assert_eq!(graph.thread_id, "11111111-1111-4111-8111-111111111111");
    assert_eq!(graph.selected_plan_id.as_deref(), Some("33333333-3333-4333-8333-333333333333"));
    assert_eq!(graph.updated_at_ms, 11_000);
    assert_eq!(graph.freshness, "Fresh");
    let intent = &graph.lines[0];
    assert_eq!(intent.label, "#0 22222222");
    assert_eq!(
        intent.tags,
        vec!["Seed".to_string(), "head".to_string(), "current".to_string(), "latest".to_string()]
    );
    assert_eq!(intent.detail[4], ("linked_at".to_string(), "1970-01-01 00:00:02 UTC".to_string()));
    assert_eq!(graph.lines[1].tags, vec!["selected".to_string(), "head".to_string()]);
    assert_eq!(graph.lines[2].depth, 2);
    assert_eq!(graph.lines[4].depth, 4);
    assert_eq!(graph.lines[4].tags, vec!["latest".to_string()]);
}

#[test]
fn intent_tasks_not_under_a_plan_are_shown_once_at_depth_one() {
    let mut rows = sample_rows();
    rows.intent_tasks.push(row("22222222-2222-4222-8222-222222222222", "task-loose", 9, false));
    rows.intent_tasks.push(row("22222222-2222-4222-8222-222222222222", "task-loose", 12, false));
    let graph = ThreadGraph::from_projection(sample_bundle(), rows, GraphObjectDetails::new())
        .expect("projection timestamps are in range");
    let loose: Vec<_> = graph.lines.iter().filter(|l| l.id == "task-loose").collect();
    assert_eq!(loose.len(), 1);
    assert_eq!(loose[0].depth, 1);
    let plan_task_lines = graph
        .lines
        .iter()
        .filter(|l| l.id == "44444444-4444-4444-8444-444444444444")
        .count();
    assert_eq!(plan_task_lines, 1);
    assert!(graph.lines.iter().all(|l| (l.depth == 0) == (l.kind == GraphNodeKind::Intent)));
}

#[test]
fn intents_follow_ordinal_order() {
    let mut bundle = sample_bundle();
    bundle.thread.intents = vec![
        ThreadIntentRef { intent_id: 2, ordinal: 5, is_head: false, linked_at_ms: 0, link_reason: "Fork".to_string() },
        ThreadIntentRef { intent_id: 1, ordinal: -1, is_head: false, linked_at_ms: 0, link_reason: "Seed".to_string() },
        ThreadIntentRef { intent_id: 3, ordinal: 5, is_head: false, linked_at_ms: 0, link_reason: "Fork".to_string() },
    ];
    let graph = ThreadGraph::from_projection(bundle, ProjectionIndexRows {
        intent_plans: Vec::new(),
        intent_tasks: Vec::new(),
        plan_tasks: Vec::new(),
        task_runs: Vec::new(),
        run_events: Vec::new(),
        run_patchsets: Vec::new(),
    }, GraphObjectDetails::new())
    .expect("in range");
    let labels: Vec<&str> = graph.lines.iter().map(|l| l.label.as_str()).collect();
    assert_eq!(labels, vec!["#-1 00000000", "#5 00000000", "#5 00000000"]);
    assert_eq!(graph.lines[1].id, "00000000-0000-0000-0000-000000000002");
    assert_eq!(graph.lines[2].id, "00000000-0000-0000-0000-000000000003");
    assert_eq!(graph.lines[0].detail[4].1, "1970-01-01 00:00:00 UTC");
}

#[test]
fn link_times_outside_the_calendar_are_refused() {
    let mut bundle = sample_bundle();
    bundle.thread.intents[0].linked_at_ms = i64::MAX;
    assert!(ThreadGraph::from_projection(bundle, sample_rows(), GraphObjectDetails::new()).is_none());
}

#[test]
fn children_are_grouped_in_time_order_without_adjacent_repeats() {
    let rows = vec![
        row("p", "c", 5, false),
        row("q", "z", 1, false),
        row("p", "a", 5, false),
        row("p", "b", 2, false),
        row("p", "a", 5, false),
    ];
    assert_eq!(grouped_children_of(&rows, "p"), vec!["b".to_string(), "a".to_string(), "c".to_string()]);
    let groups = group_rows(&rows);
    assert_eq!(groups.len(), 2);
    assert!(groups.contains(&("q".to_string(), vec!["z".to_string()])));
    assert!(grouped_children_of(&rows, "missing").is_empty());
}

#[test]
fn timed_values_sort_by_time_then_value() {
    let sorted = sort_timed(&vec![(3, "b".to_string()), (1, "z".to_string()), (3, "a".to_string())]);
    assert_eq!(sorted, vec![(1, "z".to_string()), (3, "a".to_string()), (3, "b".to_string())]);
}

#[test]
fn ids_and_numbers_render_canonically() {
    assert_eq!(uuid_string(0x0123456789abcdef0123456789abcdef), "01234567-89ab-cdef-0123-456789abcdef");
    assert_eq!(uuid_string(0), "00000000-0000-0000-0000-000000000000");
    assert_eq!(i64_string(-42), "-42");
    assert_eq!(i64_string(i64::MIN), "-9223372036854775808");
    assert_eq!(i64_string(7), "7");
}

#[test]
fn object_refs_list_each_shown_node_once() {
    let refs = graph_object_refs(&sample_bundle(), &sample_rows());
    let has = |kind: GraphNodeKind, id: &str| refs.iter().filter(|(k, i)| *k == kind && i == id).count();
    assert_eq!(has(GraphNodeKind::Intent, "22222222-2222-4222-8222-222222222222"), 1);
    assert_eq!(has(GraphNodeKind::Plan, "33333333-3333-4333-8333-333333333333"), 1);
    assert_eq!(has(GraphNodeKind::Task, "44444444-4444-4444-8444-444444444444"), 1);
    assert_eq!(has(GraphNodeKind::Run, "55555555-5555-4555-8555-555555555555"), 1);
    assert_eq!(has(GraphNodeKind::Patchset, "88888888-8888-4888-8888-888888888888"), 1);
    assert_eq!(refs.len(), 5);
}
