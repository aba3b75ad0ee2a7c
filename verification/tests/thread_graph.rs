use libra::codex::CodeUiSessionStatus;
use libra::graph::{GraphLine, GraphNodeKind, GraphObjectDetail, MAX_CODE_UI_THREAD_GRAPH_NODES};
use libra::thread_graph::{push_task_subgraph, GraphObjectDetails, SubgraphIndex, ThreadGraph};

fn graph_line(depth: usize, kind: GraphNodeKind, id: &str, label: &str, tags: &[&str]) -> GraphLine {
    GraphLine {
        depth,
        kind,
        id: id.to_string(),
        label: label.to_string(),
        tags: tags.iter().map(|t| t.to_string()).collect(),
        detail: Vec::new(),
        object: None,
    }
}

fn thread(
    title: &str,
    selected_plan: Option<&str>,
    active_task: Option<&str>,
    active_run: Option<&str>,
    lines: Vec<GraphLine>,
) -> ThreadGraph {
    ThreadGraph {
        thread_id: "11111111-1111-4111-8111-111111111111".to_string(),
        title: Some(title.to_string()),
        freshness: "Fresh".to_string(),
        thread_version: 2,
        scheduler_version: 3,
        updated_at_ms: 1000,
        selected_plan_id: selected_plan.map(str::to_string),
        active_task_id: active_task.map(str::to_string),
        active_run_id: active_run.map(str::to_string),
        code_ui_status: None,
        code_ui_transcript_len: 0,
        code_ui_pending_interactions: 0,
        lines,
    }
}

#[test]
fn to_code_ui_thread_graph_includes_completed_lineage_and_patchsets() {
    let graph = thread(
        "Indexed thread",
        Some("33333333-3333-4333-8333-333333333333"),
        Some("55555555-5555-4555-8555-555555555555"),
        Some("66666666-6666-4666-8666-666666666666"),
        vec![
            graph_line(0, GraphNodeKind::Intent, "22222222-2222-4222-8222-222222222222", "Intent 1", &["head"]),
            graph_line(1, GraphNodeKind::Plan, "33333333-3333-4333-8333-333333333333", "Plan 1", &["selected"]),
            graph_line(2, GraphNodeKind::Task, "44444444-4444-4444-8444-444444444444", "Completed task", &["completed"]),
            graph_line(2, GraphNodeKind::Task, "55555555-5555-4555-8555-555555555555", "Active task", &["active"]),
            graph_line(3, GraphNodeKind::Run, "66666666-6666-4666-8666-666666666666", "Active run", &["active"]),
            graph_line(4, GraphNodeKind::Patchset, "77777777-7777-4777-8777-777777777777", "PatchSet 1", &[]),
        ],
    );

    let wire = graph.to_code_ui_thread_graph();
    assert_eq!(wire.thread_id, graph.thread_id);
    assert_eq!(wire.title.as_deref(), Some("Indexed thread"));
    assert_eq!(wire.selected_plan_id.as_deref(), Some("33333333-3333-4333-8333-333333333333"));
    assert_eq!(wire.nodes.len(), 6);
    assert!(!wire.truncated);
    assert_eq!(wire.omitted_node_count, 0);
    assert_eq!(wire.total_node_count, None);
    assert!(wire
        .nodes
        .iter()
        .any(|node| node.kind == "task" && node.tags.iter().any(|tag| tag == "completed")));
    assert!(wire.nodes.iter().any(|node| node.kind == "patchset" && node.depth == 4));
}

#[test]
fn to_code_ui_thread_graph_preserves_active_heads_past_the_node_cap() {
    let selected_plan = "aaaaaaaa-aaaa-4aaa-8aaa-aaaaaaaaaaaa";
    let active_task = "bbbbbbbb-bbbb-4bbb-8bbb-bbbbbbbbbbbb";
    let active_run = "cccccccc-cccc-4ccc-8ccc-cccccccccccc";
    let patchset = "dddddddd-dddd-4ddd-8ddd-dddddddddddd";
    let omitted_id = "omitted-0000".to_string();
    let extra = 12;
    let mut lines = Vec::with_capacity(MAX_CODE_UI_THREAD_GRAPH_NODES + extra);
    for index in 0..MAX_CODE_UI_THREAD_GRAPH_NODES + extra - 4 {
        lines.push(graph_line(
            1,
            GraphNodeKind::Plan,
            &format!("omitted-{index:04}"),
            &format!("Historical plan {index}"),
            &[],
        ));
    }
    lines.push(graph_line(1, GraphNodeKind::Plan, selected_plan, "Selected plan", &["selected"]));
    lines.push(graph_line(2, GraphNodeKind::Task, active_task, "Active task", &["active"]));
    lines.push(graph_line(3, GraphNodeKind::Run, active_run, "Active run", &["active"]));
    lines.push(graph_line(4, GraphNodeKind::Patchset, patchset, "Latest patchset", &[]));

    let graph = thread("Long thread", Some(selected_plan), Some(active_task), Some(active_run), lines);

    let wire = graph.to_code_ui_thread_graph();
    assert!(wire.truncated);
    assert_eq!(wire.total_node_count, Some(graph.lines.len() as u32));
    assert_eq!(wire.omitted_node_count, (graph.lines.len() - wire.nodes.len()) as u32);
    assert!(wire.nodes.len() <= MAX_CODE_UI_THREAD_GRAPH_NODES);
    assert!(wire.nodes.iter().any(|node| node.id == selected_plan));
    assert!(wire.nodes.iter().any(|node| node.id == active_task));
    assert!(wire.nodes.iter().any(|node| node.id == active_run));
    assert!(wire.nodes.iter().any(|node| node.id == patchset));
    assert!(
        !wire.nodes.iter().any(|node| node.id == omitted_id),
        "oldest generic lineage past the cap must be omitted, not active heads"
    );
}

#[test]
fn to_code_ui_thread_graph_never_exceeds_node_cap_for_large_head_frontier() {
    let selected_plan = "aaaaaaaa-aaaa-4aaa-8aaa-aaaaaaaaaaaa";
    let mut lines = Vec::with_capacity(MAX_CODE_UI_THREAD_GRAPH_NODES + 40);
    for index in 0..MAX_CODE_UI_THREAD_GRAPH_NODES + 40 {
        let id = if index == 0 { selected_plan.to_string() } else { format!("head-{index:04}") };
        lines.push(graph_line(0, GraphNodeKind::Intent, &id, &format!("Head intent {index}"), &["head"]));
    }
    let graph = thread("Wide frontier", Some(selected_plan), None, None, lines);

    let wire = graph.to_code_ui_thread_graph();
    assert!(wire.truncated);
    assert_eq!(wire.nodes.len(), MAX_CODE_UI_THREAD_GRAPH_NODES);
    assert!(wire.nodes.iter().any(|node| node.id == selected_plan));
}

#[test]
fn overlay_records_wire_status_and_counts() {
    let graph = thread("Overlay", None, None, None, vec![graph_line(0, GraphNodeKind::Intent, "i", "I", &[])]);
    let graph = graph.with_code_ui_overlay(CodeUiSessionStatus::IndeterminateSideEffect, 7, 2);
    assert_eq!(graph.code_ui_status.as_deref(), Some("indeterminate_side_effect"));
    assert_eq!(graph.code_ui_transcript_len, 7);
    assert_eq!(graph.code_ui_pending_interactions, 2);
    assert_eq!(graph.lines.len(), 1);
}

#[test]
fn object_details_keep_the_last_recorded_detail() {
    let mut details = GraphObjectDetails::new();
    assert!(details.get(GraphNodeKind::Run, "r1").is_none());
    details.insert(GraphNodeKind::Run, "r1".to_string(), GraphObjectDetail::unavailable(GraphNodeKind::Run, "first"));
    details.insert(GraphNodeKind::Run, "r1".to_string(), GraphObjectDetail::unavailable(GraphNodeKind::Run, "second"));
    let detail = details.get(GraphNodeKind::Run, "r1").expect("recorded");
    assert_eq!(detail.summary[1].1, "second");
    assert!(details.get(GraphNodeKind::Task, "r1").is_none());
}

#[test]
fn task_subgraph_lists_runs_then_their_patchsets() {
    let ix = SubgraphIndex {
        runs_by_task: vec![("task-0001".to_string(), vec!["run-0001-x".to_string(), "run-0002-y".to_string()])],
        patchsets_by_run: vec![("run-0001-x".to_string(), vec!["patch-0001".to_string()])],
        latest_runs: vec!["run-0002-y".to_string()],
        latest_run_events: vec![("run-0002-y".to_string(), "completed".to_string())],
        latest_patchsets: vec!["patch-0001".to_string()],
        active_task_id: Some("task-0001".to_string()),
        active_run_id: None,
        object_details: GraphObjectDetails::new(),
    };
    let mut rows = Vec::new();
    push_task_subgraph(&mut rows, "task-0001", 1, &ix);
    let ids: Vec<&str> = rows.iter().map(|l| l.id.as_str()).collect();
    assert_eq!(ids, vec!["task-0001", "run-0001-x", "patch-0001", "run-0002-y"]);
    assert_eq!(rows[0].depth, 1);
    assert_eq!(rows[0].tags, vec!["active".to_string()]);
    assert_eq!(rows[1].depth, 2);
    assert!(rows[1].tags.is_empty());
    assert_eq!(rows[1].detail[2], ("latest_event".to_string(), "unknown".to_string()));
    assert_eq!(rows[2].depth, 3);
    assert_eq!(rows[2].tags, vec!["latest".to_string()]);
    assert_eq!(rows[2].label, "patch-00");
    assert_eq!(rows[3].tags, vec!["latest".to_string(), "completed".to_string()]);
    assert_eq!(rows[3].detail[3], ("active".to_string(), "false".to_string()));
}
