use libra::graph::{
    select_code_ui_thread_graph_indices, short_id, truncate_chars, GraphLine, GraphNodeKind,
    GraphObjectDetail, MAX_CODE_UI_THREAD_GRAPH_NODES,
};

fn line(depth: usize, kind: GraphNodeKind, id: &str, tags: &[&str]) -> GraphLine {
    GraphLine {
        depth,
        kind,
        id: id.to_string(),
        label: format!("node {id}"),
        tags: tags.iter().map(|t| t.to_string()).collect(),
        detail: Vec::new(),
        object: None,
    }
}

#[test]
fn small_graphs_keep_every_node() {
    let lines = vec![
        line(0, GraphNodeKind::Intent, "i", &[]),
        line(1, GraphNodeKind::Plan, "p", &[]),
    ];
    assert_eq!(select_code_ui_thread_graph_indices(&lines, None, None, None), vec![0, 1]);
}

#[test]
fn capped_graph_preserves_active_heads_past_the_node_cap() {
    let selected_plan = "aaaaaaaa-aaaa-4aaa-8aaa-aaaaaaaaaaaa";
    let active_task = "bbbbbbbb-bbbb-4bbb-8bbb-bbbbbbbbbbbb";
    let active_run = "cccccccc-cccc-4ccc-8ccc-cccccccccccc";
    let patchset = "dddddddd-dddd-4ddd-8ddd-dddddddddddd";
    let extra = 12;
    let mut lines = Vec::new();
    for index in 0..MAX_CODE_UI_THREAD_GRAPH_NODES + extra - 4 {
        lines.push(line(1, GraphNodeKind::Plan, &format!("omitted-{index:04}"), &[]));
    }
    lines.push(line(1, GraphNodeKind::Plan, selected_plan, &["selected"]));
    lines.push(line(2, GraphNodeKind::Task, active_task, &["active"]));
    lines.push(line(3, GraphNodeKind::Run, active_run, &["active"]));
    lines.push(line(4, GraphNodeKind::Patchset, patchset, &[]));

    let keep = select_code_ui_thread_graph_indices(
        &lines,
        Some(selected_plan),
        Some(active_task),
        Some(active_run),
    );
    assert!(keep.len() <= MAX_CODE_UI_THREAD_GRAPH_NODES);
    let kept_ids: Vec<&str> = keep.iter().map(|&i| lines[i].id.as_str()).collect();
    assert!(kept_ids.contains(&selected_plan));
    assert!(kept_ids.contains(&active_task));
    assert!(kept_ids.contains(&active_run));
    assert!(kept_ids.contains(&patchset));
    assert!(
        !kept_ids.contains(&"omitted-0000"),
        "oldest generic lineage past the cap must be omitted, not active heads"
    );
    assert!(keep.windows(2).all(|w| w[0] < w[1]));
}

#[test]
fn capped_graph_never_exceeds_node_cap_for_large_head_frontier() {
    let selected_plan = "aaaaaaaa-aaaa-4aaa-8aaa-aaaaaaaaaaaa";
    let mut lines = Vec::new();
    for index in 0..MAX_CODE_UI_THREAD_GRAPH_NODES + 40 {
        let id = if index == 0 { selected_plan.to_string() } else { format!("head-{index:04}") };
        lines.push(line(0, GraphNodeKind::Intent, &id, &["head"]));
    }
    let keep = select_code_ui_thread_graph_indices(&lines, Some(selected_plan), None, None);
    assert_eq!(keep.len(), MAX_CODE_UI_THREAD_GRAPH_NODES);
    assert!(keep.contains(&0));
}

#[test]
fn node_kinds_name_their_history_types() {
    assert_eq!(GraphNodeKind::Patchset.history_type(), "patchset");
    assert_eq!(GraphNodeKind::Intent.history_type(), "intent");
}

#[test]
fn truncate_chars_marks_cut_values() {
    assert_eq!(truncate_chars("short", 10), "short");
    assert_eq!(truncate_chars("abcdefghij", 6), "abc...");
    assert_eq!(truncate_chars("abcdef", 2), "...");
}

#[test]
fn short_id_keeps_eight_characters() {
    assert_eq!(short_id("0123456789abcdef"), "01234567");
    assert_eq!(short_id("abc"), "abc");
}

#[test]
fn unavailable_detail_records_the_reason() {
    let detail = GraphObjectDetail::unavailable(GraphNodeKind::Run, "object store offline");
    assert_eq!(detail.object_type, "run");
    assert!(detail.hash.is_none());
    assert_eq!(
        detail.summary,
        vec![
            ("object_status".to_string(), "unavailable".to_string()),
            ("reason".to_string(), "object store offline".to_string()),
        ]
    );
}
