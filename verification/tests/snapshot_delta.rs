use libra::snapshot_delta::{
    append_changed_projection_items, code_ui_projection_deltas, DeltaPayload, ProjectionDelta,
    ProjectionItem, SnapshotPayloads,
};

fn item(id: &str, payload: &str) -> ProjectionItem {
    ProjectionItem { id: id.to_string(), payload: payload.to_string() }
}

fn snapshot(status: &str, interactions: Vec<ProjectionItem>, plans: Vec<ProjectionItem>) -> SnapshotPayloads {
    SnapshotPayloads {
        status: status.to_string(),
        controller: "{\"kind\":\"none\"}".to_string(),
        plan_execution_repair: "null".to_string(),
        transcript: vec![item("t1", "{\"text\":\"hi\"}")],
        interactions,
        plans,
        tasks: Vec::new(),
        tool_calls: Vec::new(),
        patchsets: Vec::new(),
    }
}

fn summary(d: &ProjectionDelta) -> (String, String) {
    let payload = match &d.payload {
        DeltaPayload::Value(v) => v.clone(),
        DeltaPayload::InteractionCleared(id) => format!("cleared:{id}"),
    };
    (d.projection.clone(), payload)
}

#[test]
fn unchanged_snapshot_has_no_deltas() {
    let s = snapshot("\"idle\"", vec![item("i1", "{}")], vec![item("p1", "{\"v\":1}")]);
    assert!(code_ui_projection_deltas(&s, &s).is_empty());
}

#[test]
fn deltas_follow_the_snapshot_order() {
    let previous = snapshot("\"idle\"", vec![item("i1", "{}"), item("i2", "{}")], vec![item("p1", "{\"v\":1}")]);
    let current = snapshot(
        "\"thinking\"",
        vec![item("i2", "{\"answered\":true}")],
        vec![item("p1", "{\"v\":1}"), item("p2", "{\"v\":2}")],
    );
    let deltas: Vec<_> = code_ui_projection_deltas(&previous, &current).iter().map(summary).collect();
    assert_eq!(
        deltas,
        vec![
            ("status".to_string(), "\"thinking\"".to_string()),
            ("interaction_upsert".to_string(), "{\"answered\":true}".to_string()),
            ("interaction_cleared".to_string(), "cleared:i1".to_string()),
            ("plan_upsert".to_string(), "{\"v\":2}".to_string()),
        ]
    );
}

#[test]
fn changed_items_compare_with_the_last_previous_value_under_the_id() {
    let mut deltas = Vec::new();
    append_changed_projection_items(
        &mut deltas,
        "task_upsert",
        "task changed",
        &vec![item("a", "1"), item("a", "2")],
        &vec![item("a", "2"), item("b", "3")],
    );
    let got: Vec<_> = deltas.iter().map(summary).collect();
    assert_eq!(got, vec![("task_upsert".to_string(), "3".to_string())]);
    assert_eq!(deltas[0].summary, "task changed");
}
