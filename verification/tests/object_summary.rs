use libra::graph::{GraphNodeKind, GraphObjectDetail};
use libra::object_summary::{summarize_json_value, summarize_object_fields, JsonDocument, JsonField};

#[test]
fn json_values_summarize_to_one_line() {
    assert_eq!(summarize_json_value(&JsonField::Null), "null");
    assert_eq!(summarize_json_value(&JsonField::Bool(true)), "true");
    assert_eq!(summarize_json_value(&JsonField::Number("12.5".to_string())), "12.5");
    assert_eq!(summarize_json_value(&JsonField::Array(0)), "[]");
    assert_eq!(summarize_json_value(&JsonField::Array(3)), "array[3]");
    assert_eq!(summarize_json_value(&JsonField::Object(0)), "{}");
    assert_eq!(summarize_json_value(&JsonField::Object(12)), "object{12 keys}");
    let long = "x".repeat(300);
    let cut = summarize_json_value(&JsonField::String(long));
    assert_eq!(cut.chars().count(), 240);
    assert!(cut.ends_with("..."));
}

#[test]
fn object_fields_follow_the_kind_order_and_skip_missing_keys() {
    let doc = JsonDocument::Object(vec![
        ("steps".to_string(), JsonField::Array(2)),
        ("unrelated".to_string(), JsonField::Null),
        ("object_id".to_string(), JsonField::String("p-1".to_string())),
    ]);
    let summary = summarize_object_fields(GraphNodeKind::Plan, &doc);
    assert_eq!(
        summary,
        vec![
            ("object_id".to_string(), "p-1".to_string()),
            ("steps".to_string(), "array[2]".to_string()),
        ]
    );
}

#[test]
fn non_object_documents_are_summarized_as_a_value() {
    let summary = summarize_object_fields(GraphNodeKind::Run, &JsonDocument::Other(JsonField::Bool(false)));
    assert_eq!(summary, vec![("value".to_string(), "false".to_string())]);
}

#[test]
fn object_detail_records_kind_hash_and_summary() {
    let detail = GraphObjectDetail::from_json(
        GraphNodeKind::Intent,
        Some("abc123".to_string()),
        Some("Blob".to_string()),
        JsonDocument::Object(vec![("prompt".to_string(), JsonField::String("hi".to_string()))]),
    );
    assert_eq!(detail.object_type, "intent");
    assert_eq!(detail.hash.as_deref(), Some("abc123"));
    assert_eq!(detail.git_object_type.as_deref(), Some("Blob"));
    assert_eq!(detail.summary, vec![("prompt".to_string(), "hi".to_string())]);
}
