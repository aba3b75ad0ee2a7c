use libra::fake_provider::{
    last_user_is_tool_result, latest_user_text, user_content_text, Client, Message, UserContent,
};

fn text(t: &str) -> UserContent {
    UserContent::Text(t.to_string())
}

#[test]
fn user_text_joins_text_items_with_newlines() {
    let content = vec![text("first"), UserContent::Image, text("second")];
    assert_eq!(user_content_text(&content), "first\nsecond");
    assert_eq!(user_content_text(&vec![UserContent::ToolResult]), "");
}

#[test]
fn latest_user_text_skips_assistant_turns() {
    let history = vec![
        Message::User { content: vec![text("hello")] },
        Message::Assistant,
    ];
    assert_eq!(latest_user_text(&history).as_deref(), Some("hello"));
    let with_system = vec![Message::System { content: vec![text("rules")] }];
    assert_eq!(latest_user_text(&with_system).as_deref(), Some("rules"));
    assert_eq!(latest_user_text(&vec![Message::Assistant]), None);
}

#[test]
fn tool_results_are_seen_in_the_last_user_message_only() {
    let history = vec![
        Message::User { content: vec![UserContent::ToolResult] },
        Message::User { content: vec![text("next")] },
    ];
    assert!(!last_user_is_tool_result(&history));
    let history = vec![
        Message::User { content: vec![UserContent::ToolResult] },
        Message::Assistant,
        Message::System { content: vec![text("sys")] },
    ];
    assert!(last_user_is_tool_result(&history));
}

#[test]
fn completion_model_reports_its_model_name() {
    let client = Client::new();
    let model = client.completion_model("fake-model");
    assert_eq!(model.model_name(), "fake-model");
    let raw = model.raw_response(Some(2));
    assert_eq!(raw.model, "fake-model");
    assert_eq!(raw.matched_response_index, Some(2));
}
