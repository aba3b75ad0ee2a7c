use libra::hooks::{merge_hooks_tighten_only, HookDefinition, HookEvent};

fn hook(event: HookEvent, matcher: &str, command: &str, enabled: bool) -> HookDefinition {
    HookDefinition {
        event,
        matcher: matcher.to_string(),
        command: command.to_string(),
        description: String::new(),
        timeout_ms: 10_000,
        enabled,
    }
}

#[test]
fn test_hook_definition_matches_tool() {
    let hook = hook(HookEvent::PreToolUse, "read_file|list_dir", "echo test", true);

    assert!(hook.matches_tool("read_file"));
    assert!(hook.matches_tool("list_dir"));
    assert!(!hook.matches_tool("apply_patch"));
}

#[test]
fn test_hook_definition_wildcard() {
    let hook = hook(HookEvent::PreToolUse, "*", "echo test", true);

    assert!(hook.matches_tool("read_file"));
    assert!(hook.matches_tool("anything"));
}

#[test]
fn test_hook_definition_empty_matcher() {
    let hook = hook(HookEvent::PreToolUse, "", "echo test", true);

    assert!(hook.matches_tool("anything"));
}

#[test]
fn test_repository_disabled_pretool_stays_disabled() {
    let repo = hook(HookEvent::PreToolUse, "shell", "echo intentionally-off", false);
    let overlay_reenable = hook(HookEvent::PreToolUse, "shell", "echo intentionally-off", true);
    let merged = merge_hooks_tighten_only(vec![repo], vec![overlay_reenable]);
    assert_eq!(merged.len(), 1);
    assert!(
        !merged[0].enabled,
        "overlay must not re-enable a repository PreToolUse that is disabled"
    );
}

#[test]
fn matcher_alternatives_are_trimmed() {
    let hook = hook(HookEvent::PreToolUse, "read_file | shell", "echo test", true);
    assert!(hook.matches_tool("shell"));
    assert!(!hook.matches_tool("she"));
}

#[test]
fn pre_tool_use_key_is_only_for_pre_tool_hooks() {
    let pre = hook(HookEvent::PreToolUse, "shell", "echo a", true);
    assert_eq!(pre.pre_tool_use_key(), Some(("shell", "echo a")));
    let post = hook(HookEvent::PostToolUse, "shell", "echo a", true);
    assert_eq!(post.pre_tool_use_key(), None);
}
