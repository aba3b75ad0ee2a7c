use libra::automation::{
    automation_hook_event, has_matching_hook_rule, has_matching_vcs_rule, AutomationConfig,
    AutomationRule, AutomationTrigger, LifecycleEventKind,
};
use libra::hooks::HookEvent;

fn config() -> AutomationConfig {
    AutomationConfig {
        rules: vec![
            AutomationRule { enabled: false, trigger: AutomationTrigger::Vcs { event: "post_commit".to_string() } },
            AutomationRule { enabled: true, trigger: AutomationTrigger::Hook { event: HookEvent::SessionStart } },
            AutomationRule { enabled: true, trigger: AutomationTrigger::Other },
        ],
    }
}

#[test]
fn only_enabled_rules_match() {
    assert!(has_matching_hook_rule(&config(), HookEvent::SessionStart));
    assert!(!has_matching_hook_rule(&config(), HookEvent::SessionEnd));
    assert!(!has_matching_vcs_rule(&config(), "post_commit"));
}

#[test]
fn session_lifecycle_events_are_hooks() {
    assert_eq!(automation_hook_event(LifecycleEventKind::SessionStart), Some(HookEvent::SessionStart));
    assert_eq!(automation_hook_event(LifecycleEventKind::SessionEnd), Some(HookEvent::SessionEnd));
    assert_eq!(automation_hook_event(LifecycleEventKind::Other), None);
}
