//! Automation dispatch guards: whether any enabled automation rule listens
//! for a hook event or a VCS event, and which lifecycle events are hooks.
use vstd::prelude::*;

use crate::hooks::HookEvent;
use crate::text::str_eq;

verus! {

/// What starts an automation rule.
#[derive(Debug, Clone)]
pub enum AutomationTrigger {
    /// A hook lifecycle event.
    Hook { event: HookEvent },
    /// A VCS event such as `post_commit`.
    Vcs { event: String },
    /// Any other trigger (for example a schedule).
    Other,
}

/// One automation rule.
#[derive(Debug, Clone)]
pub struct AutomationRule {
    pub enabled: bool,
    pub trigger: AutomationTrigger,
}

/// The automation configuration of a repository.
#[derive(Debug, Clone)]
pub struct AutomationConfig {
    pub rules: Vec<AutomationRule>,
}

/// Whether rule `r` is enabled and fires on hook event `e`.
pub open spec fn fires_on_hook(r: AutomationRule, e: HookEvent) -> bool {
    r.enabled && (r.trigger matches AutomationTrigger::Hook { event } && event == e)
}

/// Whether rule `r` is enabled and fires on VCS event `e`.
pub open spec fn fires_on_vcs(r: AutomationRule, e: Seq<char>) -> bool {
    r.enabled && (r.trigger matches AutomationTrigger::Vcs { event } && event@ == e)
}

/// Whether some enabled rule fires on hook event `hook_event`.
pub fn has_matching_hook_rule(config: &AutomationConfig, hook_event: HookEvent) -> (r: bool)
    ensures
        r == exists|i: int| 0 <= i < config.rules@.len() && fires_on_hook(#[trigger] config.rules@[i], hook_event),
{
    let mut i: usize = 0;
    while i < config.rules.len()
        invariant
            i <= config.rules.len(),
            forall|k: int| 0 <= k < i ==> !fires_on_hook(#[trigger] config.rules@[k], hook_event),
        decreases config.rules.len() - i,
    {
        let rule = &config.rules[i];
        let fires = rule.enabled && match &rule.trigger {
            AutomationTrigger::Hook { event } => *event == hook_event,
            _ => false,
        };
        if fires {
            assert(fires_on_hook(config.rules@[i as int], hook_event));
            return true;
        }
        i += 1;
    }
    false
}

/// Whether some enabled rule fires on VCS event `vcs_event`.
pub fn has_matching_vcs_rule(config: &AutomationConfig, vcs_event: &str) -> (r: bool)
    ensures
        r == exists|i: int| 0 <= i < config.rules@.len() && fires_on_vcs(#[trigger] config.rules@[i], vcs_event@),
{
    let mut i: usize = 0;
    while i < config.rules.len()
        invariant
            i <= config.rules.len(),
            forall|k: int| 0 <= k < i ==> !fires_on_vcs(#[trigger] config.rules@[k], vcs_event@),
        decreases config.rules.len() - i,
    {
        let rule = &config.rules[i];
        let fires = rule.enabled && match &rule.trigger {
            AutomationTrigger::Vcs { event } => str_eq(event.as_str(), vcs_event),
            _ => false,
        };
        if fires {
            assert(fires_on_vcs(config.rules@[i as int], vcs_event@));
            return true;
        }
        i += 1;
    }
    false
}

/// Agent lifecycle events.
#[derive(Debug, Clone, Copy, PartialEq, Eq, Structural)]
pub enum LifecycleEventKind {
    SessionStart,
    SessionEnd,
    /// Any other lifecycle event (turns, tool calls, compaction, ...).
    Other,
}

/// The hook event an automation listens for on a lifecycle event: only
/// session start and end are automation hooks.
pub fn automation_hook_event(event_kind: LifecycleEventKind) -> (r: Option<HookEvent>)
    ensures
        r == match event_kind {
            LifecycleEventKind::SessionStart => Some(HookEvent::SessionStart),
            LifecycleEventKind::SessionEnd => Some(HookEvent::SessionEnd),
            LifecycleEventKind::Other => None::<HookEvent>,
        },
{
    match event_kind {
        LifecycleEventKind::SessionStart => Some(HookEvent::SessionStart),
        LifecycleEventKind::SessionEnd => Some(HookEvent::SessionEnd),
        LifecycleEventKind::Other => None,
    }
}

} // verus!
