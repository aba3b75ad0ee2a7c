//! Hook definitions, per-tool matching and the tighten-only merge of the
//! repository and overlay hook tiers.
use vstd::prelude::*;

use crate::seqs::filter_vec;
use crate::text::{chars_of, seq_eq, split, split_vec, str_eq, trim, trim_vec, views};

verus! {

/// Lifecycle events a hook can be bound to.
#[derive(Clone, Copy, Debug, PartialEq, Eq, Structural)]
pub enum HookEvent {
    PreToolUse,
    PostToolUse,
    SessionStart,
    SessionEnd,
}

/// A single hook definition as read from `hooks.json`.
#[derive(Debug, Clone)]
pub struct HookDefinition {
    /// Which lifecycle event triggers this hook.
    pub event: HookEvent,
    /// Tool name pattern (plain or `|`-separated alternatives); empty or `*`
    /// matches every tool.
    pub matcher: String,
    /// Shell command to execute; it receives JSON on stdin.
    pub command: String,
    pub description: String,
    /// Timeout in milliseconds.
    pub timeout_ms: u64,
    pub enabled: bool,
}

/// Default hook timeout in milliseconds.
pub fn default_timeout() -> (r: u64)
    ensures
        r == 10_000,
{
    10_000
}

/// Hooks are enabled unless configured otherwise.
pub fn default_enabled() -> (r: bool)
    ensures
        r,
{
    true
}

/// Whether a matcher selects `tool`: the wildcard (empty or `*`) selects
/// every tool; otherwise one `|`-separated alternative, trimmed, must equal
/// the tool name exactly.
pub open spec fn matcher_selects(matcher: Seq<char>, tool: Seq<char>) -> bool {
    matcher.len() == 0 || matcher == "*"@ || exists|k: int|
        0 <= k < split(matcher, '|').len() && trim(#[trigger] split(matcher, '|')[k]) == tool
}

/// The `(matcher, command)` key of a `PreToolUse` hook.
pub open spec fn pretool_key(h: HookDefinition) -> Option<(Seq<char>, Seq<char>)> {
    if h.event == HookEvent::PreToolUse {
        Some((h.matcher@, h.command@))
    } else {
        None
    }
}

impl HookDefinition {
    /// Whether this hook fires for the tool named `tool_name`.
    pub fn matches_tool(&self, tool_name: &str) -> (r: bool)
        ensures
            r == matcher_selects(self.matcher@, tool_name@),
            forall|k: int|
                0 <= k < split(self.matcher@, '|').len() && trim(#[trigger] split(self.matcher@, '|')[k])
                    == tool_name@ ==> r,
    {
        let m = chars_of(self.matcher.as_str());
        if m.len() == 0 || str_eq(self.matcher.as_str(), "*") {
            return true;
        }
        let tool = chars_of(tool_name);
        let pieces = split_vec(&m, '|');
        let ghost parts = split(m@, '|');
        let mut i: usize = 0;
        while i < pieces.len()
            invariant
                i <= pieces.len(),
                views(pieces@) == parts,
                parts == split(self.matcher@, '|'),
                tool@ == tool_name@,
                forall|k: int| 0 <= k < i ==> trim(#[trigger] parts[k]) != tool@,
            decreases pieces.len() - i,
        {
            assert(parts[i as int] == pieces@[i as int]@);
            let t = trim_vec(&pieces[i]);
            if seq_eq(&t, &tool) {
                return true;
            }
            i += 1;
        }
        false
    }

    /// The `(matcher, command)` key of a `PreToolUse` hook; other hooks have
    /// none.
    pub fn pre_tool_use_key(&self) -> (r: Option<(&str, &str)>)
        ensures
            match r {
                Some((m, c)) => pretool_key(*self) == Some((m@, c@)),
                None => pretool_key(*self) is None,
            },
    {
        if self.event == HookEvent::PreToolUse {
            Some((self.matcher.as_str(), self.command.as_str()))
        } else {
            None
        }
    }
}

/// Root document of `hooks.json`.
#[derive(Debug, Clone)]
pub struct HookConfig {
    pub hooks: Vec<HookDefinition>,
}

impl Default for HookConfig {
    fn default() -> (r: Self)
        ensures
            r.hooks@.len() == 0,
    {
        HookConfig { hooks: Vec::new() }
    }
}

/// `h` is an overlay `PreToolUse` hook with the same matcher and command as
/// a repository `PreToolUse` hook.
pub open spec fn shadowed(repository: Seq<HookDefinition>, h: HookDefinition) -> bool {
    pretool_key(h) is Some && exists|k: int|
        0 <= k < repository.len() && pretool_key(#[trigger] repository[k]) == pretool_key(h)
}

pub open spec fn kept_overlay(repository: Seq<HookDefinition>) -> spec_fn(HookDefinition) -> bool {
    |h: HookDefinition| !shadowed(repository, h)
}

fn is_shadowed(repository: &Vec<HookDefinition>, h: &HookDefinition) -> (r: bool)
    ensures
        r == shadowed(repository@, *h),
{
    match h.pre_tool_use_key() {
        None => false,
        Some((m, c)) => {
            let mut i: usize = 0;
            while i < repository.len()
                invariant
                    i <= repository.len(),
                    pretool_key(*h) == Some((m@, c@)),
                    forall|k: int|
                        0 <= k < i ==> pretool_key(#[trigger] repository@[k]) != pretool_key(*h),
                decreases repository.len() - i,
            {
                let e = &repository[i];
                if e.event == HookEvent::PreToolUse && str_eq(e.matcher.as_str(), m) && str_eq(
                    e.command.as_str(),
                    c,
                ) {
                    assert(pretool_key(repository@[i as int]) == pretool_key(*h));
                    return true;
                }
                i += 1;
            }
            false
        },
    }
}

/// Repository hooks first, unchanged and in order, then the overlay hooks
/// in order except those that would replace or disable a repository
/// `PreToolUse` hook (same matcher and command).
pub fn merge_hooks_tighten_only(repository: Vec<HookDefinition>, overlay: Vec<HookDefinition>) -> (r:
    Vec<HookDefinition>)
    ensures
        r@ == repository@ + overlay@.filter(kept_overlay(repository@)),
{
    let ghost rep = repository@;
    let kept = filter_vec(
        overlay,
        (|h: &HookDefinition| -> (b: bool)
            ensures
                b == kept_overlay(rep)(*h),
            { !is_shadowed(&repository, h) }),
        Ghost(kept_overlay(rep)),
    );
    let mut merged = repository;
    let mut i: usize = 0;
    let n = kept.len();
    while i < n
        invariant
            i <= n,
            n == kept.len(),
            merged@ == rep + kept@.subrange(0, i as int),
        decreases n - i,
    {
        merged.push(kept[i].clone_hook());
        i += 1;
        assert(merged@ =~= rep + kept@.subrange(0, i as int));
    }
    assert(kept@.subrange(0, n as int) =~= kept@);
    merged
}

impl HookDefinition {
    fn clone_hook(&self) -> (r: Self)
        ensures
            r == *self,
    {
        HookDefinition {
            event: self.event,
            matcher: self.matcher.clone(),
            command: self.command.clone(),
            description: self.description.clone(),
            timeout_ms: self.timeout_ms,
            enabled: self.enabled,
        }
    }
}

/// Every alternative of a matcher counts, wherever it stands: when the
/// trimmed `k`-th `|`-separated alternative is the tool's name, the hook
/// fires for that tool; the wildcard fires for every tool; and a matcher
/// that is no wildcard fires only for a tool one of its alternatives names.
pub proof fn law_every_alternative_selects(matcher: Seq<char>, tool: Seq<char>, k: int)
    ensures
        0 <= k < split(matcher, '|').len() && trim(split(matcher, '|')[k]) == tool ==> matcher_selects(
            matcher,
            tool,
        ),
        matcher.len() == 0 || matcher == "*"@ ==> matcher_selects(matcher, tool),
        matcher.len() > 0 && matcher != "*"@ && (forall|j: int|
            0 <= j < split(matcher, '|').len() ==> trim(#[trigger] split(matcher, '|')[j]) != tool)
            ==> !matcher_selects(matcher, tool),
{
}

/// An overlay never removes or alters a repository hook, and no overlay hook
/// can stand in for a repository `PreToolUse` hook with the same matcher
/// and command (so a disabled one stays disabled).
pub proof fn law_overlay_cannot_override_pretool(
    repository: Seq<HookDefinition>,
    overlay: Seq<HookDefinition>,
)
    ensures
        ({
            let m = repository + overlay.filter(kept_overlay(repository));
            &&& m.subrange(0, repository.len() as int) == repository
            &&& forall|j: int|
                repository.len() <= j < m.len() ==> !shadowed(repository, #[trigger] m[j])
        }),
{
    broadcast use vstd::seq_lib::group_filter_ensures;
    let f = overlay.filter(kept_overlay(repository));
    let m = repository + f;
    assert(m.subrange(0, repository.len() as int) =~= repository);
    assert forall|j: int| repository.len() <= j < m.len() implies !shadowed(
        repository,
        #[trigger] m[j],
    ) by {
        assert(m[j] == f[j - repository.len()]);
        assert(kept_overlay(repository)(f[j - repository.len()]));
    }
}

} // verus!
