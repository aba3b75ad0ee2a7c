//! Managed Codex app-server notifications normalized into the shared runtime
//! event envelope, and the Code UI lifecycle status those events drive.
use vstd::prelude::*;

use crate::text::{ascii_lower, chars_of, concat, concat3, string_of, string_of_range, word_is};

verus! {

/// Provider label stamped on every Codex-normalized envelope kind.
pub const CODEX_PROVIDER: &'static str = "codex";

/// Codex app-server notification methods.
#[derive(Clone, Copy, Debug, PartialEq, Eq, Structural)]
pub enum MethodKind {
    ThreadStarted,
    ThreadStatusChanged,
    ThreadNameUpdated,
    ThreadArchived,
    ThreadCompacted,
    ThreadClosed,
    TurnStarted,
    TurnCompleted,
    TokenUsageUpdated,
    PlanUpdated,
    PlanDelta,
    AgentMessageDelta,
    CommandExecutionOutputDelta,
    FileChangeOutputDelta,
    TaskStarted,
    TaskCompleted,
    ItemStarted,
    ItemCompleted,
    RequestApproval,
    RequestApprovalCommandExecution,
    RequestApprovalFileChange,
    RequestApprovalApplyPatch,
    RequestApprovalExec,
    Initialized,
    Unknown,
}

pub open spec fn classification_of(kind: MethodKind) -> Seq<char> {
    match kind {
        MethodKind::ThreadStarted => "thread_started"@,
        MethodKind::ThreadStatusChanged => "thread_status_changed"@,
        MethodKind::ThreadNameUpdated => "thread_name_updated"@,
        MethodKind::ThreadArchived => "thread_archived"@,
        MethodKind::ThreadCompacted => "thread_compacted"@,
        MethodKind::ThreadClosed => "thread_closed"@,
        MethodKind::TurnStarted => "turn_started"@,
        MethodKind::TurnCompleted => "turn_completed"@,
        MethodKind::TokenUsageUpdated => "token_usage_updated"@,
        MethodKind::PlanUpdated => "plan_updated"@,
        MethodKind::PlanDelta => "plan_delta"@,
        MethodKind::AgentMessageDelta => "agent_message_delta"@,
        MethodKind::CommandExecutionOutputDelta => "command_execution_output_delta"@,
        MethodKind::FileChangeOutputDelta => "file_change_output_delta"@,
        MethodKind::TaskStarted => "task_started"@,
        MethodKind::TaskCompleted => "task_completed"@,
        MethodKind::ItemStarted => "item_started"@,
        MethodKind::ItemCompleted => "item_completed"@,
        MethodKind::RequestApproval => "request_approval"@,
        MethodKind::RequestApprovalCommandExecution => "request_approval_command_execution"@,
        MethodKind::RequestApprovalFileChange => "request_approval_file_change"@,
        MethodKind::RequestApprovalApplyPatch => "request_approval_apply_patch"@,
        MethodKind::RequestApprovalExec => "request_approval_exec"@,
        MethodKind::Initialized => "initialized"@,
        MethodKind::Unknown => "unknown"@,
    }
}

/// Stable snake_case name of each method kind.
pub fn method_kind_classification(kind: MethodKind) -> (r: &'static str)
    ensures
        r@ == classification_of(kind),
{
    match kind {
        MethodKind::ThreadStarted => "thread_started",
        MethodKind::ThreadStatusChanged => "thread_status_changed",
        MethodKind::ThreadNameUpdated => "thread_name_updated",
        MethodKind::ThreadArchived => "thread_archived",
        MethodKind::ThreadCompacted => "thread_compacted",
        MethodKind::ThreadClosed => "thread_closed",
        MethodKind::TurnStarted => "turn_started",
        MethodKind::TurnCompleted => "turn_completed",
        MethodKind::TokenUsageUpdated => "token_usage_updated",
        MethodKind::PlanUpdated => "plan_updated",
        MethodKind::PlanDelta => "plan_delta",
        MethodKind::AgentMessageDelta => "agent_message_delta",
        MethodKind::CommandExecutionOutputDelta => "command_execution_output_delta",
        MethodKind::FileChangeOutputDelta => "file_change_output_delta",
        MethodKind::TaskStarted => "task_started",
        MethodKind::TaskCompleted => "task_completed",
        MethodKind::ItemStarted => "item_started",
        MethodKind::ItemCompleted => "item_completed",
        MethodKind::RequestApproval => "request_approval",
        MethodKind::RequestApprovalCommandExecution => "request_approval_command_execution",
        MethodKind::RequestApprovalFileChange => "request_approval_file_change",
        MethodKind::RequestApprovalApplyPatch => "request_approval_apply_patch",
        MethodKind::RequestApprovalExec => "request_approval_exec",
        MethodKind::Initialized => "initialized",
        MethodKind::Unknown => "unknown",
    }
}

/// Every known method kind, in declaration order, without `Unknown`.
pub open spec fn known_kinds() -> Seq<MethodKind> {
    seq![
        MethodKind::ThreadStarted,
        MethodKind::ThreadStatusChanged,
        MethodKind::ThreadNameUpdated,
        MethodKind::ThreadArchived,
        MethodKind::ThreadCompacted,
        MethodKind::ThreadClosed,
        MethodKind::TurnStarted,
        MethodKind::TurnCompleted,
        MethodKind::TokenUsageUpdated,
        MethodKind::PlanUpdated,
        MethodKind::PlanDelta,
        MethodKind::AgentMessageDelta,
        MethodKind::CommandExecutionOutputDelta,
        MethodKind::FileChangeOutputDelta,
        MethodKind::TaskStarted,
        MethodKind::TaskCompleted,
        MethodKind::ItemStarted,
        MethodKind::ItemCompleted,
        MethodKind::RequestApproval,
        MethodKind::RequestApprovalCommandExecution,
        MethodKind::RequestApprovalFileChange,
        MethodKind::RequestApprovalApplyPatch,
        MethodKind::RequestApprovalExec,
        MethodKind::Initialized,
    ]
}

/// Every known method kind except `Unknown`.
pub fn all_known_method_kinds() -> (r: Vec<MethodKind>)
    ensures
        r@ == known_kinds(),
{
    let r = vec![
        MethodKind::ThreadStarted,
        MethodKind::ThreadStatusChanged,
        MethodKind::ThreadNameUpdated,
        MethodKind::ThreadArchived,
        MethodKind::ThreadCompacted,
        MethodKind::ThreadClosed,
        MethodKind::TurnStarted,
        MethodKind::TurnCompleted,
        MethodKind::TokenUsageUpdated,
        MethodKind::PlanUpdated,
        MethodKind::PlanDelta,
        MethodKind::AgentMessageDelta,
        MethodKind::CommandExecutionOutputDelta,
        MethodKind::FileChangeOutputDelta,
        MethodKind::TaskStarted,
        MethodKind::TaskCompleted,
        MethodKind::ItemStarted,
        MethodKind::ItemCompleted,
        MethodKind::RequestApproval,
        MethodKind::RequestApprovalCommandExecution,
        MethodKind::RequestApprovalFileChange,
        MethodKind::RequestApprovalApplyPatch,
        MethodKind::RequestApprovalExec,
        MethodKind::Initialized,
    ];
    assert(r@ =~= known_kinds());
    r
}

pub open spec fn sample_method(kind: MethodKind) -> Seq<char> {
    match kind {
        MethodKind::ThreadStarted => "thread/started"@,
        MethodKind::ThreadStatusChanged => "thread/status/changed"@,
        MethodKind::ThreadNameUpdated => "thread/name/updated"@,
        MethodKind::ThreadArchived => "thread/archived"@,
        MethodKind::ThreadCompacted => "thread/compacted"@,
        MethodKind::ThreadClosed => "thread/closed"@,
        MethodKind::TurnStarted => "turn/started"@,
        MethodKind::TurnCompleted => "turn/completed"@,
        MethodKind::TokenUsageUpdated => "thread/tokenUsage/updated"@,
        MethodKind::PlanUpdated => "turn/plan/updated"@,
        MethodKind::PlanDelta => "item/plan/delta"@,
        MethodKind::AgentMessageDelta => "item/agentMessage/delta"@,
        MethodKind::CommandExecutionOutputDelta => "item/commandExecution/outputDelta"@,
        MethodKind::FileChangeOutputDelta => "item/fileChange/outputDelta"@,
        MethodKind::TaskStarted => "codex/event/task_started"@,
        MethodKind::TaskCompleted => "codex/event/task_complete"@,
        MethodKind::ItemStarted => "item/agentMessage/started"@,
        MethodKind::ItemCompleted => "item/agentMessage/completed"@,
        MethodKind::RequestApproval => "item/tool/requestApproval"@,
        MethodKind::RequestApprovalCommandExecution => "item/commandExecution/requestApproval"@,
        MethodKind::RequestApprovalFileChange => "item/fileChange/requestApproval"@,
        MethodKind::RequestApprovalApplyPatch => "apply_patch_approval_request"@,
        MethodKind::RequestApprovalExec => "exec_approval_request"@,
        MethodKind::Initialized => "initialized"@,
        MethodKind::Unknown => "codex/future/unknownMethod"@,
    }
}

/// Canonical raw method string for a kind.
pub fn sample_method_for_kind(kind: MethodKind) -> (r: &'static str)
    ensures
        r@ == sample_method(kind),
{
    match kind {
        MethodKind::ThreadStarted => "thread/started",
        MethodKind::ThreadStatusChanged => "thread/status/changed",
        MethodKind::ThreadNameUpdated => "thread/name/updated",
        MethodKind::ThreadArchived => "thread/archived",
        MethodKind::ThreadCompacted => "thread/compacted",
        MethodKind::ThreadClosed => "thread/closed",
        MethodKind::TurnStarted => "turn/started",
        MethodKind::TurnCompleted => "turn/completed",
        MethodKind::TokenUsageUpdated => "thread/tokenUsage/updated",
        MethodKind::PlanUpdated => "turn/plan/updated",
        MethodKind::PlanDelta => "item/plan/delta",
        MethodKind::AgentMessageDelta => "item/agentMessage/delta",
        MethodKind::CommandExecutionOutputDelta => "item/commandExecution/outputDelta",
        MethodKind::FileChangeOutputDelta => "item/fileChange/outputDelta",
        MethodKind::TaskStarted => "codex/event/task_started",
        MethodKind::TaskCompleted => "codex/event/task_complete",
        MethodKind::ItemStarted => "item/agentMessage/started",
        MethodKind::ItemCompleted => "item/agentMessage/completed",
        MethodKind::RequestApproval => "item/tool/requestApproval",
        MethodKind::RequestApprovalCommandExecution => "item/commandExecution/requestApproval",
        MethodKind::RequestApprovalFileChange => "item/fileChange/requestApproval",
        MethodKind::RequestApprovalApplyPatch => "apply_patch_approval_request",
        MethodKind::RequestApprovalExec => "exec_approval_request",
        MethodKind::Initialized => "initialized",
        MethodKind::Unknown => "codex/future/unknownMethod",
    }
}

/// The kind whose canonical method string is `m`, or `Unknown`.
pub open spec fn method_kind_of(m: Seq<char>) -> MethodKind {
    if m == "thread/started"@ {
        MethodKind::ThreadStarted
    } else if m == "thread/status/changed"@ {
        MethodKind::ThreadStatusChanged
    } else if m == "thread/name/updated"@ {
        MethodKind::ThreadNameUpdated
    } else if m == "thread/archived"@ {
        MethodKind::ThreadArchived
    } else if m == "thread/compacted"@ {
        MethodKind::ThreadCompacted
    } else if m == "thread/closed"@ {
        MethodKind::ThreadClosed
    } else if m == "turn/started"@ {
        MethodKind::TurnStarted
    } else if m == "turn/completed"@ {
        MethodKind::TurnCompleted
    } else if m == "thread/tokenUsage/updated"@ {
        MethodKind::TokenUsageUpdated
    } else if m == "turn/plan/updated"@ {
        MethodKind::PlanUpdated
    } else if m == "item/plan/delta"@ {
        MethodKind::PlanDelta
    } else if m == "item/agentMessage/delta"@ {
        MethodKind::AgentMessageDelta
    } else if m == "item/commandExecution/outputDelta"@ {
        MethodKind::CommandExecutionOutputDelta
    } else if m == "item/fileChange/outputDelta"@ {
        MethodKind::FileChangeOutputDelta
    } else if m == "codex/event/task_started"@ {
        MethodKind::TaskStarted
    } else if m == "codex/event/task_complete"@ {
        MethodKind::TaskCompleted
    } else if m == "item/agentMessage/started"@ {
        MethodKind::ItemStarted
    } else if m == "item/agentMessage/completed"@ {
        MethodKind::ItemCompleted
    } else if m == "item/tool/requestApproval"@ {
        MethodKind::RequestApproval
    } else if m == "item/commandExecution/requestApproval"@ {
        MethodKind::RequestApprovalCommandExecution
    } else if m == "item/fileChange/requestApproval"@ {
        MethodKind::RequestApprovalFileChange
    } else if m == "apply_patch_approval_request"@ {
        MethodKind::RequestApprovalApplyPatch
    } else if m == "exec_approval_request"@ {
        MethodKind::RequestApprovalExec
    } else if m == "initialized"@ {
        MethodKind::Initialized
    } else {
        MethodKind::Unknown
    }
}

/// Classifies a raw method string by its canonical spelling.
pub fn method_kind_from(method: &str) -> (r: MethodKind)
    ensures
        r == method_kind_of(method@),
{
    let v = chars_of(method);
    if word_is(&v, "thread/started") {
        MethodKind::ThreadStarted
    } else if word_is(&v, "thread/status/changed") {
        MethodKind::ThreadStatusChanged
    } else if word_is(&v, "thread/name/updated") {
        MethodKind::ThreadNameUpdated
    } else if word_is(&v, "thread/archived") {
        MethodKind::ThreadArchived
    } else if word_is(&v, "thread/compacted") {
        MethodKind::ThreadCompacted
    } else if word_is(&v, "thread/closed") {
        MethodKind::ThreadClosed
    } else if word_is(&v, "turn/started") {
        MethodKind::TurnStarted
    } else if word_is(&v, "turn/completed") {
        MethodKind::TurnCompleted
    } else if word_is(&v, "thread/tokenUsage/updated") {
        MethodKind::TokenUsageUpdated
    } else if word_is(&v, "turn/plan/updated") {
        MethodKind::PlanUpdated
    } else if word_is(&v, "item/plan/delta") {
        MethodKind::PlanDelta
    } else if word_is(&v, "item/agentMessage/delta") {
        MethodKind::AgentMessageDelta
    } else if word_is(&v, "item/commandExecution/outputDelta") {
        MethodKind::CommandExecutionOutputDelta
    } else if word_is(&v, "item/fileChange/outputDelta") {
        MethodKind::FileChangeOutputDelta
    } else if word_is(&v, "codex/event/task_started") {
        MethodKind::TaskStarted
    } else if word_is(&v, "codex/event/task_complete") {
        MethodKind::TaskCompleted
    } else if word_is(&v, "item/agentMessage/started") {
        MethodKind::ItemStarted
    } else if word_is(&v, "item/agentMessage/completed") {
        MethodKind::ItemCompleted
    } else if word_is(&v, "item/tool/requestApproval") {
        MethodKind::RequestApproval
    } else if word_is(&v, "item/commandExecution/requestApproval") {
        MethodKind::RequestApprovalCommandExecution
    } else if word_is(&v, "item/fileChange/requestApproval") {
        MethodKind::RequestApprovalFileChange
    } else if word_is(&v, "apply_patch_approval_request") {
        MethodKind::RequestApprovalApplyPatch
    } else if word_is(&v, "exec_approval_request") {
        MethodKind::RequestApprovalExec
    } else if word_is(&v, "initialized") {
        MethodKind::Initialized
    } else {
        MethodKind::Unknown
    }
}

// ---------------------------------------------------------------------------
// Runtime envelope
// ---------------------------------------------------------------------------
/// What a pending interaction waits for.
#[derive(Clone, Debug, PartialEq, Eq)]
pub enum InteractionState {
    AwaitingToolApproval { interaction_id: String, tool_name: String },
}

/// Provider-neutral runtime event kinds.
#[derive(Clone, Debug, PartialEq, Eq)]
pub enum AgentEventKind {
    TurnQueued,
    TurnStarted,
    TurnCompleted { summary: String },
    TurnFailed { reason: String },
    TurnCancelled,
    TurnIndeterminateSideEffect { reason: String },
    CancelRequested,
    InteractionRequested { state: InteractionState },
    InteractionResponded { interaction_id: String },
    ProviderNotification { provider: String, method: String, classification: String, detail: String },
}

/// Persisted status of a managed Codex run.
#[derive(Clone, Copy, Debug, PartialEq, Eq, Structural)]
pub enum RunStatus {
    Completed,
    Failed,
    Cancelled,
}

/// A JSON field as the normalizer reads it: absent, present but not a
/// string, or a string.
#[derive(Clone, Debug)]
pub enum JsonField {
    Absent,
    Other,
    Text(String),
}

/// The fields of a notification's `params` that the normalizer reads.
#[derive(Clone, Debug)]
pub struct NotificationParams {
    /// Whether `error` is present.
    pub error: bool,
    /// `status`.
    pub status: JsonField,
    /// `/turn/status`.
    pub turn_status: JsonField,
    /// `requestId`.
    pub request_id: JsonField,
    /// `request_id`.
    pub request_id_snake: JsonField,
    /// `id`.
    pub id: JsonField,
    /// `/item/type`.
    pub item_type: JsonField,
}

pub open spec fn field_text(f: JsonField) -> Option<Seq<char>> {
    match f {
        JsonField::Text(s) => Some(s@),
        _ => None,
    }
}

/// The first present field among `fs`, read as a string.
pub open spec fn first_present(a: JsonField, b: JsonField) -> JsonField {
    match a {
        JsonField::Absent => b,
        _ => a,
    }
}

/// `status`, or `/turn/status` when `status` is absent, as a string;
/// `completed` otherwise.
pub open spec fn turn_status(p: NotificationParams) -> Seq<char> {
    match field_text(first_present(p.status, p.turn_status)) {
        Some(s) => s,
        None => "completed"@,
    }
}

pub open spec fn is_cancel_status(s: Seq<char>) -> bool {
    s == "cancelled"@ || s == "canceled"@ || s == "aborted"@ || s == "interrupted"@
}

pub open spec fn is_failure_status(s: Seq<char>) -> bool {
    s == "failed"@ || s == "error"@ || s == "errored"@ || is_cancel_status(s)
}

/// The envelope kind of a `turn/completed` notification.
pub open spec fn turn_completed_kind(p: NotificationParams) -> (int, Seq<char>) {
    if p.error {
        (1, "codex turn completed with error"@)
    } else {
        let status = turn_status(p);
        let l = ascii_lower(status);
        if is_failure_status(l) {
            if is_cancel_status(l) {
                (2, Seq::empty())
            } else {
                (1, "codex turn ended with status '"@ + status + "'"@)
            }
        } else {
            (0, "codex turn completed ("@ + status + ")"@)
        }
    }
}

/// `TurnCompleted` (tag 0), `TurnFailed` (1) or `TurnCancelled` (2), with
/// its text.
pub open spec fn kind_tag(k: AgentEventKind) -> (int, Seq<char>) {
    match k {
        AgentEventKind::TurnCompleted { summary } => (0, summary@),
        AgentEventKind::TurnFailed { reason } => (1, reason@),
        AgentEventKind::TurnCancelled => (2, Seq::empty()),
        _ => (-1, Seq::empty()),
    }
}

fn field_str(f: &JsonField) -> (r: Option<&str>)
    ensures
        match r {
            Some(s) => field_text(*f) == Some(s@),
            None => field_text(*f) is None,
        },
{
    match f {
        JsonField::Text(s) => Some(s.as_str()),
        _ => None,
    }
}

fn pick<'a>(a: &'a JsonField, b: &'a JsonField) -> (r: &'a JsonField)
    ensures
        *r == first_present(*a, *b),
{
    match a {
        JsonField::Absent => b,
        _ => a,
    }
}

/// Maps a `turn/completed` notification to its envelope kind.
pub fn map_turn_completed(params: &NotificationParams) -> (r: AgentEventKind)
    ensures
        kind_tag(r) == turn_completed_kind(*params),
        !params.error && params.status is Absent && (params.turn_status matches JsonField::Text(t)
            && ascii_lower(t@) == "failed"@) ==> r matches AgentEventKind::TurnFailed { .. },
{
    proof {
        law_turn_status_falls_back_to_turn(*params);
    }
    if params.error {
        return AgentEventKind::TurnFailed {
            reason: String::from_str("codex turn completed with error"),
        };
    }
    let status: &str = match field_str(pick(&params.status, &params.turn_status)) {
        Some(s) => s,
        None => "completed",
    };
    let v = chars_of(status);
    let l = crate::text::ascii_lower_vec(&v);
    let cancel = word_is(&l, "cancelled") || word_is(&l, "canceled") || word_is(&l, "aborted")
        || word_is(&l, "interrupted");
    let failure = cancel || word_is(&l, "failed") || word_is(&l, "error") || word_is(
        &l,
        "errored",
    );
    if failure {
        if cancel {
            AgentEventKind::TurnCancelled
        } else {
            AgentEventKind::TurnFailed {
                reason: concat3("codex turn ended with status '", status, "'"),
            }
        }
    } else {
        AgentEventKind::TurnCompleted { summary: concat3("codex turn completed (", status, ")") }
    }
}

pub open spec fn run_status_of(params: NotificationParams) -> RunStatus {
    let t = turn_completed_kind(params).0;
    if t == 2 {
        RunStatus::Cancelled
    } else if t == 1 {
        RunStatus::Failed
    } else {
        RunStatus::Completed
    }
}

/// The run status to persist for a `turn/completed` notification, in
/// lockstep with its envelope kind.
pub fn run_status_for_turn_completed(params: &NotificationParams) -> (r: RunStatus)
    ensures
        r == run_status_of(*params),
        !params.error && params.status is Absent && (params.turn_status matches JsonField::Text(t)
            && ascii_lower(t@) == "failed"@) ==> r == RunStatus::Failed,
{
    proof {
        law_turn_status_falls_back_to_turn(*params);
    }
    match map_turn_completed(params) {
        AgentEventKind::TurnCancelled => RunStatus::Cancelled,
        AgentEventKind::TurnFailed { .. } => RunStatus::Failed,
        _ => RunStatus::Completed,
    }
}

pub open spec fn approval_tool(kind: MethodKind) -> Seq<char> {
    match kind {
        MethodKind::RequestApprovalCommandExecution | MethodKind::RequestApprovalExec => {
            "command_execution"@
        },
        MethodKind::RequestApprovalFileChange | MethodKind::RequestApprovalApplyPatch => {
            "file_change"@
        },
        _ => "tool"@,
    }
}

/// The tool an approval request is about.
pub fn approval_tool_name(kind: MethodKind) -> (r: String)
    ensures
        r@ == approval_tool(kind),
{
    match kind {
        MethodKind::RequestApprovalCommandExecution | MethodKind::RequestApprovalExec => {
            String::from_str("command_execution")
        },
        MethodKind::RequestApprovalFileChange | MethodKind::RequestApprovalApplyPatch => {
            String::from_str("file_change")
        },
        _ => String::from_str("tool"),
    }
}

/// `requestId`, else `request_id`, else `id` (the first present one), when
/// it is a non-empty string; `codex-approval` otherwise.
pub open spec fn interaction_id_of(p: NotificationParams) -> Seq<char> {
    match field_text(first_present(p.request_id, first_present(p.request_id_snake, p.id))) {
        Some(s) => if s.len() > 0 {
            s
        } else {
            "codex-approval"@
        },
        None => "codex-approval"@,
    }
}

pub fn extract_interaction_id(params: &NotificationParams) -> (r: String)
    ensures
        r@ == interaction_id_of(*params),
{
    let f = pick(&params.request_id, pick(&params.request_id_snake, &params.id));
    match field_str(f) {
        Some(s) => if !s.is_empty() {
            String::from_str(s)
        } else {
            String::from_str("codex-approval")
        },
        None => String::from_str("codex-approval"),
    }
}

/// `input`, or its first `max_chars` characters followed by `…(truncated)`
/// when it is longer.
pub open spec fn truncated(input: Seq<char>, max_chars: nat) -> Seq<char> {
    if input.len() > max_chars {
        input.subrange(0, max_chars as int) + "…(truncated)"@
    } else {
        input
    }
}

pub fn truncate_for_envelope(input: &str, max_chars: usize) -> (r: String)
    ensures
        r@ == truncated(input@, max_chars as nat),
{
    let v = chars_of(input);
    if v.len() > max_chars {
        let head = string_of_range(&v, 0, max_chars);
        concat(head.as_str(), "…(truncated)")
    } else {
        string_of(&v)
    }
}


pub open spec fn item_type_or_default(p: NotificationParams) -> Seq<char> {
    match field_text(p.item_type) {
        Some(t) => t,
        None => "item"@,
    }
}

/// The human-readable detail of a provider notification.
pub open spec fn detail_of(kind: MethodKind, method: Seq<char>, p: NotificationParams) -> Seq<char> {
    match kind {
        MethodKind::Unknown => "unrecognized Codex notification method '"@ + truncated(method, 128)
            + "'; recorded as fallback"@,
        MethodKind::ThreadStatusChanged => "thread status → "@ + truncated(
            match field_text(p.status) {
                Some(s) => s,
                None => "unknown"@,
            },
            64,
        ),
        MethodKind::TokenUsageUpdated => "token usage updated"@,
        MethodKind::PlanUpdated | MethodKind::PlanDelta => "plan updated"@,
        MethodKind::AgentMessageDelta => "agent message delta"@,
        MethodKind::CommandExecutionOutputDelta => "command output delta"@,
        MethodKind::FileChangeOutputDelta => "file change delta"@,
        MethodKind::ItemStarted => "item started ("@ + truncated(item_type_or_default(p), 64)
            + ")"@,
        MethodKind::ItemCompleted => "item completed ("@ + truncated(item_type_or_default(p), 64)
            + ")"@,
        MethodKind::TaskStarted => "task started"@,
        MethodKind::TaskCompleted => "task completed"@,
        MethodKind::Initialized => "app-server initialized"@,
        MethodKind::ThreadStarted => "thread started"@,
        MethodKind::ThreadNameUpdated => "thread name updated"@,
        MethodKind::ThreadArchived => "thread archived"@,
        MethodKind::ThreadCompacted => "thread compacted"@,
        MethodKind::ThreadClosed => "thread closed"@,
        _ => classification_of(kind),
    }
}

/// `e` is the provider-notification envelope of `kind`.
pub open spec fn is_provider_notification(
    e: AgentEventKind,
    kind: MethodKind,
    method: Seq<char>,
    p: NotificationParams,
) -> bool {
    e matches AgentEventKind::ProviderNotification { provider, method: m, classification, detail }
        && provider@ == "codex"@ && m@ == truncated(method, 256) && classification@
        == classification_of(kind) && detail@ == truncated(detail_of(kind, method, p), 512)
}

fn detail_text(kind: MethodKind, method: &str, params: &NotificationParams) -> (r: String)
    ensures
        r@ == detail_of(kind, method@, *params),
{
    match kind {
        MethodKind::Unknown => {
            let t = truncate_for_envelope(method, 128);
            concat3(
                "unrecognized Codex notification method '",
                t.as_str(),
                "'; recorded as fallback",
            )
        },
        MethodKind::ThreadStatusChanged => {
            let status: &str = match field_str(&params.status) {
                Some(s) => s,
                None => "unknown",
            };
            let t = truncate_for_envelope(status, 64);
            concat("thread status → ", t.as_str())
        },
        MethodKind::TokenUsageUpdated => String::from_str("token usage updated"),
        MethodKind::PlanUpdated | MethodKind::PlanDelta => String::from_str("plan updated"),
        MethodKind::AgentMessageDelta => String::from_str("agent message delta"),
        MethodKind::CommandExecutionOutputDelta => String::from_str("command output delta"),
        MethodKind::FileChangeOutputDelta => String::from_str("file change delta"),
        MethodKind::ItemStarted | MethodKind::ItemCompleted => {
            let item: &str = match field_str(&params.item_type) {
                Some(s) => s,
                None => "item",
            };
            let t = truncate_for_envelope(item, 64);
            if kind == MethodKind::ItemStarted {
                concat3("item started (", t.as_str(), ")")
            } else {
                concat3("item completed (", t.as_str(), ")")
            }
        },
        MethodKind::TaskStarted => String::from_str("task started"),
        MethodKind::TaskCompleted => String::from_str("task completed"),
        MethodKind::Initialized => String::from_str("app-server initialized"),
        MethodKind::ThreadStarted => String::from_str("thread started"),
        MethodKind::ThreadNameUpdated => String::from_str("thread name updated"),
        MethodKind::ThreadArchived => String::from_str("thread archived"),
        MethodKind::ThreadCompacted => String::from_str("thread compacted"),
        MethodKind::ThreadClosed => String::from_str("thread closed"),
        _ => String::from_str(method_kind_classification(kind)),
    }
}

/// The diagnosable provider-notification envelope of a notification.
pub fn provider_notification(kind: MethodKind, method: &str, params: &NotificationParams) -> (r:
    AgentEventKind)
    ensures
        is_provider_notification(r, kind, method@, *params),
{
    let detail = detail_text(kind, method, params);
    AgentEventKind::ProviderNotification {
        provider: String::from_str(CODEX_PROVIDER),
        method: truncate_for_envelope(method, 256),
        classification: String::from_str(method_kind_classification(kind)),
        detail: truncate_for_envelope(detail.as_str(), 512),
    }
}

pub open spec fn is_approval_kind(kind: MethodKind) -> bool {
    kind == MethodKind::RequestApproval || kind == MethodKind::RequestApprovalCommandExecution
        || kind == MethodKind::RequestApprovalFileChange || kind
        == MethodKind::RequestApprovalApplyPatch || kind == MethodKind::RequestApprovalExec
}

/// `e` is the envelope kind of a notification of `kind`: lifecycle methods
/// get first-class kinds, approval requests an interaction request, and
/// everything else (the unknown ones included) a provider notification.
pub open spec fn envelope_kind(
    kind: MethodKind,
    method: Seq<char>,
    p: NotificationParams,
    e: AgentEventKind,
) -> bool {
    if kind == MethodKind::TurnStarted {
        e is TurnStarted
    } else if kind == MethodKind::TurnCompleted {
        kind_tag(e) == turn_completed_kind(p)
    } else if is_approval_kind(kind) {
        e matches AgentEventKind::InteractionRequested {
            state: InteractionState::AwaitingToolApproval { interaction_id, tool_name },
        } && interaction_id@ == interaction_id_of(p) && tool_name@ == approval_tool(kind)
    } else {
        is_provider_notification(e, kind, method, p)
    }
}

fn map_method_kind(kind: MethodKind, method: &str, params: &NotificationParams) -> (r: Vec<
    AgentEventKind,
>)
    ensures
        r@.len() == 1,
        envelope_kind(kind, method@, *params, r@[0]),
{
    let e = match kind {
        MethodKind::TurnStarted => AgentEventKind::TurnStarted,
        MethodKind::TurnCompleted => map_turn_completed(params),
        MethodKind::RequestApproval
        | MethodKind::RequestApprovalCommandExecution
        | MethodKind::RequestApprovalFileChange
        | MethodKind::RequestApprovalApplyPatch
        | MethodKind::RequestApprovalExec => AgentEventKind::InteractionRequested {
            state: InteractionState::AwaitingToolApproval {
                interaction_id: extract_interaction_id(params),
                tool_name: approval_tool_name(kind),
            },
        },
        _ => provider_notification(kind, method, params),
    };
    let mut r: Vec<AgentEventKind> = Vec::new();
    r.push(e);
    r
}

/// One Codex notification mapped into runtime envelope kinds.
#[derive(Debug, Clone)]
pub struct NormalizedCodexEnvelope {
    /// Raw JSON-RPC `method` string.
    pub method: String,
    /// Stable classification name of the method kind.
    pub classification: String,
    kinds: Vec<AgentEventKind>,
    /// Whether the method was not recognized.
    pub used_fallback: bool,
}

impl NormalizedCodexEnvelope {
    /// The envelope kinds, never empty.
    pub closed spec fn kind_seq(&self) -> Seq<AgentEventKind> {
        self.kinds@
    }

    pub closed spec fn method_text(&self) -> Seq<char> {
        self.method@
    }

    pub closed spec fn class_text(&self) -> Seq<char> {
        self.classification@
    }

    pub closed spec fn fallback(&self) -> bool {
        self.used_fallback
    }

    fn new(method: String, classification: String, kinds: Vec<AgentEventKind>, used_fallback: bool) -> (r:
        Self)
        requires
            kinds@.len() > 0,
        ensures
            r.method_text() == method@,
            r.class_text() == classification@,
            r.kind_seq() == kinds@,
            r.fallback() == used_fallback,
    {
        NormalizedCodexEnvelope { method, classification, kinds, used_fallback }
    }

    /// The envelope kinds produced for the notification.
    pub fn kinds(&self) -> (r: &[AgentEventKind])
        ensures
            r@ == self.kind_seq(),
    {
        self.kinds.as_slice()
    }

    /// The first envelope kind.
    pub fn primary_kind(&self) -> (r: Option<&AgentEventKind>)
        ensures
            match r {
                Some(k) => self.kind_seq().len() > 0 && *k == self.kind_seq()[0],
                None => self.kind_seq().len() == 0,
            },
    {
        if self.kinds.len() > 0 {
            Some(&self.kinds[0])
        } else {
            None
        }
    }
}

/// Classifies a Codex app-server notification into runtime event kinds;
/// unknown methods take the diagnosable fallback.
pub fn normalize_codex_notification(method: &str, params: &NotificationParams) -> (r:
    NormalizedCodexEnvelope)
    ensures
        r.method_text() == method@,
        r.class_text() == classification_of(method_kind_of(method@)),
        r.fallback() == (method_kind_of(method@) == MethodKind::Unknown),
        r.kind_seq().len() == 1,
        envelope_kind(method_kind_of(method@), method@, *params, r.kind_seq()[0]),
{
    let mk = method_kind_from(method);
    let classification = String::from_str(method_kind_classification(mk));
    let used_fallback = mk == MethodKind::Unknown;
    let kinds = map_method_kind(mk, method, params);
    NormalizedCodexEnvelope::new(String::from_str(method), classification, kinds, used_fallback)
}

// ---------------------------------------------------------------------------
// Code UI lifecycle status
// ---------------------------------------------------------------------------
/// Lifecycle status of a Code UI session.
#[derive(Clone, Copy, Debug, PartialEq, Eq, Structural)]
pub enum CodeUiSessionStatus {
    Idle,
    Thinking,
    ExecutingTool,
    AwaitingInteraction,
    Completed,
    Error,
    IndeterminateSideEffect,
}

/// The wire name of a session status.
pub open spec fn status_wire_name(s: CodeUiSessionStatus) -> Seq<char> {
    match s {
        CodeUiSessionStatus::Idle => "idle"@,
        CodeUiSessionStatus::Thinking => "thinking"@,
        CodeUiSessionStatus::ExecutingTool => "executing_tool"@,
        CodeUiSessionStatus::AwaitingInteraction => "awaiting_interaction"@,
        CodeUiSessionStatus::Completed => "completed"@,
        CodeUiSessionStatus::Error => "error"@,
        CodeUiSessionStatus::IndeterminateSideEffect => "indeterminate_side_effect"@,
    }
}

impl CodeUiSessionStatus {
    /// The status as the browser wire names it.
    pub fn wire_name(self) -> (r: &'static str)
        ensures
            r@ == status_wire_name(self),
    {
        match self {
            CodeUiSessionStatus::Idle => "idle",
            CodeUiSessionStatus::Thinking => "thinking",
            CodeUiSessionStatus::ExecutingTool => "executing_tool",
            CodeUiSessionStatus::AwaitingInteraction => "awaiting_interaction",
            CodeUiSessionStatus::Completed => "completed",
            CodeUiSessionStatus::Error => "error",
            CodeUiSessionStatus::IndeterminateSideEffect => "indeterminate_side_effect",
        }
    }
}

/// Status of a Code UI interaction.
#[derive(Clone, Copy, Debug, PartialEq, Eq, Structural)]
pub enum CodeUiInteractionStatus {
    Pending,
    Resolved,
    Cancelled,
}

/// One interaction of a Code UI session.
#[derive(Clone, Debug)]
pub struct CodeUiInteraction {
    pub id: String,
    pub status: CodeUiInteractionStatus,
}

/// The parts of a Code UI session snapshot that lifecycle events drive.
#[derive(Clone, Debug)]
pub struct CodeUiSessionSnapshot {
    pub status: CodeUiSessionStatus,
    pub interactions: Vec<CodeUiInteraction>,
}

/// The status after one envelope kind, given whether an interaction is
/// still pending.
pub open spec fn status_after(s: CodeUiSessionStatus, pending: bool, k: AgentEventKind) -> CodeUiSessionStatus {
    match k {
        AgentEventKind::TurnQueued | AgentEventKind::TurnStarted => CodeUiSessionStatus::Thinking,
        AgentEventKind::TurnCompleted { .. } => CodeUiSessionStatus::Completed,
        AgentEventKind::TurnFailed { .. } => CodeUiSessionStatus::Error,
        AgentEventKind::TurnCancelled => CodeUiSessionStatus::Idle,
        AgentEventKind::TurnIndeterminateSideEffect { .. } => {
            CodeUiSessionStatus::IndeterminateSideEffect
        },
        AgentEventKind::CancelRequested => CodeUiSessionStatus::Thinking,
        AgentEventKind::InteractionRequested { .. } => if pending {
            CodeUiSessionStatus::AwaitingInteraction
        } else {
            s
        },
        AgentEventKind::InteractionResponded { .. } => if !pending && s
            == CodeUiSessionStatus::AwaitingInteraction {
            CodeUiSessionStatus::Thinking
        } else {
            s
        },
        AgentEventKind::ProviderNotification { .. } => s,
    }
}

pub open spec fn status_after_all(
    s: CodeUiSessionStatus,
    pending: bool,
    ks: Seq<AgentEventKind>,
) -> CodeUiSessionStatus
    decreases ks.len(),
{
    if ks.len() == 0 {
        s
    } else {
        status_after(status_after_all(s, pending, ks.drop_last()), pending, ks.last())
    }
}

pub open spec fn has_pending(is: Seq<CodeUiInteraction>) -> bool {
    exists|k: int| 0 <= k < is.len() && (#[trigger] is[k]).status == CodeUiInteractionStatus::Pending
}

/// Overlays the lifecycle carried by `kinds` onto the snapshot's status; an
/// interaction request only makes the session await an interaction while
/// one is still pending.
pub fn apply_agent_event_kinds_to_code_ui_status(
    snapshot: &mut CodeUiSessionSnapshot,
    kinds: &[AgentEventKind],
)
    ensures
        final(snapshot).status == status_after_all(
            old(snapshot).status,
            has_pending(old(snapshot).interactions@),
            kinds@,
        ),
        final(snapshot).interactions@ == old(snapshot).interactions@,
{
    let mut pending = false;
    let mut j: usize = 0;
    while j < snapshot.interactions.len()
        invariant
            j <= snapshot.interactions@.len(),
            snapshot.interactions@ == old(snapshot).interactions@,
            snapshot.status == old(snapshot).status,
            pending == exists|k: int|
                0 <= k < j && (#[trigger] snapshot.interactions@[k]).status
                    == CodeUiInteractionStatus::Pending,
        decreases snapshot.interactions.len() - j,
    {
        if snapshot.interactions[j].status == CodeUiInteractionStatus::Pending {
            pending = true;
        }
        j += 1;
    }
    let ghost s0 = snapshot.status;
    let mut i: usize = 0;
    assert(kinds@.subrange(0, 0) =~= Seq::<AgentEventKind>::empty());
    while i < kinds.len()
        invariant
            i <= kinds@.len(),
            snapshot.interactions@ == old(snapshot).interactions@,
            s0 == old(snapshot).status,
            pending == has_pending(old(snapshot).interactions@),
            snapshot.status == status_after_all(s0, pending, kinds@.subrange(0, i as int)),
        decreases kinds.len() - i,
    {
        assert(kinds@.subrange(0, i + 1).drop_last() =~= kinds@.subrange(0, i as int));
        let next = match &kinds[i] {
            AgentEventKind::TurnQueued | AgentEventKind::TurnStarted => CodeUiSessionStatus::Thinking,
            AgentEventKind::TurnCompleted { .. } => CodeUiSessionStatus::Completed,
            AgentEventKind::TurnFailed { .. } => CodeUiSessionStatus::Error,
            AgentEventKind::TurnCancelled => CodeUiSessionStatus::Idle,
            AgentEventKind::TurnIndeterminateSideEffect { .. } => {
                CodeUiSessionStatus::IndeterminateSideEffect
            },
            AgentEventKind::CancelRequested => CodeUiSessionStatus::Thinking,
            AgentEventKind::InteractionRequested { .. } => if pending {
                CodeUiSessionStatus::AwaitingInteraction
            } else {
                snapshot.status
            },
            AgentEventKind::InteractionResponded { .. } => if !pending && snapshot.status
                == CodeUiSessionStatus::AwaitingInteraction {
                CodeUiSessionStatus::Thinking
            } else {
                snapshot.status
            },
            AgentEventKind::ProviderNotification { .. } => snapshot.status,
        };
        snapshot.status = next;
        i += 1;
    }
    assert(kinds@.subrange(0, kinds@.len() as int) =~= kinds@);
}


/// The status of a `turn/completed` notification is its top-level `status`
/// when present, else `/turn/status`: with `status` absent the notification
/// is classified as if `/turn/status` were its status, with `status` present
/// `/turn/status` plays no part, and a turn whose `/turn/status` reads
/// `failed` (in any case) with no top-level status and no error fails, and
/// so does its run.
pub proof fn law_turn_status_falls_back_to_turn(p: NotificationParams)
    ensures
        p.status is Absent ==> turn_completed_kind(p) == turn_completed_kind(
            NotificationParams { status: p.turn_status, ..p },
        ),
        !(p.status is Absent) ==> turn_completed_kind(p) == turn_completed_kind(
            NotificationParams { turn_status: JsonField::Absent, ..p },
        ),
        !p.error && p.status is Absent && (p.turn_status matches JsonField::Text(t) && ascii_lower(t@)
            == "failed"@) ==> turn_completed_kind(p) == (1int, "codex turn ended with status '"@
            + field_text(p.turn_status)->0 + "'"@) && run_status_of(p) == RunStatus::Failed,
{
    reveal_strlit("failed");
    reveal_strlit("cancelled");
    reveal_strlit("canceled");
    reveal_strlit("aborted");
    reveal_strlit("interrupted");
    if !p.error && p.status is Absent && (p.turn_status matches JsonField::Text(t) && ascii_lower(t@)
        == "failed"@) {
        let l = ascii_lower(turn_status(p));
        assert(l == "failed"@);
        assert(l.len() == 6);
        assert("cancelled"@.len() == 9 && "canceled"@.len() == 8 && "aborted"@.len() == 7
            && "interrupted"@.len() == 11);
        assert(!is_cancel_status(l));
        assert(is_failure_status(l));
    }
}

/// The persisted run status follows the envelope kind of the same
/// `turn/completed` notification: a failed or cancelled turn is never
/// persisted as completed, and a completed one is never persisted as failed
/// or cancelled.
pub proof fn law_run_status_in_lockstep(p: NotificationParams)
    ensures
        (run_status_of(p) == RunStatus::Completed) == (turn_completed_kind(p).0 == 0),
        (run_status_of(p) == RunStatus::Failed) == (turn_completed_kind(p).0 == 1),
        (run_status_of(p) == RunStatus::Cancelled) == (turn_completed_kind(p).0 == 2),
{
}

} // verus!
