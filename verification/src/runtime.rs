//! Runtime turn admission: the Phase 1 Plan review and network-policy gate
//! decisions, their acknowledgement deliveries, and confirmed-plan execution
//! admission through the serialized worker queue.
use vstd::prelude::*;

use crate::text::{concat, concat3, norm, normalize, string_views, str_eq, trim, trim_str, word_is};

verus! {

// ---------------------------------------------------------------------------
// Worker surface
// ---------------------------------------------------------------------------
/// Why the runtime worker refused or failed a turn.
#[derive(Debug, Clone)]
pub enum RuntimeWorkerError {
    /// A session or turn identifier was empty.
    InvalidTurnIdentifier,
    /// The turn could not run; the text says why.
    ExecutionFailed(String),
}

/// How a turn body finished.
#[derive(Debug, Clone)]
pub enum RuntimeTurnExecution {
    /// The turn completed.
    Completed { summary: String },
    /// The turn completed and queued work stays held behind the next gate.
    CompletedHoldQueued { summary: String },
    /// The turn completed and queued work is discarded.
    CompletedDiscardQueued { summary: String },
}

/// One turn submitted to the serialized worker.
#[derive(Debug, Clone)]
pub struct TurnRequest {
    pub session_id: String,
    pub turn_id: String,
    pub input: String,
    pub mutating: bool,
}

impl TurnRequest {
    pub fn new(session_id: &str, turn_id: &str, input: &str, mutating: bool) -> (r: Self)
        ensures
            r.session_id@ == session_id@,
            r.turn_id@ == turn_id@,
            r.input@ == input@,
            r.mutating == mutating,
    {
        TurnRequest {
            session_id: String::from_str(session_id),
            turn_id: String::from_str(turn_id),
            input: String::from_str(input),
            mutating,
        }
    }
}

// ---------------------------------------------------------------------------
// Phase 1 planning tool loop
// ---------------------------------------------------------------------------
/// The tool-loop policy fields that Phase 1 planning pins.
#[derive(Debug, Clone)]
pub struct ToolLoopConfig {
    pub allowed_tools: Option<Vec<String>>,
    pub terminal_tools: Option<Vec<String>>,
    pub max_turns: Option<usize>,
}

/// The read-only tools Phase 1 may call, plus its one terminal tool.
pub open spec fn phase1_allowed_tools() -> Seq<Seq<char>> {
    seq![
        "read_file"@,
        "list_dir"@,
        "grep_files"@,
        "search_files"@,
        "web_search"@,
        "submit_plan_draft"@,
    ]
}

/// Phase 1 planning tool-loop policy: only read-only tools and
/// `submit_plan_draft`, which is the only terminal tool, for at most 12 turns.
pub fn phase1_plan_tool_loop_config(config: ToolLoopConfig) -> (r: ToolLoopConfig)
    ensures
        r.allowed_tools matches Some(v) && string_views(v@) == phase1_allowed_tools(),
        r.terminal_tools matches Some(v) && string_views(v@) == seq!["submit_plan_draft"@],
        r.max_turns == Some(12usize),
{
    let mut allowed: Vec<String> = Vec::new();
    allowed.push(String::from_str("read_file"));
    allowed.push(String::from_str("list_dir"));
    allowed.push(String::from_str("grep_files"));
    allowed.push(String::from_str("search_files"));
    allowed.push(String::from_str("web_search"));
    allowed.push(String::from_str("submit_plan_draft"));
    let mut terminal: Vec<String> = Vec::new();
    terminal.push(String::from_str("submit_plan_draft"));
    assert(string_views(allowed@) =~= phase1_allowed_tools());
    assert(string_views(terminal@) =~= seq!["submit_plan_draft"@]);
    let mut config = config;
    config.allowed_tools = Some(allowed);
    config.terminal_tools = Some(terminal);
    config.max_turns = Some(12);
    config
}

// ---------------------------------------------------------------------------
// Plan review decision
// ---------------------------------------------------------------------------
/// Developer's decision on a pending Plan review.
#[derive(Clone, Copy, Debug, PartialEq, Eq, Structural)]
pub enum PlanReviewDecision {
    /// Accept the plan draft and proceed to the network-policy gate.
    Execute,
    /// Reject the draft and wait for a plain-text plan revision.
    Revise,
    /// Abandon the review; no execution is started.
    Cancel,
}

/// The decision a (trimmed, lower-cased) wire id names.
pub open spec fn plan_decision_of(w: Seq<char>) -> Option<PlanReviewDecision> {
    if w == "execute"@ || w == "confirm"@ {
        Some(PlanReviewDecision::Execute)
    } else if w == "modify"@ || w == "revise"@ {
        Some(PlanReviewDecision::Revise)
    } else if w == "cancel"@ {
        Some(PlanReviewDecision::Cancel)
    } else {
        None
    }
}

pub open spec fn plan_wire_id(d: PlanReviewDecision) -> Seq<char> {
    match d {
        PlanReviewDecision::Execute => "execute"@,
        PlanReviewDecision::Revise => "modify"@,
        PlanReviewDecision::Cancel => "cancel"@,
    }
}

impl PlanReviewDecision {
    /// Stable wire id (`execute` / `modify` / `cancel`).
    pub fn wire_id(self) -> (r: &'static str)
        ensures
            r@ == plan_wire_id(self),
    {
        match self {
            PlanReviewDecision::Execute => "execute",
            PlanReviewDecision::Revise => "modify",
            PlanReviewDecision::Cancel => "cancel",
        }
    }

    /// Parses a wire id, ignoring surrounding whitespace and ASCII case;
    /// `confirm` and `revise` are accepted as aliases.
    pub fn from_wire_id(id: &str) -> (r: Option<Self>)
        ensures
            r == plan_decision_of(norm(id@)),
    {
        let w = normalize(id);
        if word_is(&w, "execute") || word_is(&w, "confirm") {
            Some(PlanReviewDecision::Execute)
        } else if word_is(&w, "modify") || word_is(&w, "revise") {
            Some(PlanReviewDecision::Revise)
        } else if word_is(&w, "cancel") {
            Some(PlanReviewDecision::Cancel)
        } else {
            None
        }
    }

    /// Legacy persisted choice index (0=Execute, 1=Modify, 2=Cancel).
    pub fn from_choice_index(index: usize) -> (r: Option<Self>)
        ensures
            index == 0 ==> r == Some(PlanReviewDecision::Execute),
            index == 1 ==> r == Some(PlanReviewDecision::Revise),
            index == 2 ==> r == Some(PlanReviewDecision::Cancel),
            index > 2 ==> r is None,
    {
        match index {
            0 => Some(PlanReviewDecision::Execute),
            1 => Some(PlanReviewDecision::Revise),
            2 => Some(PlanReviewDecision::Cancel),
            _ => None,
        }
    }
}

// ---------------------------------------------------------------------------
// Network-policy decision
// ---------------------------------------------------------------------------
/// Developer's decision on the post-plan network-policy gate.
#[derive(Clone, Copy, Debug, PartialEq, Eq, Structural)]
pub enum NetworkPolicyDecision {
    Deny,
    Allow,
    /// Return to the Plan review dialog without releasing execution.
    Back,
}

pub open spec fn network_decision_of(w: Seq<char>) -> Option<NetworkPolicyDecision> {
    if w == "network-deny"@ || w == "deny"@ {
        Some(NetworkPolicyDecision::Deny)
    } else if w == "network-allow"@ || w == "allow"@ {
        Some(NetworkPolicyDecision::Allow)
    } else if w == "back"@ {
        Some(NetworkPolicyDecision::Back)
    } else {
        None
    }
}

pub open spec fn network_wire_id(d: NetworkPolicyDecision) -> Seq<char> {
    match d {
        NetworkPolicyDecision::Deny => "network-deny"@,
        NetworkPolicyDecision::Allow => "network-allow"@,
        NetworkPolicyDecision::Back => "back"@,
    }
}

impl NetworkPolicyDecision {
    /// Stable wire id (`network-deny` / `network-allow` / `back`).
    pub fn wire_id(self) -> (r: &'static str)
        ensures
            r@ == network_wire_id(self),
    {
        match self {
            NetworkPolicyDecision::Deny => "network-deny",
            NetworkPolicyDecision::Allow => "network-allow",
            NetworkPolicyDecision::Back => "back",
        }
    }

    /// Parses a wire id, ignoring surrounding whitespace and ASCII case;
    /// `deny` and `allow` are accepted as aliases.
    pub fn from_wire_id(id: &str) -> (r: Option<Self>)
        ensures
            r == network_decision_of(norm(id@)),
    {
        let w = normalize(id);
        if word_is(&w, "network-deny") || word_is(&w, "deny") {
            Some(NetworkPolicyDecision::Deny)
        } else if word_is(&w, "network-allow") || word_is(&w, "allow") {
            Some(NetworkPolicyDecision::Allow)
        } else if word_is(&w, "back") {
            Some(NetworkPolicyDecision::Back)
        } else {
            None
        }
    }

    /// Legacy persisted choice index (0=Deny, 1=Allow, 2=Back).
    pub fn from_choice_index(index: usize) -> (r: Option<Self>)
        ensures
            index == 0 ==> r == Some(NetworkPolicyDecision::Deny),
            index == 1 ==> r == Some(NetworkPolicyDecision::Allow),
            index == 2 ==> r == Some(NetworkPolicyDecision::Back),
            index > 2 ==> r is None,
    {
        match index {
            0 => Some(NetworkPolicyDecision::Deny),
            1 => Some(NetworkPolicyDecision::Allow),
            2 => Some(NetworkPolicyDecision::Back),
            _ => None,
        }
    }

    /// Whether the decision grants network access; `Back` decides nothing.
    pub fn network_access(self) -> (r: Option<bool>)
        ensures
            r == match self {
                NetworkPolicyDecision::Deny => Some(false),
                NetworkPolicyDecision::Allow => Some(true),
                NetworkPolicyDecision::Back => None::<bool>,
            },
    {
        match self {
            NetworkPolicyDecision::Deny => Some(false),
            NetworkPolicyDecision::Allow => Some(true),
            NetworkPolicyDecision::Back => None,
        }
    }
}

/// Stable interaction id of the network-policy gate that follows Plan
/// Execute: `<plan_id>:network-policy`, or `post-plan-network-policy` when
/// the plan has no id.
pub fn network_policy_interaction_id(plan_id: Option<&str>) -> (r: String)
    ensures
        r@ == match plan_id {
            Some(p) => p@ + ":network-policy"@,
            None => "post-plan-network-policy"@,
        },
{
    match plan_id {
        Some(p) => concat(p, ":network-policy"),
        None => String::from_str("post-plan-network-policy"),
    }
}

// ---------------------------------------------------------------------------
// Gate acknowledgement deliveries
// ---------------------------------------------------------------------------
/// `ExecutionFailed` with `text`.
pub open spec fn failed_with(r: RuntimeWorkerError, text: Seq<char>) -> bool {
    r matches RuntimeWorkerError::ExecutionFailed(m) && m@ == text
}

/// Delivery of a Plan review answer.
#[derive(Debug, Clone, Default)]
pub struct PlanReviewAckDelivery;

impl PlanReviewAckDelivery {
    pub fn new() -> (r: Self) {
        PlanReviewAckDelivery
    }

    /// Accepts exactly the answers that name a Plan review decision.
    pub fn validate(&self, response: &str) -> (r: Result<(), RuntimeWorkerError>)
        ensures
            r is Ok <==> plan_decision_of(norm(response@)) is Some,
            r matches Err(e) ==> failed_with(
                e,
                "unrecognized Plan review response '"@ + response@
                    + "'; expected one of execute/modify/cancel"@,
            ),
    {
        match PlanReviewDecision::from_wire_id(response) {
            Some(_) => Ok(()),
            None => Err(
                RuntimeWorkerError::ExecutionFailed(
                    concat3(
                        "unrecognized Plan review response '",
                        response,
                        "'; expected one of execute/modify/cancel",
                    ),
                ),
            ),
        }
    }

    /// The Plan review gate's resolution is persisted after its terminal.
    pub fn persist_interaction_resolved_after_terminal(&self) -> (r: bool)
        ensures
            r,
    {
        true
    }

    /// Execute parks queued work behind the network gate; Revise and Cancel
    /// discard it.
    pub fn deliver(&self, response: &str) -> (r: Result<RuntimeTurnExecution, RuntimeWorkerError>)
        ensures
            match plan_decision_of(norm(response@)) {
                Some(PlanReviewDecision::Execute) => r matches Ok(
                    RuntimeTurnExecution::CompletedHoldQueued { summary },
                ) && summary@ == "Plan confirmed; awaiting network policy choice"@,
                Some(PlanReviewDecision::Revise) => r matches Ok(
                    RuntimeTurnExecution::CompletedDiscardQueued { summary },
                ) && summary@ == "Plan revision requested"@,
                Some(PlanReviewDecision::Cancel) => r matches Ok(
                    RuntimeTurnExecution::CompletedDiscardQueued { summary },
                ) && summary@ == "Plan review cancelled"@,
                None => r matches Err(e) && failed_with(
                    e,
                    "unrecognized Plan review response '"@ + response@ + "'"@,
                ),
            },
    {
        match PlanReviewDecision::from_wire_id(response) {
            Some(PlanReviewDecision::Execute) => Ok(
                RuntimeTurnExecution::CompletedHoldQueued {
                    summary: String::from_str("Plan confirmed; awaiting network policy choice"),
                },
            ),
            Some(PlanReviewDecision::Revise) => Ok(
                RuntimeTurnExecution::CompletedDiscardQueued {
                    summary: String::from_str("Plan revision requested"),
                },
            ),
            Some(PlanReviewDecision::Cancel) => Ok(
                RuntimeTurnExecution::CompletedDiscardQueued {
                    summary: String::from_str("Plan review cancelled"),
                },
            ),
            None => Err(
                RuntimeWorkerError::ExecutionFailed(
                    concat3("unrecognized Plan review response '", response, "'"),
                ),
            ),
        }
    }
}

/// Delivery of a network-policy answer.
#[derive(Debug, Clone, Default)]
pub struct NetworkPolicyAckDelivery;

impl NetworkPolicyAckDelivery {
    pub fn new() -> (r: Self) {
        NetworkPolicyAckDelivery
    }

    /// Accepts exactly the answers that name a network-policy decision.
    pub fn validate(&self, response: &str) -> (r: Result<(), RuntimeWorkerError>)
        ensures
            r is Ok <==> network_decision_of(norm(response@)) is Some,
            r matches Err(e) ==> failed_with(
                e,
                "unrecognized network policy response '"@ + response@
                    + "'; expected one of network-deny/network-allow/back"@,
            ),
    {
        match NetworkPolicyDecision::from_wire_id(response) {
            Some(_) => Ok(()),
            None => Err(
                RuntimeWorkerError::ExecutionFailed(
                    concat3(
                        "unrecognized network policy response '",
                        response,
                        "'; expected one of network-deny/network-allow/back",
                    ),
                ),
            ),
        }
    }

    /// The network gate's resolution is persisted after its terminal.
    pub fn persist_interaction_resolved_after_terminal(&self) -> (r: bool)
        ensures
            r,
    {
        true
    }

    /// Allow and Deny complete the policy turn; Back drops the work held behind
    /// the network fence so that the Plan review opens again.
    pub fn deliver(&self, response: &str) -> (r: Result<RuntimeTurnExecution, RuntimeWorkerError>)
        ensures
            match network_decision_of(norm(response@)) {
                Some(NetworkPolicyDecision::Deny) => r matches Ok(
                    RuntimeTurnExecution::Completed { summary },
                ) && summary@ == "Network policy: deny; ready to hand off plan execution"@,
                Some(NetworkPolicyDecision::Allow) => r matches Ok(
                    RuntimeTurnExecution::Completed { summary },
                ) && summary@ == "Network policy: allow; ready to hand off plan execution"@,
                Some(NetworkPolicyDecision::Back) => r matches Ok(
                    RuntimeTurnExecution::CompletedDiscardQueued { summary },
                ) && summary@ == "Returned to plan review from network policy"@,
                None => r matches Err(e) && failed_with(
                    e,
                    "unrecognized network policy response '"@ + response@ + "'"@,
                ),
            },
    {
        match NetworkPolicyDecision::from_wire_id(response) {
            Some(NetworkPolicyDecision::Deny) => Ok(
                RuntimeTurnExecution::Completed {
                    summary: String::from_str(
                        "Network policy: deny; ready to hand off plan execution",
                    ),
                },
            ),
            Some(NetworkPolicyDecision::Allow) => Ok(
                RuntimeTurnExecution::Completed {
                    summary: String::from_str(
                        "Network policy: allow; ready to hand off plan execution",
                    ),
                },
            ),
            Some(NetworkPolicyDecision::Back) => Ok(
                RuntimeTurnExecution::CompletedDiscardQueued {
                    summary: String::from_str("Returned to plan review from network policy"),
                },
            ),
            None => Err(
                RuntimeWorkerError::ExecutionFailed(
                    concat3("unrecognized network policy response '", response, "'"),
                ),
            ),
        }
    }
}


// ---------------------------------------------------------------------------
// Confirmed plan execution admission
// ---------------------------------------------------------------------------
/// Input marker of a confirmed-plan execution turn.
pub const PLAN_EXECUTION_TURN_INPUT: &'static str = "runtime:plan_execution";

pub open spec fn plan_execution_marker() -> Seq<char> {
    "runtime:plan_execution"@
}

/// A mutating turn whose trimmed input is the plan-execution marker.
pub open spec fn is_plan_execution(request: TurnRequest) -> bool {
    request.mutating && trim(request.input@) == plan_execution_marker()
}

/// A mutating turn that the worker serializes like any other turn and that
/// carries the plan-execution marker.
pub fn plan_execution_turn_request(session_id: &str, turn_id: &str) -> (r: TurnRequest)
    ensures
        r.session_id@ == session_id@,
        r.turn_id@ == turn_id@,
        r.input@ == plan_execution_marker(),
        r.mutating,
{
    TurnRequest::new(session_id, turn_id, PLAN_EXECUTION_TURN_INPUT, true)
}

/// Whether `request` is a confirmed-plan execution turn.
pub fn is_plan_execution_turn(request: &TurnRequest) -> (r: bool)
    ensures
        r == is_plan_execution(*request),
{
    if !request.mutating {
        return false;
    }
    let t = trim_str(request.input.as_str());
    word_is(&t, PLAN_EXECUTION_TURN_INPUT)
}

/// What the shared tool boundary answered for `apply_patch`.
#[derive(Debug, Clone)]
pub struct ToolDecision {
    pub allowed: bool,
    pub reason: String,
}

/// Fails closed when the tool boundary denies the canonical mutating tool.
pub fn ensure_plan_execution_mutating_gate(decision: &ToolDecision) -> (r: Result<
    (),
    RuntimeWorkerError,
>)
    ensures
        r is Ok <==> decision.allowed,
        r matches Err(e) ==> failed_with(
            e,
            "confirmed plan execution denied by runtime tool boundary: "@ + decision.reason@,
        ),
{
    if !decision.allowed {
        return Err(
            RuntimeWorkerError::ExecutionFailed(
                concat(
                    "confirmed plan execution denied by runtime tool boundary: ",
                    decision.reason.as_str(),
                ),
            ),
        );
    }
    Ok(())
}

/// The staging key of a turn.
pub fn staging_key(session_id: &str, turn_id: &str) -> (r: (String, String))
    ensures
        r.0@ == session_id@,
        r.1@ == turn_id@,
{
    (String::from_str(session_id), String::from_str(turn_id))
}

/// An execution body staged for one `(session, turn)`.
pub struct StagedRun<R> {
    pub session_id: String,
    pub turn_id: String,
    pub runner: R,
}

pub open spec fn keyed<R>(e: StagedRun<R>, s: Seq<char>, t: Seq<char>) -> bool {
    e.session_id@ == s && e.turn_id@ == t
}

pub open spec fn staged_at<R>(q: Seq<StagedRun<R>>, s: Seq<char>, t: Seq<char>) -> bool {
    exists|k: int| 0 <= k < q.len() && keyed(#[trigger] q[k], s, t)
}

/// No two staged bodies share a key.
pub open spec fn keys_unique<R>(q: Seq<StagedRun<R>>) -> bool {
    forall|i: int, j: int|
        0 <= i < j < q.len() ==> !keyed(#[trigger] q[i], (#[trigger] q[j]).session_id@, q[j].turn_id@)
}

/// Where the body of `(s, t)` is staged, or -1.
pub open spec fn key_index<R>(q: Seq<StagedRun<R>>, s: Seq<char>, t: Seq<char>) -> int {
    if staged_at(q, s, t) {
        choose|k: int| 0 <= k < q.len() && keyed(#[trigger] q[k], s, t)
    } else {
        -1
    }
}

/// `staged-key` message of a second stage for the same turn.
pub open spec fn already_staged_text(s: Seq<char>, t: Seq<char>) -> Seq<char> {
    "confirmed plan execution already staged for session "@ + s + " turn "@ + t
}

/// `no runner` message of an admitted turn whose body is missing.
pub open spec fn not_staged_text(s: Seq<char>, t: Seq<char>) -> Seq<char> {
    "confirmed plan execution was admitted but no runner was staged for session "@ + s
        + " turn "@ + t
}

/// Runs one staged confirmed-plan body per admitted plan-execution turn.
pub struct DeferredPlanExecutionExecutor<R> {
    pending: Vec<StagedRun<R>>,
}

impl<R> DeferredPlanExecutionExecutor<R> {
    #[verifier::type_invariant]
    spec fn unique_keys(self) -> bool {
        keys_unique(self.pending@)
    }

    /// The staged bodies, oldest first.
    pub closed spec fn staged(&self) -> Seq<StagedRun<R>> {
        self.pending@
    }

    pub fn new() -> (r: Self)
        ensures
            r.staged() == Seq::<StagedRun<R>>::empty(),
    {
        DeferredPlanExecutionExecutor { pending: Vec::new() }
    }

    fn find(&self, s: &str, t: &str) -> (r: Option<usize>)
        ensures
            match r {
                Some(i) => i < self.staged().len() && i == key_index(self.staged(), s@, t@),
                None => !staged_at(self.staged(), s@, t@),
            },
    {
        proof {
            use_type_invariant(self);
        }
        let mut i: usize = 0;
        while i < self.pending.len()
            invariant
                i <= self.pending@.len(),
                keys_unique(self.pending@),
                forall|k: int| 0 <= k < i ==> !keyed(#[trigger] self.pending@[k], s@, t@),
            decreases self.pending.len() - i,
        {
            let e = &self.pending[i];
            if str_eq(e.session_id.as_str(), s) && str_eq(e.turn_id.as_str(), t) {
                proof {
                    assert(keyed(self.pending@[i as int], s@, t@));
                    let k = key_index(self.pending@, s@, t@);
                    if k != i {
                        if k < i {
                            assert(!keyed(self.pending@[k], s@, t@));
                        } else {
                            assert(!keyed(self.pending@[i as int], self.pending@[k].session_id@, self.pending@[k].turn_id@));
                        }
                    }
                }
                return Some(i);
            }
            i += 1;
        }
        None
    }

    /// Stages the body of `(session_id, turn_id)` before the turn is
    /// submitted; empty identifiers and a second body for the same turn are
    /// refused and leave the staged bodies unchanged.
    pub fn stage_sync(&mut self, session_id: &str, turn_id: &str, runner: R) -> (r: Result<
        (),
        RuntimeWorkerError,
    >)
        ensures
            session_id@.len() == 0 || turn_id@.len() == 0 ==> (r matches Err(
                RuntimeWorkerError::InvalidTurnIdentifier,
            )) && final(self).staged() == old(self).staged(),
            session_id@.len() > 0 && turn_id@.len() > 0 && staged_at(
                old(self).staged(),
                session_id@,
                turn_id@,
            ) ==> (r matches Err(e) && failed_with(e, already_staged_text(session_id@, turn_id@)))
                && final(self).staged() == old(self).staged(),
            session_id@.len() > 0 && turn_id@.len() > 0 && !staged_at(
                old(self).staged(),
                session_id@,
                turn_id@,
            ) ==> r is Ok && final(self).staged().len() == old(self).staged().len() + 1
                && final(self).staged().drop_last() == old(self).staged() && keyed(
                final(self).staged().last(),
                session_id@,
                turn_id@,
            ) && final(self).staged().last().runner == runner,
    {
        proof {
            use_type_invariant(&*self);
        }
        if session_id.is_empty() || turn_id.is_empty() {
            return Err(RuntimeWorkerError::InvalidTurnIdentifier);
        }
        if self.find(session_id, turn_id).is_some() {
            let mut msg = concat3(
                "confirmed plan execution already staged for session ",
                session_id,
                " turn ",
            );
            msg.append(turn_id);
            return Err(RuntimeWorkerError::ExecutionFailed(msg));
        }
        let (s, t) = staging_key(session_id, turn_id);
        let mut q = Vec::new();
        std::mem::swap(&mut q, &mut self.pending);
        let ghost old_q = q@;
        q.push(StagedRun { session_id: s, turn_id: t, runner });
        proof {
            assert forall|i: int, j: int|
                0 <= i < j < q@.len() implies !keyed(
                #[trigger] q@[i],
                (#[trigger] q@[j]).session_id@,
                q@[j].turn_id@,
            ) by {
                if j == old_q.len() {
                    assert(q@[i] == old_q[i]);
                } else {
                    assert(q@[i] == old_q[i] && q@[j] == old_q[j]);
                }
            }
            assert(q@.drop_last() =~= old_q);
        }
        self.pending = q;
        Ok(())
    }

    /// Takes back the body staged for `(session_id, turn_id)`, if any.
    pub fn discard_sync(&mut self, session_id: &str, turn_id: &str) -> (r: Option<R>)
        ensures
            ({
                let q = old(self).staged();
                let k = key_index(q, session_id@, turn_id@);
                if staged_at(q, session_id@, turn_id@) {
                    r == Some(q[k].runner) && final(self).staged() == q.remove(k)
                } else {
                    r is None && final(self).staged() == q
                }
            }),
    {
        proof {
            use_type_invariant(&*self);
        }
        match self.find(session_id, turn_id) {
            None => None,
            Some(i) => {
                let mut q = Vec::new();
                std::mem::swap(&mut q, &mut self.pending);
                let ghost old_q = q@;
                let e = q.remove(i);
                proof {
                    assert forall|a: int, b: int|
                        0 <= a < b < q@.len() implies !keyed(
                        #[trigger] q@[a],
                        (#[trigger] q@[b]).session_id@,
                        q@[b].turn_id@,
                    ) by {
                        let oa = if a < i { a } else { a + 1 };
                        let ob = if b < i { b } else { b + 1 };
                        assert(q@[a] == old_q[oa] && q@[b] == old_q[ob]);
                    }
                }
                self.pending = q;
                Some(e.runner)
            },
        }
    }

    /// Admits a dequeued turn: only confirmed-plan turns run here, a denied
    /// tool boundary drops the staged body, and the body staged for the turn
    /// is handed out to run.
    pub fn take_admitted(&mut self, request: &TurnRequest, decision: &ToolDecision) -> (r: Result<
        R,
        RuntimeWorkerError,
    >)
        ensures
            ({
                let q = old(self).staged();
                let s = request.session_id@;
                let t = request.turn_id@;
                let k = key_index(q, s, t);
                if !is_plan_execution(*request) {
                    r matches Err(e) && failed_with(
                        e,
                        "deferred plan-execution executor only runs confirmed plan turns; use track_external_turn for other admissions"@,
                    ) && final(self).staged() == q
                } else if !staged_at(q, s, t) {
                    final(self).staged() == q && (r matches Err(e) && if decision.allowed {
                        failed_with(e, not_staged_text(s, t))
                    } else {
                        failed_with(
                            e,
                            "confirmed plan execution denied by runtime tool boundary: "@
                                + decision.reason@,
                        )
                    })
                } else {
                    final(self).staged() == q.remove(k) && if decision.allowed {
                        r == Ok::<R, RuntimeWorkerError>(q[k].runner)
                    } else {
                        r matches Err(e) && failed_with(
                            e,
                            "confirmed plan execution denied by runtime tool boundary: "@
                                + decision.reason@,
                        )
                    }
                }
            }),
    {
        if !is_plan_execution_turn(request) {
            return Err(
                RuntimeWorkerError::ExecutionFailed(
                    String::from_str(
                        "deferred plan-execution executor only runs confirmed plan turns; use track_external_turn for other admissions",
                    ),
                ),
            );
        }
        if let Err(error) = ensure_plan_execution_mutating_gate(decision) {
            let _ = self.discard_sync(request.session_id.as_str(), request.turn_id.as_str());
            return Err(error);
        }
        match self.discard_sync(request.session_id.as_str(), request.turn_id.as_str()) {
            Some(runner) => Ok(runner),
            None => {
                let mut msg = concat3(
                    "confirmed plan execution was admitted but no runner was staged for session ",
                    request.session_id.as_str(),
                    " turn ",
                );
                msg.append(request.turn_id.as_str());
                Err(RuntimeWorkerError::ExecutionFailed(msg))
            },
        }
    }

    /// An admission that was cancelled before it ran releases its body.
    pub fn on_admission_discarded(&mut self, request: &TurnRequest)
        ensures
            ({
                let q = old(self).staged();
                let k = key_index(q, request.session_id@, request.turn_id@);
                if is_plan_execution(*request) && staged_at(q, request.session_id@, request.turn_id@) {
                    final(self).staged() == q.remove(k)
                } else {
                    final(self).staged() == q
                }
            }),
    {
        if is_plan_execution_turn(request) {
            let _ = self.discard_sync(request.session_id.as_str(), request.turn_id.as_str());
        }
    }
}

/// Staging a body and then discarding its turn hands back that body and
/// leaves the other staged bodies as they were.
pub proof fn law_stage_then_discard<R>(q: Seq<StagedRun<R>>, e: StagedRun<R>)
    requires
        keys_unique(q),
        !staged_at(q, e.session_id@, e.turn_id@),
    ensures
        staged_at(q.push(e), e.session_id@, e.turn_id@),
        key_index(q.push(e), e.session_id@, e.turn_id@) == q.len(),
        q.push(e)[q.len() as int].runner == e.runner,
        q.push(e).remove(q.len() as int) == q,
{
    let p = q.push(e);
    assert(keyed(p[q.len() as int], e.session_id@, e.turn_id@));
    let k = key_index(p, e.session_id@, e.turn_id@);
    if k != q.len() {
        assert(p[k] == q[k]);
        assert(keyed(q[k], e.session_id@, e.turn_id@));
    }
    assert(p.remove(q.len() as int) =~= q);
}

} // verus!
