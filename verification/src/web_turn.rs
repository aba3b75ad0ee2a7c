//! How a headless web turn ends: the terminal result of the executor once
//! its tool loop returns, and how a cancellation request settles the
//! admission slot.
use vstd::prelude::*;

use crate::codex::CodeUiSessionStatus;
use crate::headless::{format_completion_error, ProjectedInteraction, WebTurnMode};
use crate::text::{concat, str_eq};

verus! {

/// How the turn's tool loop ended.
#[derive(Debug, Clone)]
pub enum TurnLoopOutcome {
    /// The loop finished; `intent_draft` says whether a Phase 0 IntentSpec
    /// draft was captured for review.
    Succeeded { intent_draft: bool },
    /// The loop failed after the turn was cancelled.
    Cancelled,
    /// The loop failed; `error` is the completion error's text.
    Failed { error: String },
}

/// What the executor does at the end of a turn.
#[derive(Debug, Clone, PartialEq, Eq)]
pub enum TurnFinish {
    /// The session state is uncertain: mark it indeterminate and fail the
    /// turn as an indeterminate side effect with `reason`.
    Reconcile { reason: String },
    /// Park the captured IntentSpec for review; the turn stays admitted.
    ParkIntentReview,
    /// Finish the assistant entry as completed, go idle, and report `summary`.
    Completed { summary: String },
    /// Finish the assistant entry as cancelled, go idle, and report the
    /// cancellation.
    Cancelled,
    /// Finish the assistant entry with `message`, go to the error status,
    /// and fail the turn with `message`.
    Failed { message: String },
}

/// The reconciliation reason after a runtime shutdown timed out.
pub open spec fn shutdown_reason() -> Seq<char> {
    "runtime_shutdown_timeout: runtime shutdown timed out before the active turn reached a determinate result; session requires reconciliation"@
}

/// The reconciliation reason after interaction persistence failed.
pub open spec fn persistence_reason() -> Seq<char> {
    "interaction_persistence_failure: interaction persistence failed before the active turn reached a determinate result; session requires reconciliation"@
}

/// The summary of a completed turn in `mode`.
pub open spec fn completion_summary(mode: WebTurnMode) -> Seq<char> {
    match mode {
        WebTurnMode::PlanPhase0 => "web plan phase-0 turn completed"@,
        WebTurnMode::ExplicitDirect => "web explicit direct turn completed"@,
    }
}

/// Whether `f` is the end of a turn: an uncertain runtime (a timed-out
/// shutdown first, then a failed interaction persistence) overrides the
/// loop's result; a Phase 0 turn that captured an IntentSpec draft parks
/// it for review.
pub open spec fn finish_of(
    shutdown_timed_out: bool,
    persistence_failed: bool,
    mode: WebTurnMode,
    outcome: TurnLoopOutcome,
    f: TurnFinish,
) -> bool {
    if shutdown_timed_out {
        f matches TurnFinish::Reconcile { reason } && reason@ == shutdown_reason()
    } else if persistence_failed {
        f matches TurnFinish::Reconcile { reason } && reason@ == persistence_reason()
    } else {
        match outcome {
            TurnLoopOutcome::Succeeded { intent_draft } => if intent_draft && mode
                == WebTurnMode::PlanPhase0 {
                f == TurnFinish::ParkIntentReview
            } else {
                f matches TurnFinish::Completed { summary } && summary@ == completion_summary(mode)
            },
            TurnLoopOutcome::Cancelled => f == TurnFinish::Cancelled,
            TurnLoopOutcome::Failed { error } => f matches TurnFinish::Failed { message }
                && message@ == "Agent turn failed: "@ + error@,
        }
    }
}

/// The end of a headless turn.
pub fn headless_turn_finish(
    shutdown_timed_out: bool,
    persistence_failed: bool,
    mode: WebTurnMode,
    outcome: TurnLoopOutcome,
) -> (r: TurnFinish)
    ensures
        finish_of(shutdown_timed_out, persistence_failed, mode, outcome, r),
{
    if shutdown_timed_out {
        return TurnFinish::Reconcile {
            reason: String::from_str(
                "runtime_shutdown_timeout: runtime shutdown timed out before the active turn reached a determinate result; session requires reconciliation",
            ),
        };
    }
    if persistence_failed {
        return TurnFinish::Reconcile {
            reason: String::from_str(
                "interaction_persistence_failure: interaction persistence failed before the active turn reached a determinate result; session requires reconciliation",
            ),
        };
    }
    match outcome {
        TurnLoopOutcome::Succeeded { intent_draft } => {
            if intent_draft && mode == WebTurnMode::PlanPhase0 {
                TurnFinish::ParkIntentReview
            } else {
                let summary = match mode {
                    WebTurnMode::PlanPhase0 => String::from_str("web plan phase-0 turn completed"),
                    WebTurnMode::ExplicitDirect => String::from_str(
                        "web explicit direct turn completed",
                    ),
                };
                TurnFinish::Completed { summary }
            }
        },
        TurnLoopOutcome::Cancelled => TurnFinish::Cancelled,
        TurnLoopOutcome::Failed { error } => TurnFinish::Failed {
            message: format_completion_error(error.as_str()),
        },
    }
}

/// How a cancellation request settles once the runtime accepted it.
#[derive(Debug, Clone, Copy, PartialEq, Eq, Structural)]
pub enum CancelSettlement {
    /// A mutating tool is running: the cancellation is cooperative and the
    /// turn settles when the tool reports a determinate result.
    Cooperative,
    /// The worker is idle (a parked gate finished in the worker): release
    /// the admission slot and set the session to `status`.
    Release { status: CodeUiSessionStatus },
    /// The turn is still winding down in the worker; it releases itself.
    AwaitWorker,
}

/// The settlement of an accepted cancellation.
pub open spec fn settlement_of(mutation_in_progress: bool, worker_idle: bool, status: CodeUiSessionStatus) -> CancelSettlement {
    if mutation_in_progress {
        CancelSettlement::Cooperative
    } else if worker_idle {
        CancelSettlement::Release {
            status: if status == CodeUiSessionStatus::IndeterminateSideEffect {
                status
            } else {
                CodeUiSessionStatus::Idle
            },
        }
    } else {
        CancelSettlement::AwaitWorker
    }
}

/// The settlement of an accepted cancellation, given whether a mutating
/// tool runs, whether the worker is idle, and the session status.
pub fn cancel_settlement(mutation_in_progress: bool, worker_idle: bool, status: CodeUiSessionStatus) -> (r:
    CancelSettlement)
    ensures
        r == settlement_of(mutation_in_progress, worker_idle, status),
{
    if mutation_in_progress {
        CancelSettlement::Cooperative
    } else if worker_idle {
        let next = if status == CodeUiSessionStatus::IndeterminateSideEffect {
            status
        } else {
            CodeUiSessionStatus::Idle
        };
        CancelSettlement::Release { status: next }
    } else {
        CancelSettlement::AwaitWorker
    }
}

/// A cancelled turn never leaves an indeterminate session looking idle.
pub proof fn law_cancel_keeps_indeterminate_state(mutation_in_progress: bool, worker_idle: bool)
    ensures
        settlement_of(mutation_in_progress, worker_idle, CodeUiSessionStatus::IndeterminateSideEffect)
            matches CancelSettlement::Release { status } ==> status
            == CodeUiSessionStatus::IndeterminateSideEffect,
{
}

// ---------------------------------------------------------------------------
// The executor's admission check and terminal result
// ---------------------------------------------------------------------------

/// The refusal of a turn whose browser admission is gone.
pub open spec fn admission_released_message() -> Seq<char> {
    "browser turn admission was released before runtime execution began"@
}

/// Whether the runtime may execute turn `turn_id`: only while the admission
/// slot still holds that very turn; otherwise the execution fails with
/// `admission_released_message`.
pub fn admission_for_turn(in_flight_turn_id: Option<&str>, turn_id: &str) -> (r: Result<(), String>)
    ensures
        match in_flight_turn_id {
            Some(t) => t@ == turn_id@,
            None => false,
        } ==> r is Ok,
        !(match in_flight_turn_id {
            Some(t) => t@ == turn_id@,
            None => false,
        }) ==> (r matches Err(m) && m@ == admission_released_message()),
{
    match in_flight_turn_id {
        Some(t) => if str_eq(t, turn_id) {
            return Ok(());
        },
        None => {},
    }
    Err(String::from_str("browser turn admission was released before runtime execution began"))
}

/// The refusal of a completed turn whose assistant message was not saved.
pub open spec fn unsaved_completion_reason() -> Seq<char> {
    "failed to persist headless web assistant message after a successful mutating turn; session requires reconciliation"@
}

/// What the executor answers the runtime for a turn.
#[derive(Debug, Clone, PartialEq, Eq)]
pub enum TurnResult {
    /// `Completed` with `summary`.
    Completed { summary: String },
    /// The parked IntentSpec review is waiting for its answer.
    WaitingForReview,
    /// Parking the review failed; its error is the answer.
    ParkFailed,
    /// The turn was cancelled.
    Cancelled,
    /// The turn failed with `message`.
    Failed { message: String },
    /// The session needs reconciliation, for `reason`.
    Indeterminate { reason: String },
}

/// The executor's answer for the end of turn `finish`, given whether the
/// review was parked (for `ParkIntentReview`) and whether the completed
/// turn's assistant message was saved (for `Completed`), and whether it
/// releases the admission slot: all but a parked review do.
pub open spec fn result_of(finish: TurnFinish, parked: bool, saved: bool, r: TurnResult, release: bool) -> bool {
    match finish {
        TurnFinish::Reconcile { reason } => r == (TurnResult::Indeterminate { reason }) && release,
        TurnFinish::ParkIntentReview => if parked {
            r == TurnResult::WaitingForReview && !release
        } else {
            r == TurnResult::ParkFailed && release
        },
        TurnFinish::Completed { summary } => release && if saved {
            r == (TurnResult::Completed { summary })
        } else {
            r matches TurnResult::Indeterminate { reason } && reason@ == unsaved_completion_reason()
        },
        TurnFinish::Cancelled => r == TurnResult::Cancelled && release,
        TurnFinish::Failed { message } => r == (TurnResult::Failed { message }) && release,
    }
}

/// The executor's answer for the end of a turn and whether the admission
/// slot is released (see `result_of`). A cancelled or failed turn whose
/// snapshot was not saved keeps its answer; the failed save only marks the
/// session.
pub fn turn_result(finish: TurnFinish, parked: bool, saved: bool) -> (r: (TurnResult, bool))
    ensures
        result_of(finish, parked, saved, r.0, r.1),
{
    match finish {
        TurnFinish::Reconcile { reason } => (TurnResult::Indeterminate { reason }, true),
        TurnFinish::ParkIntentReview => if parked {
            (TurnResult::WaitingForReview, false)
        } else {
            (TurnResult::ParkFailed, true)
        },
        TurnFinish::Completed { summary } => if saved {
            (TurnResult::Completed { summary }, true)
        } else {
            (
                TurnResult::Indeterminate {
                    reason: String::from_str(
                        "failed to persist headless web assistant message after a successful mutating turn; session requires reconciliation",
                    ),
                },
                true,
            )
        },
        TurnFinish::Cancelled => (TurnResult::Cancelled, true),
        TurnFinish::Failed { message } => (TurnResult::Failed { message }, true),
    }
}

// ---------------------------------------------------------------------------
// Cancellation requests
// ---------------------------------------------------------------------------

/// Why a cancellation request is refused.
#[derive(Debug, Clone, PartialEq, Eq)]
pub enum CancelRefusal {
    /// No turn is in flight: a `SESSION_BUSY` conflict.
    NothingRunning,
    /// The runtime needs reconciliation; its error is the answer.
    ReconciliationRequired,
    /// The runtime refused the cancellation; `message` says why.
    RuntimeFailed { message: String },
    /// The cancelled IntentSpec review could not be saved; the session is
    /// set indeterminate, and `message` says why.
    ReviewCancelNotSaved { message: String },
}

impl CancelRefusal {
    /// The conflict code and message of `NothingRunning`.
    pub fn busy_conflict() -> (r: (String, String))
        ensures
            r.0@ == "SESSION_BUSY"@,
            r.1@ == "No turn is currently running; there is nothing to cancel"@,
    {
        (
            String::from_str("SESSION_BUSY"),
            String::from_str("No turn is currently running; there is nothing to cancel"),
        )
    }
}

/// Whether a cancellation may go ahead: only with a turn in flight.
pub fn cancel_precheck(turn_in_flight: bool) -> (r: Result<(), CancelRefusal>)
    ensures
        turn_in_flight ==> r is Ok,
        !turn_in_flight ==> r == Err::<(), CancelRefusal>(CancelRefusal::NothingRunning),
{
    if turn_in_flight {
        Ok(())
    } else {
        Err(CancelRefusal::NothingRunning)
    }
}

/// The runtime's answer to a cancellation request.
#[derive(Debug, Clone)]
pub enum CancelReply {
    Accepted,
    /// The runtime no longer knows the turn (it already ended).
    UnknownTurn,
    ReconciliationRequired,
    /// Any other refusal, with the runtime's message.
    Failed { message: String },
}

/// How the runtime's answer settles the request: accepted, or a turn the
/// runtime no longer knows, goes ahead; a reconciliation is passed on; any
/// other refusal is reported with its message.
pub fn cancel_reply(reply: CancelReply) -> (r: Result<(), CancelRefusal>)
    ensures
        match reply {
            CancelReply::Accepted | CancelReply::UnknownTurn => r is Ok,
            CancelReply::ReconciliationRequired => r == Err::<(), CancelRefusal>(
                CancelRefusal::ReconciliationRequired,
            ),
            CancelReply::Failed { message } => r matches Err(CancelRefusal::RuntimeFailed { message: m })
                && m@ == "Unable to request cancellation from the AgentRuntime: "@ + message@,
        },
{
    match reply {
        CancelReply::Accepted => Ok(()),
        CancelReply::UnknownTurn => Ok(()),
        CancelReply::ReconciliationRequired => Err(CancelRefusal::ReconciliationRequired),
        CancelReply::Failed { message } => Err(
            CancelRefusal::RuntimeFailed {
                message: concat(
                    "Unable to request cancellation from the AgentRuntime: ",
                    message.as_str(),
                ),
            },
        ),
    }
}

/// Whether the interaction the runtime waits on is an IntentSpec review
/// choice of the session.
pub open spec fn cancels_intent_review(interactions: Seq<ProjectedInteraction>, id: Option<Seq<char>>) -> bool {
    match id {
        Some(i) => exists|k: int|
            0 <= k < interactions.len() && (#[trigger] interactions[k]).id@ == i
                && interactions[k].intent_review_choice,
        None => false,
    }
}

/// Whether the cancellation resolves an IntentSpec review (which must then
/// be saved as resolved with `cancel`).
pub fn is_intent_review_cancel(interactions: &Vec<ProjectedInteraction>, id: Option<&str>) -> (r: bool)
    ensures
        id is None ==> !r,
        id matches Some(i) ==> r == cancels_intent_review(interactions@, Some(i@)),
{
    match id {
        None => false,
        Some(i) => {
            let mut k: usize = 0;
            while k < interactions.len()
                invariant
                    k <= interactions@.len(),
                    id == Some(i),
                    forall|j: int|
                        0 <= j < k ==> !((#[trigger] interactions@[j]).id@ == i@
                            && interactions@[j].intent_review_choice),
                decreases interactions.len() - k,
            {
                if interactions[k].intent_review_choice && str_eq(interactions[k].id.as_str(), i) {
                    assert(interactions@[k as int].id@ == i@ && interactions@[k as int].intent_review_choice);
                    assert(cancels_intent_review(interactions@, Some(i@)));
                    return true;
                }
                k += 1;
            }
            false
        },
    }
}

/// The refusal when the resolution of a cancelled IntentSpec review could
/// not be saved (`error` is the store's message); the session then goes to
/// `IndeterminateSideEffect`.
pub fn review_cancel_not_saved(error: &str) -> (r: (CodeUiSessionStatus, CancelRefusal))
    ensures
        r.0 == CodeUiSessionStatus::IndeterminateSideEffect,
        r.1 matches CancelRefusal::ReviewCancelNotSaved { message } && message@
            == "Unable to persist IntentSpec review cancellation; session requires reconciliation: "@
            + error@,
{
    (
        CodeUiSessionStatus::IndeterminateSideEffect,
        CancelRefusal::ReviewCancelNotSaved {
            message: concat(
                "Unable to persist IntentSpec review cancellation; session requires reconciliation: ",
                error,
            ),
        },
    )
}

} // verus!
