//! The headless web adapter's pure decisions: advertised capabilities,
//! IntentSpec review answers and revisions, exec-approval decisions, and
//! the projection of structured user-input questions and answers.
use vstd::prelude::*;
use vstd::hash_set::StringHashSet;

use crate::object_summary::{field_of, field_of_exec, JsonDocument, JsonField};
use crate::runtime::{failed_with, RuntimeTurnExecution, RuntimeWorkerError};
use crate::text::{
    ascii_lower, chars_of, concat, concat3, dec, dec_vec, eq_ignore_case, eq_ignore_case_str,
    keys_distinct, norm, normalize, opt_view, str_eq, string_of, string_views, trim, trim_str, word_is,
};

verus! {

// ---------------------------------------------------------------------------
// Capabilities
// ---------------------------------------------------------------------------
/// Surfaces a Code UI adapter delivers.
#[derive(Debug, Clone, Copy, PartialEq, Eq, Structural)]
pub struct CodeUiCapabilities {
    pub message_input: bool,
    pub streaming_text: bool,
    pub plan_updates: bool,
    pub tool_calls: bool,
    pub patchsets: bool,
    pub interactive_approvals: bool,
    pub structured_questions: bool,
    pub provider_session_resume: bool,
    pub command_idempotency: bool,
}

/// The headless adapter delivers every surface.
pub fn headless_capabilities() -> (r: CodeUiCapabilities)
    ensures
        r.message_input && r.streaming_text && r.plan_updates && r.tool_calls && r.patchsets
            && r.interactive_approvals && r.structured_questions && r.provider_session_resume
            && r.command_idempotency,
{
    CodeUiCapabilities {
        message_input: true,
        streaming_text: true,
        plan_updates: true,
        tool_calls: true,
        patchsets: true,
        interactive_approvals: true,
        structured_questions: true,
        provider_session_resume: true,
        command_idempotency: true,
    }
}

/// The capabilities a headless runtime advertises: durable `commandId`
/// idempotency needs session persistence, so without it that capability is
/// withdrawn; every other surface stays as given.
pub fn advertised_capabilities(base: CodeUiCapabilities, has_persistence: bool) -> (r: CodeUiCapabilities)
    ensures
        r == (CodeUiCapabilities { command_idempotency: base.command_idempotency && has_persistence, ..base }),
{
    let mut r = base;
    if !has_persistence {
        r.command_idempotency = false;
    }
    r
}

// ---------------------------------------------------------------------------
// Browser interaction responses
// ---------------------------------------------------------------------------
/// Whether an approval also applies to later requests.
#[derive(Debug, Clone, Copy, PartialEq, Eq, Structural)]
pub enum CodeUiApplyToFuture {
    AcceptAll,
    DeclineAll,
    No,
}

/// A browser's answer to a Code UI interaction.
#[derive(Debug, Clone)]
pub struct CodeUiInteractionResponse {
    pub approved: Option<bool>,
    pub selected_option: Option<String>,
    pub note: Option<String>,
    /// Answers keyed by question id, each key once (the entries of a map;
    /// see `keys_distinct`).
    pub answers: Vec<(String, Vec<String>)>,
    pub apply_to_future: Option<CodeUiApplyToFuture>,
}

/// Trimmed text when not empty.
pub open spec fn text_of(s: Seq<char>) -> Option<Seq<char>> {
    if trim(s).len() > 0 {
        Some(trim(s))
    } else {
        None
    }
}

/// The revision note of a response: its trimmed note, when not empty.
pub fn interaction_note_from_response(response: &CodeUiInteractionResponse) -> (r: Option<String>)
    ensures
        opt_view(r) == match response.note {
            Some(n) => text_of(n@),
            None => None,
        },
{
    match &response.note {
        None => None,
        Some(n) => {
            let t = trim_str(n.as_str());
            if t.len() > 0 {
                Some(string_of(&t))
            } else {
                None
            }
        },
    }
}

// ---------------------------------------------------------------------------
// IntentSpec review
// ---------------------------------------------------------------------------
/// Developer's decision on a pending IntentSpec review.
#[derive(Clone, Copy, Debug, PartialEq, Eq, Structural)]
pub enum IntentReviewDecision {
    Confirm,
    Modify,
    Cancel,
}

pub open spec fn intent_decision_of(w: Seq<char>) -> Option<IntentReviewDecision> {
    let n = norm(w);
    if n == "confirm"@ {
        Some(IntentReviewDecision::Confirm)
    } else if n == "modify"@ || n == "revise"@ {
        Some(IntentReviewDecision::Modify)
    } else if n == "cancel"@ {
        Some(IntentReviewDecision::Cancel)
    } else {
        None
    }
}

pub open spec fn intent_wire_id(d: IntentReviewDecision) -> Seq<char> {
    match d {
        IntentReviewDecision::Confirm => "confirm"@,
        IntentReviewDecision::Modify => "modify"@,
        IntentReviewDecision::Cancel => "cancel"@,
    }
}

impl IntentReviewDecision {
    pub fn wire_id(self) -> (r: &'static str)
        ensures
            r@ == intent_wire_id(self),
    {
        match self {
            IntentReviewDecision::Confirm => "confirm",
            IntentReviewDecision::Modify => "modify",
            IntentReviewDecision::Cancel => "cancel",
        }
    }

    pub fn from_wire_id(id: &str) -> (r: Option<Self>)
        ensures
            r == intent_decision_of(id@),
    {
        let w = normalize(id);
        if word_is(&w, "confirm") {
            Some(IntentReviewDecision::Confirm)
        } else if word_is(&w, "modify") || word_is(&w, "revise") {
            Some(IntentReviewDecision::Modify)
        } else if word_is(&w, "cancel") {
            Some(IntentReviewDecision::Cancel)
        } else {
            None
        }
    }
}

/// `Option::<String>`'s `Debug` rendering.
pub uninterp spec fn debug_opt_text(o: Option<Seq<char>>) -> Seq<char>;

/// `format!("{:?}", value)` of an optional string: its `Debug` rendering,
/// which depends on the value alone and is the text `None` for `None`.
/// Of `Some(s)` nothing more is stated than the name: std renders it as
/// `Some("…")` with `s` escaped by `str::escape_debug`.
#[verifier::external_body]
fn debug_opt(value: &Option<String>) -> (r: String)
    ensures
        r@ == debug_opt_text(opt_view(*value)),
        value.is_none() ==> r@ == "None"@,
{
    format!("{:?}", value)
}

/// The decision of an IntentSpec review answer: the selected option when it
/// names one, else the raw answer text.
pub fn intent_review_decision_from_response(
    response: &CodeUiInteractionResponse,
    raw_response: &str,
) -> (r: Result<IntentReviewDecision, RuntimeWorkerError>)
    ensures
        ({
            let from_selection = match response.selected_option {
                Some(s) => intent_decision_of(s@),
                None => None,
            };
            match from_selection {
                Some(d) => r == Ok::<IntentReviewDecision, RuntimeWorkerError>(d),
                None => match intent_decision_of(raw_response@) {
                    Some(d) => r == Ok::<IntentReviewDecision, RuntimeWorkerError>(d),
                    None => r matches Err(e) && failed_with(
                        e,
                        "unrecognized IntentSpec review response; expected confirm/modify/cancel (got selected_option="@
                            + debug_opt_text(opt_view(response.selected_option)) + ")"@,
                    ) && (response.selected_option is None ==> failed_with(
                        e,
                        "unrecognized IntentSpec review response; expected confirm/modify/cancel (got selected_option="@
                            + "None"@ + ")"@,
                    )),
                },
            }
        }),
{
    let from_selection = match &response.selected_option {
        Some(s) => IntentReviewDecision::from_wire_id(s.as_str()),
        None => None,
    };
    if let Some(d) = from_selection {
        return Ok(d);
    }
    match IntentReviewDecision::from_wire_id(raw_response) {
        Some(d) => Ok(d),
        None => {
            let shown = debug_opt(&response.selected_option);
            Err(
                RuntimeWorkerError::ExecutionFailed(
                    concat3(
                        "unrecognized IntentSpec review response; expected confirm/modify/cancel (got selected_option=",
                        shown.as_str(),
                        ")",
                    ),
                ),
            )
        },
    }
}

/// The resolution recorded for an IntentSpec review answer: the wire id of
/// the decision its selected option names.
pub fn intent_review_resolution_label(selected_option: Option<&str>) -> (r: Option<&'static str>)
    ensures
        match r {
            Some(l) => selected_option is Some && (intent_decision_of(selected_option->0@) matches Some(
                d,
            ) && l@ == intent_wire_id(d)),
            None => selected_option is None || intent_decision_of(selected_option->0@) is None,
        },
{
    match selected_option {
        Some(s) => match IntentReviewDecision::from_wire_id(s) {
            Some(d) => Some(d.wire_id()),
            None => None,
        },
        None => None,
    }
}

/// The IntentSpec awaiting a plain-message revision, and the note that
/// asked for it.
#[derive(Clone, Debug)]
pub struct PendingIntentRevision {
    pub intent_spec: String,
    pub note: Option<String>,
}

/// The revision request: the note alone, the note and the follow-up, or the
/// follow-up alone, each trimmed.
pub open spec fn revision_text(note: Option<String>, follow_up: Seq<char>) -> Seq<char> {
    let f = trim(follow_up);
    let n = match note {
        Some(n) => text_of(n@),
        None => None,
    };
    match n {
        Some(t) => if f.len() == 0 {
            t
        } else {
            t + "\n\nAdditional follow-up:\n"@ + f
        },
        None => f,
    }
}

impl PendingIntentRevision {
    pub fn revision_request(&self, follow_up: &str) -> (r: String)
        ensures
            r@ == revision_text(self.note, follow_up@),
    {
        let f = trim_str(follow_up);
        let fs = string_of(&f);
        let note: Option<Vec<char>> = match &self.note {
            Some(n) => {
                let t = trim_str(n.as_str());
                if t.len() > 0 {
                    Some(t)
                } else {
                    None
                }
            },
            None => None,
        };
        match note {
            Some(t) => {
                let ns = string_of(&t);
                if f.len() == 0 {
                    ns
                } else {
                    concat3(ns.as_str(), "\n\nAdditional follow-up:\n", fs.as_str())
                }
            },
            None => fs,
        }
    }
}

// ---------------------------------------------------------------------------
// Exec approvals and labels
// ---------------------------------------------------------------------------
/// The decision on an exec approval.
#[derive(Clone, Copy, Debug, PartialEq, Eq, Structural)]
pub enum ReviewDecision {
    Approved,
    ApprovedForAllCommands,
    Denied,
    Abort,
}

/// The approval a selected option expresses, if any.
pub open spec fn option_approval(o: Seq<char>) -> Option<bool> {
    if eq_ignore_case(o, "approve"@) || eq_ignore_case(o, "allow"@) || eq_ignore_case(
        o,
        "approve_all"@,
    ) || eq_ignore_case(o, "yes"@) {
        Some(true)
    } else if eq_ignore_case(o, "deny"@) || eq_ignore_case(o, "decline"@) || eq_ignore_case(
        o,
        "no"@,
    ) {
        Some(false)
    } else {
        None
    }
}

/// The decision of an exec-approval answer: `abort` as the selected option
/// aborts; otherwise the explicit `approved` flag, or the approval the
/// selected option expresses, decides, and an approval extends to later
/// commands only with accept-all.
pub open spec fn review_decision_of(r: CodeUiInteractionResponse) -> Result<ReviewDecision, Seq<char>> {
    let sel = opt_view(r.selected_option);
    if sel matches Some(o) && option_approval(o) is None && eq_ignore_case(o, "abort"@) {
        Ok(ReviewDecision::Abort)
    } else {
        let approved = match r.approved {
            Some(a) => Some(a),
            None => match sel {
                Some(o) => option_approval(o),
                None => None,
            },
        };
        match approved {
            None => Err("Exec approvals require an explicit decision"@),
            Some(false) => Ok(ReviewDecision::Denied),
            Some(true) => match r.apply_to_future {
                Some(CodeUiApplyToFuture::AcceptAll) => Ok(ReviewDecision::ApprovedForAllCommands),
                Some(CodeUiApplyToFuture::DeclineAll) => Ok(ReviewDecision::Denied),
                _ => Ok(ReviewDecision::Approved),
            },
        }
    }
}

pub fn review_decision_from_interaction_response(response: CodeUiInteractionResponse) -> (r: Result<
    ReviewDecision,
    String,
>)
    ensures
        match review_decision_of(response) {
            Ok(d) => r == Ok::<ReviewDecision, String>(d),
            Err(m) => r matches Err(e) && e@ == m,
        },
{
    let selected: Option<bool> = match &response.selected_option {
        Some(o) => {
            let s = o.as_str();
            if eq_ignore_case_str(s, "approve") || eq_ignore_case_str(s, "allow")
                || eq_ignore_case_str(s, "approve_all") || eq_ignore_case_str(s, "yes") {
                Some(true)
            } else if eq_ignore_case_str(s, "deny") || eq_ignore_case_str(s, "decline")
                || eq_ignore_case_str(s, "no") {
                Some(false)
            } else if eq_ignore_case_str(s, "abort") {
                return Ok(ReviewDecision::Abort);
            } else {
                None
            }
        },
        None => None,
    };
    let approved = match response.approved {
        Some(a) => Some(a),
        None => selected,
    };
    match approved {
        None => Err(String::from_str("Exec approvals require an explicit decision")),
        Some(false) => Ok(ReviewDecision::Denied),
        Some(true) => match response.apply_to_future {
            Some(CodeUiApplyToFuture::AcceptAll) => Ok(ReviewDecision::ApprovedForAllCommands),
            Some(CodeUiApplyToFuture::DeclineAll) => Ok(ReviewDecision::Denied),
            _ => Ok(ReviewDecision::Approved),
        },
    }
}

/// Network access of a sandboxed command.
#[derive(Clone, Debug)]
pub enum NetworkAccess {
    Denied,
    Allowlist { domains: Vec<String> },
    Full,
}

pub fn network_access_label(network_access: &NetworkAccess) -> (r: &'static str)
    ensures
        r@ == match network_access {
            NetworkAccess::Denied => "denied"@,
            NetworkAccess::Allowlist { .. } => "allowlist"@,
            NetworkAccess::Full => "full"@,
        },
{
    match network_access {
        NetworkAccess::Denied => "denied",
        NetworkAccess::Allowlist { .. } => "allowlist",
        NetworkAccess::Full => "full",
    }
}

/// Progress of a plan step.
#[derive(Clone, Copy, Debug, PartialEq, Eq, Structural)]
pub enum StepStatus {
    Pending,
    InProgress,
    Completed,
}

pub fn step_status_label(status: &StepStatus) -> (r: &'static str)
    ensures
        r@ == match status {
            StepStatus::Pending => "pending"@,
            StepStatus::InProgress => "in_progress"@,
            StepStatus::Completed => "completed"@,
        },
{
    match status {
        StepStatus::Pending => "pending",
        StepStatus::InProgress => "in_progress",
        StepStatus::Completed => "completed",
    }
}

/// The message of a failed agent turn, given the completion error's text.
pub fn format_completion_error(error: &str) -> (r: String)
    ensures
        r@ == "Agent turn failed: "@ + error@,
{
    concat("Agent turn failed: ", error)
}


// ---------------------------------------------------------------------------
// Structured user input
// ---------------------------------------------------------------------------
/// One selectable option of a question.
#[derive(Clone, Debug)]
pub struct UserInputOption {
    pub label: String,
    pub description: String,
}

/// A structured question the agent asks.
#[derive(Clone, Debug)]
pub struct UserInputQuestion {
    pub id: String,
    pub header: String,
    pub question: String,
    pub is_other: bool,
    pub is_secret: bool,
    pub options: Option<Vec<UserInputOption>>,
}

/// The answers to one question.
#[derive(Clone, Debug)]
pub struct UserInputAnswer {
    pub answers: Vec<String>,
}

/// Answers keyed by question id.
#[derive(Clone, Debug)]
pub struct UserInputResponse {
    pub answers: Vec<(String, UserInputAnswer)>,
}

/// Risk profile of an IntentSpec.
#[derive(Clone, Copy, Debug, PartialEq, Eq, Structural)]
pub enum RiskLevel {
    Low,
    Medium,
    High,
}

pub open spec fn risk_word(w: Seq<char>) -> Option<RiskLevel> {
    let n = norm(w);
    if n == "low"@ {
        Some(RiskLevel::Low)
    } else if n == "medium"@ {
        Some(RiskLevel::Medium)
    } else if n == "high"@ {
        Some(RiskLevel::High)
    } else {
        None
    }
}

/// The first answer that names a risk level.
pub open spec fn first_risk(items: Seq<String>) -> Option<RiskLevel>
    decreases items.len(),
{
    if items.len() == 0 {
        None
    } else {
        match first_risk(items.drop_last()) {
            Some(r) => Some(r),
            None => risk_word(items.last()@),
        }
    }
}

/// The answers given to question `id` (its first entry).
pub open spec fn answer_for(answers: Seq<(String, UserInputAnswer)>, id: Seq<char>) -> Option<
    Seq<String>,
>
    decreases answers.len(),
{
    if answers.len() == 0 {
        None
    } else {
        match answer_for(answers.drop_last(), id) {
            Some(a) => Some(a),
            None => if answers.last().0@ == id {
                Some(answers.last().1.answers@)
            } else {
                None
            },
        }
    }
}

/// The risk level of a Phase 0 answer set: only the `risk_profile` question
/// counts, and its first answer that is `low`, `medium` or `high`.
pub fn extract_risk_level_from_user_input(resp: &UserInputResponse) -> (r: Option<RiskLevel>)
    ensures
        r == match answer_for(resp.answers@, "risk_profile"@) {
            Some(items) => first_risk(items),
            None => None,
        },
{
    let ghost all = resp.answers@;
    let mut found: Option<usize> = None;
    let mut i: usize = 0;
    assert(all.subrange(0, 0) =~= Seq::<(String, UserInputAnswer)>::empty());
    while i < resp.answers.len()
        invariant
            i <= all.len(),
            all == resp.answers@,
            match found {
                Some(j) => j < i && answer_for(all.subrange(0, i as int), "risk_profile"@) == Some(
                    all[j as int].1.answers@,
                ),
                None => answer_for(all.subrange(0, i as int), "risk_profile"@) is None,
            },
        decreases resp.answers.len() - i,
    {
        assert(all.subrange(0, i + 1).drop_last() =~= all.subrange(0, i as int));
        if found.is_none() && str_eq(resp.answers[i].0.as_str(), "risk_profile") {
            found = Some(i);
        }
        i += 1;
    }
    assert(all.subrange(0, all.len() as int) =~= all);
    let j = match found {
        Some(j) => j,
        None => {
            return None;
        },
    };
    let items = &resp.answers[j].1.answers;
    let mut k: usize = 0;
    assert(items@.subrange(0, 0) =~= Seq::<String>::empty());
    while k < items.len()
        invariant
            k <= items@.len(),
            answer_for(resp.answers@, "risk_profile"@) == Some(items@),
            first_risk(items@.subrange(0, k as int)) is None,
        decreases items.len() - k,
    {
        assert(items@.subrange(0, k + 1).drop_last() =~= items@.subrange(0, k as int));
        let w = normalize(items[k].as_str());
        let level = if word_is(&w, "low") {
            Some(RiskLevel::Low)
        } else if word_is(&w, "medium") {
            Some(RiskLevel::Medium)
        } else if word_is(&w, "high") {
            Some(RiskLevel::High)
        } else {
            None
        };
        if level.is_some() {
            proof {
                lemma_first_risk_prefix(items@, k + 1);
            }
            return level;
        }
        k += 1;
    }
    assert(items@.subrange(0, items@.len() as int) =~= items@);
    None
}

proof fn lemma_first_risk_prefix(s: Seq<String>, k: int)
    requires
        0 < k <= s.len(),
        first_risk(s.subrange(0, k)) is Some,
    ensures
        first_risk(s) == first_risk(s.subrange(0, k)),
    decreases s.len() - k,
{
    if k < s.len() {
        assert(s.subrange(0, k + 1).drop_last() =~= s.subrange(0, k));
        lemma_first_risk_prefix(s, k + 1);
    } else {
        assert(s.subrange(0, k) =~= s);
    }
}

pub open spec fn question_ids(qs: Seq<UserInputQuestion>) -> Seq<Seq<char>> {
    qs.map_values(|q: UserInputQuestion| q.id@)
}

/// Answer keys that name no question, in order.
pub open spec fn unknown_keys(answers: Seq<(String, Vec<String>)>, ids: Seq<Seq<char>>) -> Seq<
    Seq<char>,
>
    decreases answers.len(),
{
    if answers.len() == 0 {
        Seq::empty()
    } else {
        let rest = unknown_keys(answers.drop_last(), ids);
        if ids.contains(answers.last().0@) {
            rest
        } else {
            rest.push(answers.last().0@)
        }
    }
}

/// The pieces joined by `sep`.
pub open spec fn join(pieces: Seq<Seq<char>>, sep: Seq<char>) -> Seq<char>
    decreases pieces.len(),
{
    if pieces.len() == 0 {
        Seq::empty()
    } else if pieces.len() == 1 {
        pieces[0]
    } else {
        join(pieces.drop_last(), sep) + sep + pieces.last()
    }
}

/// Some answer is blank.
pub open spec fn has_blank(values: Seq<String>) -> bool {
    exists|k: int| 0 <= k < values.len() && trim((#[trigger] values[k])@).len() == 0
}

/// The first question (in order) that is unanswered (`true`) or answered
/// with nothing or a blank value (`false`).
pub open spec fn first_bad_answer(
    qs: Seq<UserInputQuestion>,
    answers: Seq<(String, Vec<String>)>,
) -> Option<(Seq<char>, bool)>
    decreases qs.len(),
{
    if qs.len() == 0 {
        None
    } else {
        match first_bad_answer(qs.drop_last(), answers) {
            Some(b) => Some(b),
            None => {
                let q = qs.last();
                match crate::review_fix::answers_for(answers, q.id@) {
                    None => Some((q.id@, true)),
                    Some(v) => if v.len() == 0 || has_blank(v) {
                        Some((q.id@, false))
                    } else {
                        None
                    },
                }
            },
        }
    }
}

/// Two questions share an id.
pub open spec fn ids_repeat(qs: Seq<UserInputQuestion>) -> bool {
    exists|i: int, j: int| 0 <= i < j < qs.len() && (#[trigger] qs[i]).id@ == (#[trigger] qs[j]).id@
}

/// The answers of a single free-form question: the selected option, the
/// trimmed note (as `user_note: ...`), or else `yes`/`no` from an explicit
/// approval.
pub open spec fn single_values(r: CodeUiInteractionResponse) -> Seq<Seq<char>> {
    let a = match r.selected_option {
        Some(s) => if s@.len() > 0 {
            seq![s@]
        } else {
            Seq::empty()
        },
        None => Seq::empty(),
    };
    let b = match r.note {
        Some(n) => if trim(n@).len() > 0 {
            a.push("user_note: "@ + trim(n@))
        } else {
            a
        },
        None => a,
    };
    if b.len() == 0 {
        match r.approved {
            Some(true) => seq!["yes"@],
            Some(false) => seq!["no"@],
            None => b,
        }
    } else {
        b
    }
}

pub open spec fn answered(qs: Seq<UserInputQuestion>, answers: Seq<(String, Vec<String>)>) -> Seq<
    (Seq<char>, Seq<Seq<char>>),
> {
    qs.map_values(
        |q: UserInputQuestion|
            (
                q.id@,
                string_views(
                    match crate::review_fix::answers_for(answers, q.id@) {
                        Some(v) => v,
                        None => Seq::empty(),
                    },
                ),
            ),
    )
}

/// The user-input response a browser answer gives, or why it cannot be
/// used (in the order the checks apply).
pub open spec fn user_input_result(qs: Seq<UserInputQuestion>, r: CodeUiInteractionResponse) -> Result<
    Seq<(Seq<char>, Seq<Seq<char>>)>,
    Seq<char>,
> {
    let answers = r.answers@;
    if qs.len() == 0 {
        Err("User input request contains no questions"@)
    } else if exists|k: int| 0 <= k < qs.len() && trim((#[trigger] qs[k]).id@).len() == 0 {
        Err("User input request contains a question without a stable id"@)
    } else if ids_repeat(qs) {
        Err("User input request contains duplicate question ids and cannot be answered safely"@)
    } else if answers.len() > 0 {
        let unknown = unknown_keys(answers, question_ids(qs));
        if unknown.len() > 0 {
            Err("User input response contains answers for unknown question ids: "@ + join(
                unknown,
                ", "@,
            ))
        } else {
            match first_bad_answer(qs, answers) {
                Some((id, true)) => Err(
                    "User input response is missing an answer for question '"@ + id + "'"@,
                ),
                Some((id, false)) => Err(
                    "User input response must include a non-empty answer for question '"@ + id
                        + "'"@,
                ),
                None => Ok(answered(qs, answers)),
            }
        }
    } else if qs.len() != 1 {
        Err("User input response must answer each of the "@ + dec(qs.len()) + " requested questions"@)
    } else if single_values(r).len() == 0 {
        Err("User input response must include answers"@)
    } else {
        Ok(seq![(qs[0].id@, single_values(r))])
    }
}

pub open spec fn answers_view(s: Seq<(String, UserInputAnswer)>) -> Seq<(Seq<char>, Seq<Seq<char>>)> {
    s.map_values(|e: (String, UserInputAnswer)| (e.0@, string_views(e.1.answers@)))
}

pub open spec fn response_view(r: UserInputResponse) -> Seq<(Seq<char>, Seq<Seq<char>>)> {
    answers_view(r.answers@)
}

fn has_blank_answer(values: &Vec<String>) -> (r: bool)
    ensures
        r == has_blank(values@),
{
    let mut k: usize = 0;
    while k < values.len()
        invariant
            k <= values@.len(),
            forall|j: int| 0 <= j < k ==> trim((#[trigger] values@[j])@).len() > 0,
        decreases values.len() - k,
    {
        let t = trim_str(values[k].as_str());
        if t.len() == 0 {
            return true;
        }
        k += 1;
    }
    false
}

fn clone_strings(v: &Vec<String>) -> (r: Vec<String>)
    ensures
        r@ == v@,
{
    let mut r: Vec<String> = Vec::new();
    let mut i: usize = 0;
    while i < v.len()
        invariant
            i <= v.len(),
            r@ == v@.subrange(0, i as int),
        decreases v.len() - i,
    {
        r.push(v[i].clone());
        i += 1;
        assert(r@ =~= v@.subrange(0, i as int));
    }
    assert(v@.subrange(0, v.len() as int) =~= v@);
    r
}

fn lookup_answers(answers: &Vec<(String, Vec<String>)>, id: &str) -> (r: Option<usize>)
    ensures
        match r {
            Some(j) => j < answers@.len() && crate::review_fix::answers_for(answers@, id@) == Some(
                answers@[j as int].1@,
            ),
            None => crate::review_fix::answers_for(answers@, id@) is None,
        },
{
    let ghost all = answers@;
    let mut found: Option<usize> = None;
    let mut i: usize = 0;
    assert(all.subrange(0, 0) =~= Seq::<(String, Vec<String>)>::empty());
    while i < answers.len()
        invariant
            i <= all.len(),
            all == answers@,
            match found {
                Some(j) => j < i && crate::review_fix::answers_for(all.subrange(0, i as int), id@)
                    == Some(all[j as int].1@),
                None => crate::review_fix::answers_for(all.subrange(0, i as int), id@) is None,
            },
        decreases answers.len() - i,
    {
        assert(all.subrange(0, i + 1).drop_last() =~= all.subrange(0, i as int));
        if found.is_none() && str_eq(answers[i].0.as_str(), id) {
            found = Some(i);
        }
        i += 1;
    }
    assert(all.subrange(0, all.len() as int) =~= all);
    found
}

fn names_question(qs: &[UserInputQuestion], key: &String) -> (r: bool)
    ensures
        r == question_ids(qs@).contains(key@),
{
    let mut i: usize = 0;
    while i < qs.len()
        invariant
            i <= qs@.len(),
            forall|k: int| 0 <= k < i ==> (#[trigger] qs@[k]).id@ != key@,
        decreases qs.len() - i,
    {
        if str_eq(qs[i].id.as_str(), key.as_str()) {
            assert(question_ids(qs@)[i as int] == key@);
            return true;
        }
        i += 1;
    }
    proof {
        if question_ids(qs@).contains(key@) {
            let k = choose|k: int| 0 <= k < question_ids(qs@).len() && question_ids(qs@)[k] == key@;
            assert(qs@[k].id@ == key@);
        }
    }
    false
}

fn unknown_answer_keys(qs: &[UserInputQuestion], answers: &Vec<(String, Vec<String>)>) -> (r: Vec<
    String,
>)
    ensures
        string_views(r@) == unknown_keys(answers@, question_ids(qs@)),
{
    let mut r: Vec<String> = Vec::new();
    let mut i: usize = 0;
    assert(answers@.subrange(0, 0) =~= Seq::<(String, Vec<String>)>::empty());
    assert(string_views(r@) =~= Seq::<Seq<char>>::empty());
    while i < answers.len()
        invariant
            i <= answers@.len(),
            string_views(r@) == unknown_keys(answers@.subrange(0, i as int), question_ids(qs@)),
        decreases answers.len() - i,
    {
        assert(answers@.subrange(0, i + 1).drop_last() =~= answers@.subrange(0, i as int));
        let key = &answers[i].0;
        if !names_question(qs, key) {
            let ghost before = r@;
            r.push(key.clone());
            assert(string_views(r@) =~= string_views(before).push(key@));
        }
        i += 1;
    }
    assert(answers@.subrange(0, answers@.len() as int) =~= answers@);
    r
}

fn join_strings(pieces: &Vec<String>, sep: &str) -> (r: String)
    ensures
        r@ == join(string_views(pieces@), sep@),
{
    let mut r = String::new();
    let mut i: usize = 0;
    assert(string_views(pieces@).subrange(0, 0) =~= Seq::<Seq<char>>::empty());
    while i < pieces.len()
        invariant
            i <= pieces@.len(),
            r@ == join(string_views(pieces@).subrange(0, i as int), sep@),
        decreases pieces.len() - i,
    {
        let ghost sv = string_views(pieces@);
        assert(sv.subrange(0, i + 1).drop_last() =~= sv.subrange(0, i as int));
        assert(sv[i as int] == pieces@[i as int]@);
        if i > 0 {
            r.append(sep);
        }
        r.append(pieces[i].as_str());
        i += 1;
    }
    assert(string_views(pieces@).subrange(0, pieces@.len() as int) =~= string_views(pieces@));
    r
}

/// The structured answers a browser response gives to the agent's
/// questions; a request without questions, with blank or repeated question
/// ids, and a response that names unknown questions, leaves one out, or
/// gives it only blank answers are refused.
pub fn user_input_response_from_code_ui_request(
    questions: &[UserInputQuestion],
    response: CodeUiInteractionResponse,
) -> (r: Result<UserInputResponse, String>)
    requires
        keys_distinct(response.answers@),
    ensures
        match user_input_result(questions@, response) {
            Ok(v) => r matches Ok(u) && response_view(u) == v,
            Err(m) => r matches Err(e) && e@ == m,
        },
{
    let qs = questions;
    assert(qs@ == questions@);
    if qs.len() == 0 {
        return Err(String::from_str("User input request contains no questions"));
    }
    let mut i: usize = 0;
    while i < qs.len()
        invariant
            i <= qs@.len(),
            qs@ == questions@,
            qs@.len() > 0,
            forall|k: int| 0 <= k < i ==> trim((#[trigger] qs@[k]).id@).len() > 0,
        decreases qs.len() - i,
    {
        let t = trim_str(qs[i].id.as_str());
        if t.len() == 0 {
            assert(trim(qs@[i as int].id@).len() == 0);
            return Err(
                String::from_str("User input request contains a question without a stable id"),
            );
        }
        i += 1;
    }
    let mut seen = StringHashSet::new();
    let mut a: usize = 0;
    while a < qs.len()
        invariant
            a <= qs@.len(),
            qs@ == questions@,
            qs@.len() > 0,
            forall|k: int| 0 <= k < qs@.len() ==> trim((#[trigger] qs@[k]).id@).len() > 0,
            forall|x: Seq<char>|
                #[trigger] seen@.contains(x) <==> exists|k: int| 0 <= k < a && (#[trigger] qs@[k]).id@ == x,
            forall|x: int, y: int| 0 <= x < y < a ==> (#[trigger] qs@[x]).id@ != (#[trigger] qs@[y]).id@,
        decreases qs.len() - a,
    {
        if !seen.insert(qs[a].id.clone()) {
            assert(ids_repeat(qs@)) by {
                let k = choose|k: int| 0 <= k < a && (#[trigger] qs@[k]).id@ == qs@[a as int].id@;
                assert(qs@[k].id@ == qs@[a as int].id@);
            }
            return Err(
                String::from_str(
                    "User input request contains duplicate question ids and cannot be answered safely",
                ),
            );
        }
        proof {
            assert forall|x: Seq<char>| #[trigger] seen@.contains(x) <==> exists|k: int|
                0 <= k < a + 1 && (#[trigger] qs@[k]).id@ == x by {
                if x == qs@[a as int].id@ {
                    assert(qs@[a as int].id@ == x);
                }
            }
        }
        a += 1;
    }
    assert(!ids_repeat(qs@));
    if response.answers.len() > 0 {
        let unknown = unknown_answer_keys(qs, &response.answers);
        if unknown.len() > 0 {
            let listed = join_strings(&unknown, ", ");
            return Err(
                concat("User input response contains answers for unknown question ids: ", listed.as_str()),
            );
        }
        let ghost ans = response.answers@;
        let mut out: Vec<(String, UserInputAnswer)> = Vec::new();
        let mut i: usize = 0;
        assert(qs@.subrange(0, 0) =~= Seq::<UserInputQuestion>::empty());
        while i < qs.len()
            invariant
                i <= qs@.len(),
                ans == response.answers@,
                qs@ == questions@,
                qs@.len() > 0,
                forall|k: int| 0 <= k < qs@.len() ==> trim((#[trigger] qs@[k]).id@).len() > 0,
                !ids_repeat(qs@),
                ans.len() > 0,
                unknown_keys(ans, question_ids(qs@)).len() == 0,
                first_bad_answer(qs@.subrange(0, i as int), ans) is None,
                answers_view(out@) == answered(qs@.subrange(0, i as int), ans),
            decreases qs.len() - i,
        {
            assert(qs@.subrange(0, i + 1).drop_last() =~= qs@.subrange(0, i as int));
            assert(qs@.subrange(0, i + 1).last() == qs@[i as int]);
            let q = &qs[i];
            let j = match lookup_answers(&response.answers, q.id.as_str()) {
                Some(j) => j,
                None => {
                    proof {
                        lemma_first_bad_prefix(qs@, ans, i + 1);
                    }
                    return Err(
                        concat3(
                            "User input response is missing an answer for question '",
                            q.id.as_str(),
                            "'",
                        ),
                    );
                },
            };
            let values = &response.answers[j].1;
            if values.len() == 0 || has_blank_answer(values) {
                proof {
                    lemma_first_bad_prefix(qs@, ans, i + 1);
                }
                return Err(
                    concat3(
                        "User input response must include a non-empty answer for question '",
                        q.id.as_str(),
                        "'",
                    ),
                );
            }
            let ghost before = out@;
            out.push((q.id.clone(), UserInputAnswer { answers: clone_strings(values) }));
            assert(answers_view(out@) =~= answers_view(before).push((q.id@, string_views(values@))));
            assert(answered(qs@.subrange(0, i + 1), ans) =~= answered(qs@.subrange(0, i as int), ans).push(
                (q.id@, string_views(values@)),
            ));
            i += 1;
        }
        assert(qs@.subrange(0, qs@.len() as int) =~= qs@);
        return Ok(UserInputResponse { answers: out });
    }
    if qs.len() != 1 {
        let n = dec_vec(qs.len() as u64);
        let ns = string_of(&n);
        return Err(
            concat3(
                "User input response must answer each of the ",
                ns.as_str(),
                " requested questions",
            ),
        );
    }
    let question = &qs[0];
    let mut values: Vec<String> = Vec::new();
    if let Some(selected) = &response.selected_option {
        if !selected.as_str().is_empty() {
            values.push(selected.clone());
        }
    }
    if let Some(note) = &response.note {
        let t = trim_str(note.as_str());
        if t.len() > 0 {
            let ts = string_of(&t);
            values.push(concat("user_note: ", ts.as_str()));
        }
    }
    if values.len() == 0 {
        if let Some(approved) = response.approved {
            values.push(
                if approved {
                    String::from_str("yes")
                } else {
                    String::from_str("no")
                },
            );
        }
    }
    assert(string_views(values@) =~= single_values(response));
    if values.len() == 0 {
        return Err(String::from_str("User input response must include answers"));
    }
    let mut out: Vec<(String, UserInputAnswer)> = Vec::new();
    out.push((question.id.clone(), UserInputAnswer { answers: values }));
    assert(answers_view(out@) =~= seq![(qs@[0].id@, single_values(response))]);
    Ok(UserInputResponse { answers: out })
}

proof fn lemma_first_bad_prefix(
    qs: Seq<UserInputQuestion>,
    answers: Seq<(String, Vec<String>)>,
    k: int,
)
    requires
        0 < k <= qs.len(),
        first_bad_answer(qs.subrange(0, k), answers) is Some,
    ensures
        first_bad_answer(qs, answers) == first_bad_answer(qs.subrange(0, k), answers),
    decreases qs.len() - k,
{
    if k < qs.len() {
        assert(qs.subrange(0, k + 1).drop_last() =~= qs.subrange(0, k));
        lemma_first_bad_prefix(qs, answers, k + 1);
    } else {
        assert(qs.subrange(0, k) =~= qs);
    }
}


/// One selectable option as the browser receives it.
#[derive(Clone, Debug)]
pub struct QuestionOptionMetadata {
    pub id: String,
    pub label: String,
    pub description: Option<String>,
}

/// A structured question as the browser receives it.
#[derive(Clone, Debug)]
pub struct QuestionMetadata {
    pub id: String,
    pub header: String,
    pub prompt: String,
    /// `single` when there are options to pick from, `text` otherwise.
    pub kind: String,
    pub options: Vec<QuestionOptionMetadata>,
    pub is_other: bool,
    pub is_secret: bool,
}

/// The browser options of a question: each non-blank trimmed label once (its
/// first occurrence), with its description when that is not blank.
pub open spec fn meta_options(opts: Seq<UserInputOption>) -> Seq<(Seq<char>, Option<Seq<char>>)>
    decreases opts.len(),
{
    if opts.len() == 0 {
        Seq::empty()
    } else {
        let prev = meta_options(opts.drop_last());
        let o = opts.last();
        let l = trim(o.label@);
        if l.len() == 0 || prev.map_values(|p: (Seq<char>, Option<Seq<char>>)| p.0).contains(l) {
            prev
        } else {
            prev.push(
                (
                    l,
                    if trim(o.description@).len() > 0 {
                        Some(o.description@)
                    } else {
                        None
                    },
                ),
            )
        }
    }
}

pub open spec fn option_meta_views(s: Seq<QuestionOptionMetadata>) -> Seq<(Seq<char>, Option<Seq<char>>)> {
    s.map_values(|m: QuestionOptionMetadata| (m.label@, opt_view(m.description)))
}

/// The labels of the options gathered so far.
pub open spec fn option_labels(out: Seq<QuestionOptionMetadata>) -> Seq<Seq<char>> {
    option_meta_views(out).map_values(|p: (Seq<char>, Option<Seq<char>>)| p.0)
}

/// The browser projection of a structured question.
pub fn request_user_input_question_to_metadata(question: &UserInputQuestion) -> (r: QuestionMetadata)
    ensures
        r.id@ == question.id@,
        r.header@ == question.header@,
        r.prompt@ == question.question@,
        option_meta_views(r.options@) == match question.options {
            Some(o) => meta_options(o@),
            None => Seq::empty(),
        },
        r.options@.len() > 0 ==> r.kind@ == "single"@,
        r.options@.len() == 0 ==> r.kind@ == "text"@,
        forall|k: int| 0 <= k < r.options@.len() ==> (#[trigger] r.options@[k]).id@ == r.options@[k].label@,
        r.is_other == question.is_other,
        r.is_secret == question.is_secret,
{
    let mut out: Vec<QuestionOptionMetadata> = Vec::new();
    match &question.options {
        None => {
            assert(option_meta_views(out@) =~= Seq::<(Seq<char>, Option<Seq<char>>)>::empty());
        },
        Some(opts) => {
            let mut i: usize = 0;
            let mut seen = StringHashSet::new();
            assert(opts@.subrange(0, 0) =~= Seq::<UserInputOption>::empty());
            assert(option_meta_views(out@) =~= Seq::<(Seq<char>, Option<Seq<char>>)>::empty());
            assert(option_labels(out@).to_set() =~= Set::<Seq<char>>::empty());
            while i < opts.len()
                invariant
                    i <= opts@.len(),
                    seen@ == option_labels(out@).to_set(),
                    option_meta_views(out@) == meta_options(opts@.subrange(0, i as int)),
                    forall|k: int|
                        0 <= k < out@.len() ==> (#[trigger] out@[k]).id@ == out@[k].label@,
                decreases opts.len() - i,
            {
                assert(opts@.subrange(0, i + 1).drop_last() =~= opts@.subrange(0, i as int));
                let o = &opts[i];
                let l = trim_str(o.label.as_str());
                if l.len() > 0 {
                    let ls = string_of(&l);
                    if seen.insert(ls.clone()) {
                        let d = trim_str(o.description.as_str());
                        let description = if d.len() > 0 {
                            Some(o.description.clone())
                        } else {
                            None
                        };
                        let ghost before = out@;
                        out.push(QuestionOptionMetadata { id: ls.clone(), label: ls, description });
                        assert(option_meta_views(out@) =~= option_meta_views(before).push(
                            (l@, opt_view(description)),
                        ));
                        proof {
                            assert(option_labels(out@) =~= option_labels(before).push(l@));
                            option_labels(before).lemma_push_to_set_commute(l@);
                        }
                    }
                }
                i += 1;
            }
            assert(opts@.subrange(0, opts@.len() as int) =~= opts@);
        },
    }
    let kind = if out.len() > 0 {
        String::from_str("single")
    } else {
        String::from_str("text")
    };
    QuestionMetadata {
        id: question.id.clone(),
        header: question.header.clone(),
        prompt: question.question.clone(),
        kind,
        options: out,
        is_other: question.is_other,
        is_secret: question.is_secret,
    }
}


// ---------------------------------------------------------------------------
// Web message admission
// ---------------------------------------------------------------------------
/// How a browser message is admitted into the worker executor.
#[derive(Clone, Copy, Debug, PartialEq, Eq, Structural)]
pub enum WebTurnMode {
    /// Plain chat enters the Phase 0 plan workflow.
    PlanPhase0,
    /// Explicit direct tool loop (`/`-prefixed).
    ExplicitDirect,
}

/// Non-blank text that does not start with `/` (after leading whitespace).
pub open spec fn routes_to_plan(text: Seq<char>) -> bool {
    let t = crate::text::trim_start(text);
    trim(t).len() > 0 && !(t.len() > 0 && t[0] == '/')
}

/// Plain messages enter the plan workflow instead of a direct turn.
pub fn should_route_plain_message_to_plan(text: &str) -> (r: bool)
    ensures
        r == routes_to_plan(text@),
{
    let v = chars_of(text);
    let t = crate::text::trim_start_vec(&v);
    let tt = crate::text::trim_vec(&t);
    tt.len() > 0 && !(t.len() > 0 && t[0] == '/')
}

pub fn web_turn_mode_for_message(text: &str) -> (r: WebTurnMode)
    ensures
        r == if routes_to_plan(text@) {
            WebTurnMode::PlanPhase0
        } else {
            WebTurnMode::ExplicitDirect
        },
{
    if should_route_plain_message_to_plan(text) {
        WebTurnMode::PlanPhase0
    } else {
        WebTurnMode::ExplicitDirect
    }
}

// ---------------------------------------------------------------------------
// Tool-call summaries and review metadata
// ---------------------------------------------------------------------------

/// The string under `key` of a JSON object, if the document is an object
/// whose field `key` is a string.
pub open spec fn string_arg(args: JsonDocument, key: Seq<char>) -> Option<Seq<char>> {
    match args {
        JsonDocument::Object(fields) => match field_of(fields@, key) {
            Some(JsonField::String(s)) => Some(s@),
            _ => None,
        },
        JsonDocument::Other(_) => None,
    }
}

pub(crate) fn string_arg_exec(args: &JsonDocument, key: &str) -> (r: Option<String>)
    ensures
        match r {
            Some(s) => string_arg(*args, key@) == Some(s@),
            None => string_arg(*args, key@) is None,
        },
{
    match args {
        JsonDocument::Object(fields) => match field_of_exec(fields, key) {
            Some(JsonField::String(s)) => Some(s),
            _ => None,
        },
        JsonDocument::Other(_) => None,
    }
}

/// `s` with every `_` replaced by a space.
pub open spec fn underscores_to_spaces(s: Seq<char>) -> Seq<char> {
    s.map_values(|c: char| if c == '_' { ' ' } else { c })
}

/// The one-line summary of a tool call: the shell command, file read or
/// search query when the arguments name one, a fixed phrase for the
/// planning and patch tools, else the tool name with `_` read as a space.
pub open spec fn tool_call_summary(tool: Seq<char>, args: JsonDocument) -> Seq<char> {
    if tool == "shell"@ && string_arg(args, "command"@) is Some {
        "Run `"@ + string_arg(args, "command"@)->0 + "`"@
    } else if tool == "read_file"@ && string_arg(args, "path"@) is Some {
        "Read "@ + string_arg(args, "path"@)->0
    } else if tool == "web_search"@ && string_arg(args, "query"@) is Some {
        "Search "@ + string_arg(args, "query"@)->0
    } else if tool == "apply_patch"@ {
        "Apply patch"@
    } else if tool == "request_user_input"@ {
        "Ask for user input"@
    } else if tool == "submit_intent_draft"@ {
        "Submit intent draft"@
    } else if tool == "submit_plan_draft"@ {
        "Submit plan draft"@
    } else if tool == "update_plan"@ {
        "Update plan"@
    } else {
        underscores_to_spaces(tool)
    }
}

fn spaced(tool: &str) -> (r: String)
    ensures
        r@ == underscores_to_spaces(tool@),
{
    let v = chars_of(tool);
    let mut out: Vec<char> = Vec::new();
    let mut i: usize = 0;
    while i < v.len()
        invariant
            i <= v@.len(),
            v@ == tool@,
            out@ == underscores_to_spaces(tool@).subrange(0, i as int),
        decreases v.len() - i,
    {
        let c = v[i];
        out.push(if c == '_' { ' ' } else { c });
        i += 1;
        assert(out@ =~= underscores_to_spaces(tool@).subrange(0, i as int));
    }
    assert(underscores_to_spaces(tool@).subrange(0, v@.len() as int) =~= underscores_to_spaces(tool@));
    string_of(&out)
}

/// The one-line summary shown for a call of `tool_name` with `arguments`.
pub fn headless_tool_call_summary(tool_name: &str, arguments: &JsonDocument) -> (r: String)
    ensures
        r@ == tool_call_summary(tool_name@, *arguments),
{
    if str_eq(tool_name, "shell") {
        if let Some(command) = string_arg_exec(arguments, "command") {
            return concat3("Run `", command.as_str(), "`");
        }
    }
    if str_eq(tool_name, "read_file") {
        if let Some(path) = string_arg_exec(arguments, "path") {
            return concat("Read ", path.as_str());
        }
    }
    if str_eq(tool_name, "web_search") {
        if let Some(query) = string_arg_exec(arguments, "query") {
            return concat("Search ", query.as_str());
        }
    }
    if str_eq(tool_name, "apply_patch") {
        String::from_str("Apply patch")
    } else if str_eq(tool_name, "request_user_input") {
        String::from_str("Ask for user input")
    } else if str_eq(tool_name, "submit_intent_draft") {
        String::from_str("Submit intent draft")
    } else if str_eq(tool_name, "submit_plan_draft") {
        String::from_str("Submit plan draft")
    } else if str_eq(tool_name, "update_plan") {
        String::from_str("Update plan")
    } else {
        spaced(tool_name)
    }
}

/// Whether review metadata carries an IntentSpec: `intentSpec` is a string
/// that is not blank, or an object.
pub open spec fn has_intent_spec(metadata: JsonDocument) -> bool {
    match metadata {
        JsonDocument::Object(fields) => match field_of(fields@, "intentSpec"@) {
            Some(JsonField::String(s)) => trim(s@).len() > 0,
            Some(JsonField::Object(_)) => true,
            _ => false,
        },
        JsonDocument::Other(_) => false,
    }
}

/// Whether the metadata of an IntentSpec review carries the spec itself.
pub fn interaction_metadata_has_intent_spec(metadata: &JsonDocument) -> (r: bool)
    ensures
        r == has_intent_spec(*metadata),
{
    match metadata {
        JsonDocument::Object(fields) => match field_of_exec(fields, "intentSpec") {
            Some(JsonField::String(s)) => trim_str(s.as_str()).len() > 0,
            Some(JsonField::Object(_)) => true,
            _ => false,
        },
        JsonDocument::Other(_) => false,
    }
}

// ---------------------------------------------------------------------------
// Phase 0 risk
// ---------------------------------------------------------------------------

/// The name of a risk level (`Low`, `Medium`, `High`).
pub open spec fn risk_name(r: RiskLevel) -> Seq<char> {
    match r {
        RiskLevel::Low => "Low"@,
        RiskLevel::Medium => "Medium"@,
        RiskLevel::High => "High"@,
    }
}

fn risk_name_str(r: RiskLevel) -> (s: &'static str)
    ensures
        s@ == risk_name(r),
{
    match r {
        RiskLevel::Low => "Low",
        RiskLevel::Medium => "Medium",
        RiskLevel::High => "High",
    }
}

/// The risk level an IntentSpec is resolved with: the user's `risk_profile`
/// selection, which is required and must agree with the level the model
/// drafted, when it drafted one.
pub open spec fn phase0_risk(selected: Option<RiskLevel>, drafted: Option<RiskLevel>) -> Result<RiskLevel, Seq<char>> {
    match selected {
        None => Err("Phase 0 requires a completed risk_profile selection before IntentSpec review"@),
        Some(user) => match drafted {
            Some(model) => if user != model {
                Err(
                    "risk_profile selection ("@ + risk_name(user) + ") does not match IntentDraft.risk.level ("@
                        + risk_name(model) + ")"@,
                )
            } else {
                Ok(user)
            },
            None => Ok(user),
        },
    }
}

/// The risk level of a Phase 0 IntentSpec, or why it cannot be resolved.
pub fn phase0_risk_level(selected: Option<RiskLevel>, drafted: Option<RiskLevel>) -> (r: Result<RiskLevel, String>)
    ensures
        match r {
            Ok(l) => phase0_risk(selected, drafted) == Ok::<RiskLevel, Seq<char>>(l),
            Err(m) => phase0_risk(selected, drafted) == Err::<RiskLevel, Seq<char>>(m@),
        },
{
    match selected {
        None => Err(String::from_str("Phase 0 requires a completed risk_profile selection before IntentSpec review")),
        Some(user) => match drafted {
            Some(model) => {
                if user != model {
                    let head = concat3("risk_profile selection (", risk_name_str(user), ") does not match IntentDraft.risk.level (");
                    Err(concat3(head.as_str(), risk_name_str(model), ")"))
                } else {
                    Ok(user)
                }
            },
            None => Ok(user),
        },
    }
}

// ---------------------------------------------------------------------------
// Tool-call results
// ---------------------------------------------------------------------------

/// The result of a tool call as its projection reads it: an output, whether
/// it reports success, and its text if it has one; or the call's error.
#[derive(Debug, Clone)]
pub enum ToolCallResult {
    Output { success: bool, text: Option<String> },
    Error(String),
}

/// The status and details a finished tool call is shown with: `completed`
/// with the output's text for a successful output, else `failed` with the
/// output's text or the error.
pub open spec fn tool_call_outcome(result: ToolCallResult) -> (Seq<char>, Option<Seq<char>>) {
    match result {
        ToolCallResult::Output { success, text } => (
            if success {
                "completed"@
            } else {
                "failed"@
            },
            opt_view(text),
        ),
        ToolCallResult::Error(e) => ("failed"@, Some(e@)),
    }
}

/// The status and details of a finished tool call.
pub fn tool_call_status(result: &ToolCallResult) -> (r: (String, Option<String>))
    ensures
        (r.0@, opt_view(r.1)) == tool_call_outcome(*result),
{
    match result {
        ToolCallResult::Output { success, text } => {
            let details = match text {
                Some(t) => Some(t.clone()),
                None => None,
            };
            if *success {
                (String::from_str("completed"), details)
            } else {
                (String::from_str("failed"), details)
            }
        },
        ToolCallResult::Error(e) => (String::from_str("failed"), Some(e.clone())),
    }
}

/// The refusal of an IntentSpec review answer aimed at another interaction.
pub open spec fn misdirected_review_text(responded: Seq<char>, expected: Seq<char>) -> Seq<char> {
    "IntentSpec review response targeted '"@ + responded + "' but pending gate is '"@ + expected + "'"@
}

/// How an IntentSpec review answer settles its turn: an answer to another
/// interaction fails; a confirmation completes the turn; a modification
/// arms revision mode and a cancellation ends the review, both discarding
/// queued work.
pub fn intent_review_settlement(expected: &str, responded: &str, decision: IntentReviewDecision) -> (r: Result<
    RuntimeTurnExecution,
    RuntimeWorkerError,
>)
    ensures
        match r {
            Err(e) => responded@ != expected@ && failed_with(e, misdirected_review_text(responded@, expected@)),
            Ok(x) => responded@ == expected@ && match decision {
                IntentReviewDecision::Confirm => x matches RuntimeTurnExecution::Completed { summary }
                    && summary@ == "IntentSpec confirmed; Phase 1 plan generation remains GATE-WEB-PLAN"@,
                IntentReviewDecision::Modify => x matches RuntimeTurnExecution::CompletedDiscardQueued { summary }
                    && summary@ == "IntentSpec revision mode armed; send a plain message with requested changes"@,
                IntentReviewDecision::Cancel => x matches RuntimeTurnExecution::CompletedDiscardQueued { summary }
                    && summary@ == "IntentSpec review cancelled"@,
            },
        },
{
    if !str_eq(responded, expected) {
        let head = concat3("IntentSpec review response targeted '", responded, "' but pending gate is '");
        return Err(RuntimeWorkerError::ExecutionFailed(concat3(head.as_str(), expected, "'")));
    }
    match decision {
        IntentReviewDecision::Confirm => Ok(
            RuntimeTurnExecution::Completed {
                summary: String::from_str("IntentSpec confirmed; Phase 1 plan generation remains GATE-WEB-PLAN"),
            },
        ),
        IntentReviewDecision::Modify => Ok(
            RuntimeTurnExecution::CompletedDiscardQueued {
                summary: String::from_str("IntentSpec revision mode armed; send a plain message with requested changes"),
            },
        ),
        IntentReviewDecision::Cancel => Ok(
            RuntimeTurnExecution::CompletedDiscardQueued { summary: String::from_str("IntentSpec review cancelled") },
        ),
    }
}

/// How an IntentSpec review answer settles a web turn whose pending review
/// is `expected`: without a pending review the answer fails; otherwise as
/// `intent_review_settlement`.
pub fn pending_intent_review_settlement(expected: Option<&str>, responded: &str, decision: IntentReviewDecision) -> (r:
    Result<RuntimeTurnExecution, RuntimeWorkerError>)
    ensures
        expected is None ==> (r matches Err(e) && failed_with(
            e,
            "no pending IntentSpec review is registered for this web turn"@,
        )),
        expected matches Some(x) ==> match r {
            Err(e) => responded@ != x@ && failed_with(e, misdirected_review_text(responded@, x@)),
            Ok(t) => responded@ == x@ && match decision {
                IntentReviewDecision::Confirm => t matches RuntimeTurnExecution::Completed { summary }
                    && summary@ == "IntentSpec confirmed; Phase 1 plan generation remains GATE-WEB-PLAN"@,
                IntentReviewDecision::Modify => t matches RuntimeTurnExecution::CompletedDiscardQueued { summary }
                    && summary@ == "IntentSpec revision mode armed; send a plain message with requested changes"@,
                IntentReviewDecision::Cancel => t matches RuntimeTurnExecution::CompletedDiscardQueued { summary }
                    && summary@ == "IntentSpec review cancelled"@,
            },
        },
{
    match expected {
        None => Err(
            RuntimeWorkerError::ExecutionFailed(
                String::from_str("no pending IntentSpec review is registered for this web turn"),
            ),
        ),
        Some(x) => intent_review_settlement(x, responded, decision),
    }
}

// ---------------------------------------------------------------------------
// Interaction resolutions
// ---------------------------------------------------------------------------

/// An answered interaction as its resolution label reads it.
#[derive(Debug, Clone)]
pub enum ResolutionSource {
    /// A structured user-input question.
    UserInput,
    /// An exec approval, with its answer when the answer decoded.
    ExecApproval(Option<CodeUiInteractionResponse>),
    /// An IntentSpec review, with its decision when the answer named one.
    IntentReview(Option<IntentReviewDecision>),
}

/// The label of an exec-approval decision.
pub open spec fn decision_label(d: ReviewDecision) -> Seq<char> {
    match d {
        ReviewDecision::Approved => "approved"@,
        ReviewDecision::ApprovedForAllCommands => "approved_for_all_commands"@,
        ReviewDecision::Denied => "denied"@,
        ReviewDecision::Abort => "aborted"@,
    }
}

/// How an answered interaction is recorded: `answered` for user input; the
/// decision of an exec approval (`approval_resolved` when none could be
/// read); the wire id of an IntentSpec review decision
/// (`intent_review_resolved` when none could be read).
pub open spec fn resolution_label(source: ResolutionSource) -> Seq<char> {
    match source {
        ResolutionSource::UserInput => "answered"@,
        ResolutionSource::ExecApproval(r) => match r {
            Some(resp) => match review_decision_of(resp) {
                Ok(d) => decision_label(d),
                Err(_) => "approval_resolved"@,
            },
            None => "approval_resolved"@,
        },
        ResolutionSource::IntentReview(d) => match d {
            Some(x) => intent_wire_id(x),
            None => "intent_review_resolved"@,
        },
    }
}

/// The resolution recorded for an answered interaction.
pub fn interaction_resolution(source: ResolutionSource) -> (r: String)
    ensures
        r@ == resolution_label(source),
{
    let ghost src = source;
    match source {
        ResolutionSource::UserInput => String::from_str("answered"),
        ResolutionSource::ExecApproval(r) => match r {
            Some(resp) => match review_decision_from_interaction_response(resp) {
                Ok(ReviewDecision::Approved) => String::from_str("approved"),
                Ok(ReviewDecision::ApprovedForAllCommands) => String::from_str("approved_for_all_commands"),
                Ok(ReviewDecision::Denied) => String::from_str("denied"),
                Ok(ReviewDecision::Abort) => String::from_str("aborted"),
                Err(_) => String::from_str("approval_resolved"),
            },
            None => String::from_str("approval_resolved"),
        },
        ResolutionSource::IntentReview(d) => match d {
            Some(x) => String::from_str(x.wire_id()),
            None => String::from_str("intent_review_resolved"),
        },
    }
}

// ---------------------------------------------------------------------------
// Restoring a pending IntentSpec review
// ---------------------------------------------------------------------------

/// Whether restoring an unresolved IntentSpec review is skipped: without
/// durable persistence, or while a review is already pending in memory.
pub fn intent_review_restore_skipped(has_persistence: bool, reviews_pending: bool) -> (r: bool)
    ensures
        r == (!has_persistence || reviews_pending),
{
    !has_persistence || reviews_pending
}

/// An interaction of the session projection as the review restore reads it.
#[derive(Debug, Clone)]
pub struct ProjectedInteraction {
    pub id: String,
    /// Whether it is an IntentSpec review choice.
    pub intent_review_choice: bool,
    /// Whether it is still pending.
    pub pending: bool,
    pub metadata: JsonDocument,
}

/// The first pending IntentSpec review choice with id `id`, if any.
pub open spec fn pending_review_at(s: Seq<ProjectedInteraction>, id: Seq<char>) -> Option<int>
    decreases s.len(),
{
    if s.len() == 0 {
        None
    } else {
        match pending_review_at(s.drop_last(), id) {
            Some(k) => Some(k),
            None => if s.last().id@ == id && s.last().intent_review_choice && s.last().pending {
                Some(s.len() - 1)
            } else {
                None
            },
        }
    }
}

/// Whether the restored review must reload its metadata from the durable
/// IntentSpec: the projection has no pending IntentSpec review choice for
/// it, or that interaction's metadata carries no IntentSpec.
pub open spec fn needs_restored_metadata(s: Seq<ProjectedInteraction>, id: Seq<char>) -> bool {
    match pending_review_at(s, id) {
        None => true,
        Some(k) => !has_intent_spec(s[k].metadata),
    }
}

/// Whether the review `interaction_id` restored from the workflow log needs
/// its metadata reloaded (see `needs_restored_metadata`).
pub fn restored_review_needs_metadata(interactions: &Vec<ProjectedInteraction>, interaction_id: &str) -> (r: bool)
    ensures
        r == needs_restored_metadata(interactions@, interaction_id@),
{
    let ghost s = interactions@;
    let mut i: usize = 0;
    assert(s.subrange(0, 0) =~= Seq::<ProjectedInteraction>::empty());
    while i < interactions.len()
        invariant
            i <= s.len(),
            s == interactions@,
            pending_review_at(s.subrange(0, i as int), interaction_id@) is None,
        decreases interactions.len() - i,
    {
        let ghost pre = s.subrange(0, i + 1);
        assert(pre.drop_last() =~= s.subrange(0, i as int));
        assert(pre.last() == s[i as int]);
        let x = &interactions[i];
        if x.intent_review_choice && x.pending && str_eq(x.id.as_str(), interaction_id) {
            proof {
                lemma_pending_review_prefix(s, interaction_id@, i as int);
            }
            return !interaction_metadata_has_intent_spec(&x.metadata);
        }
        i += 1;
    }
    assert(s.subrange(0, s.len() as int) =~= s);
    true
}

proof fn lemma_pending_review_prefix(s: Seq<ProjectedInteraction>, id: Seq<char>, i: int)
    requires
        0 <= i < s.len(),
        pending_review_at(s.subrange(0, i), id) is None,
        s[i].id@ == id && s[i].intent_review_choice && s[i].pending,
    ensures
        pending_review_at(s, id) == Some(i),
    decreases s.len(),
{
    if i < s.len() - 1 {
        let init = s.drop_last();
        assert(init.subrange(0, i) =~= s.subrange(0, i));
        assert(init[i] == s[i]);
        lemma_pending_review_prefix(init, id, i);
    } else {
        assert(s.drop_last() =~= s.subrange(0, i));
    }
}

/// The turn a restored review runs under: the stored gate turn, or a fresh
/// `intent-review-restore-<fresh_id>` turn when none was stored.
pub open spec fn restore_turn_text(stored: Seq<char>, fresh_id: Seq<char>) -> Seq<char> {
    if stored.len() == 0 {
        "intent-review-restore-"@ + fresh_id
    } else {
        stored
    }
}

/// The turn id of a restored review (see `restore_turn_text`).
pub fn restored_review_turn_id(stored_turn_id: &str, fresh_id: &str) -> (r: String)
    ensures
        r@ == restore_turn_text(stored_turn_id@, fresh_id@),
{
    if stored_turn_id.unicode_len() == 0 {
        concat("intent-review-restore-", fresh_id)
    } else {
        String::from_str(stored_turn_id)
    }
}

/// Why the runtime refused to track a restored review turn.
#[derive(Debug, Clone, Copy, PartialEq, Eq, Structural)]
pub enum TrackFailure {
    /// The turn id was already used by an idempotent command, whose
    /// acknowledgement did or did not succeed.
    IdempotentCommand { ack_ok: bool },
    /// Any other refusal.
    Other,
}

/// Whether a refused restore is retried under a fresh turn: only when the
/// runtime acknowledged an idempotent command under the stored turn id;
/// any other refusal fences the session.
pub fn retry_restore_with_fresh_turn(failure: TrackFailure) -> (r: bool)
    ensures
        r == (failure == TrackFailure::IdempotentCommand { ack_ok: true }),
{
    match failure {
        TrackFailure::IdempotentCommand { ack_ok } => ack_ok,
        TrackFailure::Other => false,
    }
}

} // verus!
