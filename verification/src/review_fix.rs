//! `libra review --fix`: the narrow typed projection of the Code session
//! control protocol, validation of the answers given to its interactions,
//! and the fail-closed outcome rules of the admission bridge.
use vstd::prelude::*;

use crate::text::{
    chars_of, concat3, contains_str, has_control, has_control_char, seq_eq, str_eq, string_of,
    keys_distinct, opt_view, string_views, trim, trim_str, trim_vec,
};

verus! {

// ---------------------------------------------------------------------------
// Errors and outcomes
// ---------------------------------------------------------------------------
/// Where a review-fix request may come from.
#[derive(Clone, Copy, Debug, PartialEq, Eq, Structural)]
pub enum ReviewFixInput {
    /// The CLI's fixed admission request; it holds no observed-agent data.
    TrustedAdmission,
    /// An issue, transcript, finding, or other observed external-agent seed.
    UntrustedSeed,
}

/// Fail-closed result of the review-fix bridge.
#[derive(Clone, Copy, Debug, PartialEq, Eq, Structural)]
pub enum ReviewFixBridgeError {
    /// No authorized active Code runtime is available.
    Unavailable,
    /// Untrusted seed content cannot enter a mutating workflow.
    UntrustedSeed,
    /// The controlled execution failed or the runtime answered out of schema.
    ExecutionFailed,
    /// An interaction answer does not fit the interaction.
    InvalidInteractionResponse,
    /// A human denied a tool approval.
    ApprovalDenied,
    /// A human denied a sandbox approval.
    SandboxDenied,
}

/// How a controlled review-fix execution ended.
#[derive(Clone, Copy, Debug, PartialEq, Eq, Structural)]
pub enum ReviewFixExecutionOutcome {
    PatchApplied,
}

/// Untrusted seeds are refused before any runtime is contacted.
pub fn review_fix_admission_gate(input: ReviewFixInput) -> (r: Result<(), ReviewFixBridgeError>)
    ensures
        input == ReviewFixInput::UntrustedSeed <==> r == Err::<(), ReviewFixBridgeError>(
            ReviewFixBridgeError::UntrustedSeed,
        ),
        input == ReviewFixInput::TrustedAdmission <==> r is Ok,
{
    if input == ReviewFixInput::UntrustedSeed {
        Err(ReviewFixBridgeError::UntrustedSeed)
    } else {
        Ok(())
    }
}

/// Once a runtime was reached, losing it is an execution failure rather
/// than a missing runtime.
pub fn normalize_active_execution_error(error: ReviewFixBridgeError) -> (r: ReviewFixBridgeError)
    ensures
        r == (if error == ReviewFixBridgeError::Unavailable {
            ReviewFixBridgeError::ExecutionFailed
        } else {
            error
        }),
{
    if error == ReviewFixBridgeError::Unavailable {
        ReviewFixBridgeError::ExecutionFailed
    } else {
        error
    }
}

/// The execution's own error wins; a failed controller detach still fails
/// an otherwise successful execution.
pub fn finish_execution(
    execution: Result<ReviewFixExecutionOutcome, ReviewFixBridgeError>,
    detach: Result<(), ReviewFixBridgeError>,
) -> (r: Result<ReviewFixExecutionOutcome, ReviewFixBridgeError>)
    ensures
        r == match (execution, detach) {
            (Err(e), _) => Err(e),
            (Ok(_), Err(e)) => Err(e),
            (Ok(o), Ok(())) => Ok(o),
        },
{
    match execution {
        Err(e) => Err(e),
        Ok(o) => match detach {
            Err(e) => Err(e),
            Ok(()) => Ok(o),
        },
    }
}

/// An admission is reported only after its controller lease is released:
/// the submission's error wins, then the detach's.
pub fn finish_admission(
    submission: Result<(), ReviewFixBridgeError>,
    detach: Result<(), ReviewFixBridgeError>,
) -> (r: Result<(), ReviewFixBridgeError>)
    ensures
        r == match submission {
            Err(e) => Err(e),
            Ok(()) => detach,
        },
{
    match submission {
        Err(e) => Err(e),
        Ok(()) => detach,
    }
}

/// `base_path` without trailing slashes, `/`, then `endpoint` without
/// leading slashes.
pub open spec fn strip_trailing_slashes(s: Seq<char>) -> Seq<char>
    decreases s.len(),
{
    if s.len() > 0 && s.last() == '/' {
        strip_trailing_slashes(s.drop_last())
    } else {
        s
    }
}

pub open spec fn strip_leading_slashes(s: Seq<char>) -> Seq<char>
    decreases s.len(),
{
    if s.len() > 0 && s[0] == '/' {
        strip_leading_slashes(s.drop_first())
    } else {
        s
    }
}

/// The path of a control endpoint under the control base path.
pub fn control_endpoint_path(base_path: &str, endpoint: &str) -> (r: String)
    ensures
        r@ == strip_trailing_slashes(base_path@) + "/"@ + strip_leading_slashes(endpoint@),
{
    let b = chars_of(base_path);
    let mut j: usize = b.len();
    assert(b@.subrange(0, j as int) =~= b@);
    while j > 0 && b[j - 1] == '/'
        invariant
            j <= b.len(),
            strip_trailing_slashes(b@.subrange(0, j as int)) == strip_trailing_slashes(b@),
        decreases j,
    {
        assert(b@.subrange(0, j - 1) =~= b@.subrange(0, j as int).drop_last());
        j -= 1;
    }
    assert(b@.subrange(0, j as int) =~= b@.subrange(0, j as int));
    let e = chars_of(endpoint);
    let mut i: usize = 0;
    assert(e@.subrange(0, e.len() as int) =~= e@);
    while i < e.len() && e[i] == '/'
        invariant
            i <= e.len(),
            strip_leading_slashes(e@.subrange(i as int, e.len() as int)) == strip_leading_slashes(
                e@,
            ),
        decreases e.len() - i,
    {
        assert(e@.subrange(i + 1, e.len() as int) =~= e@.subrange(i as int, e.len() as int).drop_first());
        i += 1;
    }
    assert(e@.subrange(0, e.len() as int) =~= e@);
    let mut out: Vec<char> = Vec::new();
    let mut k: usize = 0;
    while k < j
        invariant
            k <= j <= b.len(),
            out@ == b@.subrange(0, k as int),
        decreases j - k,
    {
        out.push(b[k]);
        k += 1;
        assert(out@ =~= b@.subrange(0, k as int));
    }
    out.push('/');
    let ghost mid = out@;
    let mut m: usize = i;
    while m < e.len()
        invariant
            i <= m <= e.len(),
            out@ == mid + e@.subrange(i as int, m as int),
        decreases e.len() - m,
    {
        out.push(e[m]);
        m += 1;
        assert(out@ =~= mid + e@.subrange(i as int, m as int));
    }
    proof {
        let tb = b@.subrange(0, j as int);
        assert(!(tb.len() > 0 && tb.last() == '/'));
        assert(strip_trailing_slashes(tb) == tb);
        let te = e@.subrange(i as int, e.len() as int);
        assert(!(te.len() > 0 && te[0] == '/'));
        assert(strip_leading_slashes(te) == te);
        reveal_strlit("/");
        assert(out@ =~= tb + "/"@ + te);
    }
    string_of(&out)
}

// ---------------------------------------------------------------------------
// Control endpoint URLs
// ---------------------------------------------------------------------------
/// The serialization and the path of the URL that `url::Url::parse` reads
/// from `serialized`, none when it does not parse.
pub uninterp spec fn url_parts_text(serialized: Seq<char>) -> Option<(Seq<char>, Seq<char>)>;

/// The serialization of the URL read from `serialized` after
/// `url::Url::set_path(path)`, none when it does not parse.
pub uninterp spec fn url_with_path_text(serialized: Seq<char>, path: Seq<char>) -> Option<Seq<char>>;

/// The serialization of the URL read from `serialized` after
/// `url::Url::set_query(None)`, none when it does not parse.
pub uninterp spec fn url_without_query_text(serialized: Seq<char>) -> Option<Seq<char>>;

/// The serialization of the URL read from `serialized` after
/// `url::Url::set_fragment(None)`, none when it does not parse.
pub uninterp spec fn url_without_fragment_text(serialized: Seq<char>) -> Option<Seq<char>>;

/// `url::Url::parse(serialized)`, then `Url::as_str` and `Url::path`. The
/// contract claims only that the result is the named pair of the text; URL
/// parsing is the url crate's and is not stated here.
#[verifier::external_body]
fn url_parts(serialized: &str) -> (r: Option<(String, String)>)
    ensures
        match r {
            Some((t, p)) => url_parts_text(serialized@) == Some((t@, p@)),
            None => url_parts_text(serialized@) is None,
        },
{
    match url::Url::parse(serialized) {
        Ok(u) => Some((u.as_str().to_string(), u.path().to_string())),
        Err(_) => None,
    }
}

/// Whether setting the path `path` on a URL serialized as `serialization`
/// keeps the url crate's `u32` offsets in range: a parsed serialization is
/// ASCII, and `set_path` writes each path character as at most twelve
/// (four UTF-8 bytes, each percent-encoded), plus a leading `/`.
pub open spec fn path_fits_offsets(serialization: Seq<char>, path: Seq<char>) -> bool {
    serialization.len() + 12 * (path.len() + 1) <= u32::MAX
}

/// `url::Url::parse(serialized)`, then `Url::set_path(path)` and
/// `Url::as_str`. The contract claims only that the result is the named
/// text. `set_path` panics once the serialization passes `u32::MAX` bytes,
/// so the path is held to `path_fits_offsets`.
#[verifier::external_body]
fn url_with_path(serialized: &str, path: &str) -> (r: Option<String>)
    requires
        url_parts_text(serialized@) matches Some((t, _)) && path_fits_offsets(t, path@),
    ensures
        opt_view(r) == url_with_path_text(serialized@, path@),
{
    match url::Url::parse(serialized) {
        Ok(mut u) => {
            u.set_path(path);
            Some(u.as_str().to_string())
        },
        Err(_) => None,
    }
}

/// `url::Url::parse(serialized)`, then `Url::set_query(None)` and
/// `Url::as_str`. The contract claims only that the result is the named
/// text.
#[verifier::external_body]
fn url_without_query(serialized: &str) -> (r: Option<String>)
    ensures
        opt_view(r) == url_without_query_text(serialized@),
{
    match url::Url::parse(serialized) {
        Ok(mut u) => {
            u.set_query(None);
            Some(u.as_str().to_string())
        },
        Err(_) => None,
    }
}

/// `url::Url::parse(serialized)`, then `Url::set_fragment(None)` and
/// `Url::as_str`. The contract claims only that the result is the named
/// text.
#[verifier::external_body]
fn url_without_fragment(serialized: &str) -> (r: Option<String>)
    ensures
        opt_view(r) == url_without_fragment_text(serialized@),
{
    match url::Url::parse(serialized) {
        Ok(mut u) => {
            u.set_fragment(None);
            Some(u.as_str().to_string())
        },
        Err(_) => None,
    }
}

/// The path of a control endpoint under the base path `base_path`.
pub open spec fn endpoint_path(base_path: Seq<char>, endpoint: Seq<char>) -> Seq<char> {
    strip_trailing_slashes(base_path) + "/"@ + strip_leading_slashes(endpoint)
}

/// The control endpoint URL: `base_url` with the path `base_path` (without
/// trailing slashes), `/`, `endpoint` (without leading slashes), and with no
/// query and no fragment.
pub open spec fn control_endpoint_text(
    base_url: Seq<char>,
    base_path: Seq<char>,
    endpoint: Seq<char>,
) -> Option<Seq<char>> {
    match url_with_path_text(base_url, endpoint_path(base_path, endpoint)) {
        Some(with_path) => match url_without_query_text(with_path) {
            Some(without_query) => url_without_fragment_text(without_query),
            None => None,
        },
        None => None,
    }
}

/// The control endpoint URL under `base_url`, whose path is `base_path`.
pub fn control_endpoint_at(base_url: &str, base_path: &str, endpoint: &str) -> (r: Option<String>)
    requires
        url_parts_text(base_url@) matches Some((t, _)) && path_fits_offsets(
            t,
            endpoint_path(base_path@, endpoint@),
        ),
    ensures
        opt_view(r) == control_endpoint_text(base_url@, base_path@, endpoint@),
{
    let path = control_endpoint_path(base_path, endpoint);
    match url_with_path(base_url, path.as_str()) {
        Some(with_path) => match url_without_query(with_path.as_str()) {
            Some(without_query) => url_without_fragment(without_query.as_str()),
            None => None,
        },
        None => None,
    }
}

/// The control endpoint URL under `base_url`: its path with the endpoint
/// appended, the query and the fragment dropped. `None` when `base_url` does
/// not parse as a URL, or when the new path could push the URL past the
/// url crate's `u32` offsets (where `set_path` would panic).
pub fn control_endpoint(base_url: &str, endpoint: &str) -> (r: Option<String>)
    ensures
        match url_parts_text(base_url@) {
            Some((t, p)) => if path_fits_offsets(t, endpoint_path(p, endpoint@)) {
                opt_view(r) == control_endpoint_text(base_url@, p, endpoint@)
            } else {
                r is None
            },
            None => r is None,
        },
{
    match url_parts(base_url) {
        Some((t, p)) => {
            let path = control_endpoint_path(p.as_str(), endpoint);
            let n: usize = t.as_str().unicode_len();
            let m: usize = path.as_str().unicode_len();
            if m < 0xFFFF_FFFFusize && n < 0xFFFF_FFFFusize && (n as u64) + 12 * ((m as u64) + 1)
                <= 0xFFFF_FFFFu64 {
                control_endpoint_at(base_url, p.as_str(), endpoint)
            } else {
                None
            }
        },
        None => None,
    }
}

// ---------------------------------------------------------------------------
// Control-protocol projection
// ---------------------------------------------------------------------------
/// Session status as the Code control snapshot reports it.
#[derive(Clone, Copy, Debug, PartialEq, Eq, Structural)]
pub enum ReviewFixSessionStatus {
    Idle,
    Thinking,
    ExecutingTool,
    AwaitingInteraction,
    Completed,
    Error,
    IndeterminateSideEffect,
}

/// The kind of a pending interaction.
#[derive(Clone, Copy, Debug, PartialEq, Eq, Structural)]
pub enum ReviewFixInteractionKind {
    Approval,
    SandboxApproval,
    RequestUserInput,
    IntentReviewChoice,
    PostPlanChoice,
    PlanExecutionRepair,
}

pub open spec fn kind_name(k: ReviewFixInteractionKind) -> Seq<char> {
    match k {
        ReviewFixInteractionKind::Approval => "approval"@,
        ReviewFixInteractionKind::SandboxApproval => "sandbox_approval"@,
        ReviewFixInteractionKind::RequestUserInput => "request_user_input"@,
        ReviewFixInteractionKind::IntentReviewChoice => "intent_review_choice"@,
        ReviewFixInteractionKind::PostPlanChoice => "post_plan_choice"@,
        ReviewFixInteractionKind::PlanExecutionRepair => "plan_execution_repair"@,
    }
}

impl ReviewFixInteractionKind {
    /// The snake-case wire name.
    pub fn as_str(self) -> (r: &'static str)
        ensures
            r@ == kind_name(self),
    {
        match self {
            ReviewFixInteractionKind::Approval => "approval",
            ReviewFixInteractionKind::SandboxApproval => "sandbox_approval",
            ReviewFixInteractionKind::RequestUserInput => "request_user_input",
            ReviewFixInteractionKind::IntentReviewChoice => "intent_review_choice",
            ReviewFixInteractionKind::PostPlanChoice => "post_plan_choice",
            ReviewFixInteractionKind::PlanExecutionRepair => "plan_execution_repair",
        }
    }
}

/// One question of a `request_user_input` interaction.
#[derive(Clone, Debug)]
pub struct ReviewFixQuestion {
    pub id: String,
    pub prompt: String,
    pub options: Vec<String>,
    pub allow_other: bool,
    pub is_secret: bool,
}

/// A pending interaction the review-fix state machine may act on.
#[derive(Clone, Debug)]
pub struct ReviewFixInteraction {
    pub id: String,
    pub kind: ReviewFixInteractionKind,
    pub title: Option<String>,
    pub prompt: Option<String>,
    pub options: Vec<String>,
    pub questions: Vec<ReviewFixQuestion>,
}

/// Status of an interaction on the wire.
#[derive(Clone, Copy, Debug, PartialEq, Eq, Structural)]
pub enum ReviewFixInteractionStatus {
    Pending,
    Resolved,
    Cancelled,
}

/// A selectable option on the wire.
#[derive(Clone, Debug)]
pub struct WireOption {
    pub id: String,
}

/// A question on the wire.
#[derive(Clone, Debug)]
pub struct WireQuestion {
    pub id: String,
    pub header: String,
    pub prompt: String,
    pub options: Vec<WireOption>,
    pub is_other: bool,
    pub is_secret: bool,
}

/// Interaction metadata on the wire.
#[derive(Clone, Debug)]
pub struct WireInteractionMetadata {
    pub questions: Vec<WireQuestion>,
}

/// An interaction on the wire.
#[derive(Clone, Debug)]
pub struct WireInteraction {
    pub id: String,
    pub kind: ReviewFixInteractionKind,
    pub status: ReviewFixInteractionStatus,
    pub title: Option<String>,
    pub description: Option<String>,
    pub prompt: Option<String>,
    pub options: Vec<WireOption>,
    pub metadata: WireInteractionMetadata,
}

/// One changed path of a patchset.
#[derive(Clone, Debug)]
pub struct ReviewFixPatchChange {
    pub path: String,
    pub change_type: String,
}

/// A patchset the session reports.
#[derive(Clone, Debug)]
pub struct ReviewFixPatchset {
    pub id: String,
    pub status: String,
    pub changes: Vec<ReviewFixPatchChange>,
}

/// The fields of the Code session snapshot the review fix may act on.
#[derive(Clone, Debug)]
pub struct ReviewFixSessionSnapshot {
    pub status: ReviewFixSessionStatus,
    pub interactions: Vec<WireInteraction>,
    pub patchsets: Vec<ReviewFixPatchset>,
}

/// A selectable identifier: non-empty, untrimmed-equal (no surrounding
/// whitespace), at most 512 characters and free of control characters.
pub open spec fn valid_id(s: Seq<char>) -> bool {
    s.len() > 0 && trim(s) == s && s.len() <= 512 && !has_control(s)
}

/// Every identifier is valid and no two are equal.
pub open spec fn ids_valid(s: Seq<Seq<char>>) -> bool {
    &&& forall|i: int| 0 <= i < s.len() ==> valid_id(#[trigger] s[i])
    &&& forall|i: int, j: int| 0 <= i < j < s.len() ==> #[trigger] s[i] != #[trigger] s[j]
}

pub open spec fn option_views(o: Seq<WireOption>) -> Seq<Seq<char>> {
    o.map_values(|w: WireOption| w.id@)
}

pub open spec fn options_ok(o: Seq<WireOption>) -> bool {
    o.len() <= 64 && ids_valid(option_views(o))
}

/// Trimmed text when it is not empty.
pub open spec fn text_of(s: Seq<char>) -> Option<Seq<char>> {
    if trim(s).len() > 0 {
        Some(trim(s))
    } else {
        None
    }
}

pub open spec fn opt_text(o: Option<String>) -> Option<Seq<char>> {
    match o {
        Some(s) => text_of(s@),
        None => None,
    }
}

/// The question prompt, falling back to its header.
pub open spec fn question_prompt(q: WireQuestion) -> Option<Seq<char>> {
    match text_of(q.prompt@) {
        Some(t) => Some(t),
        None => text_of(q.header@),
    }
}

pub open spec fn question_content_ok(q: WireQuestion) -> bool {
    question_prompt(q) is Some && options_ok(q.options@)
}

pub open spec fn question_ids(qs: Seq<WireQuestion>) -> Seq<Seq<char>> {
    qs.map_values(|q: WireQuestion| q.id@)
}

pub open spec fn questions_ok(qs: Seq<WireQuestion>) -> bool {
    ids_valid(question_ids(qs)) && forall|k: int|
        0 <= k < qs.len() ==> question_content_ok(#[trigger] qs[k])
}

/// `p` is the public projection of wire question `q`.
pub open spec fn question_public(p: ReviewFixQuestion, q: WireQuestion) -> bool {
    &&& p.id@ == q.id@
    &&& Some(p.prompt@) == question_prompt(q)
    &&& string_views(p.options@) == option_views(q.options@)
    &&& p.allow_other == q.is_other
    &&& p.is_secret == q.is_secret
}

/// Shape rule: `request_user_input` carries questions and no options, every
/// other kind carries options and no questions.
pub open spec fn interaction_shape_ok(w: WireInteraction) -> bool {
    if w.kind == ReviewFixInteractionKind::RequestUserInput {
        w.options@.len() == 0 && w.metadata.questions@.len() > 0
    } else {
        w.metadata.questions@.len() == 0 && w.options@.len() > 0
    }
}

pub open spec fn interaction_content_ok(w: WireInteraction) -> bool {
    &&& options_ok(w.options@)
    &&& w.metadata.questions@.len() <= 16
    &&& questions_ok(w.metadata.questions@)
    &&& interaction_shape_ok(w)
}

/// `p` is the public projection of wire interaction `w`.
pub open spec fn interaction_public(p: ReviewFixInteraction, w: WireInteraction) -> bool {
    &&& p.id@ == w.id@
    &&& p.kind == w.kind
    &&& opt_view(p.title) == opt_text(w.title)
    &&& opt_view(p.prompt) == match opt_text(w.prompt) {
        Some(t) => Some(t),
        None => opt_text(w.description),
    }
    &&& string_views(p.options@) == option_views(w.options@)
    &&& p.questions@.len() == w.metadata.questions@.len()
    &&& forall|k: int|
        0 <= k < p.questions@.len() ==> question_public(
            #[trigger] p.questions@[k],
            w.metadata.questions@[k],
        )
}

/// Checks `value` as a selectable identifier that is not yet in `ids`, and
/// records it.
pub fn required_unique_id(value: &str, ids: &mut Vec<String>) -> (r: Result<
    String,
    ReviewFixBridgeError,
>)
    ensures
        r is Ok <==> valid_id(value@) && !string_views(old(ids)@).contains(value@),
        match r {
            Ok(s) => s@ == value@ && final(ids)@ == old(ids)@.push(s),
            Err(e) => e == ReviewFixBridgeError::ExecutionFailed && final(ids)@ == old(ids)@,
        },
{
    let v = chars_of(value);
    let t = trim_vec(&v);
    if v.len() == 0 || !seq_eq(&t, &v) || v.len() > 512 || has_control_char(&v) || contains_str(
        ids,
        value,
    ) {
        return Err(ReviewFixBridgeError::ExecutionFailed);
    }
    let s = string_of(&v);
    ids.push(s.clone());
    Ok(s)
}

proof fn lemma_views_push(s: Seq<String>, x: String)
    ensures
        string_views(s.push(x)) == string_views(s).push(x@),
{
    assert(string_views(s.push(x)) =~= string_views(s).push(x@));
}

/// A failure at position `i` of an id list whose first `i` entries are fine
/// makes the whole list invalid.
proof fn lemma_ids_fail_at(s: Seq<Seq<char>>, i: int)
    requires
        0 <= i < s.len(),
        !valid_id(s[i]) || s.subrange(0, i).contains(s[i]),
    ensures
        !ids_valid(s),
{
    if s.subrange(0, i).contains(s[i]) {
        let k = choose|k: int| 0 <= k < i && s.subrange(0, i)[k] == s[i];
        assert(s[k] == s[i]);
    }
}

/// Extending a valid prefix by a valid entry it lacks keeps it valid.
proof fn lemma_ids_extend(s: Seq<Seq<char>>, i: int)
    requires
        0 <= i < s.len(),
        ids_valid(s.subrange(0, i)),
        valid_id(s[i]),
        !s.subrange(0, i).contains(s[i]),
    ensures
        ids_valid(s.subrange(0, i + 1)),
{
    let p = s.subrange(0, i);
    let q = s.subrange(0, i + 1);
    assert forall|a: int| 0 <= a < q.len() implies valid_id(#[trigger] q[a]) by {
        if a < i {
            assert(q[a] == p[a]);
        }
    }
    assert forall|a: int, b: int| 0 <= a < b < q.len() implies #[trigger] q[a] != #[trigger] q[b] by {
        if b < i {
            assert(q[a] == p[a] && q[b] == p[b]);
        } else {
            assert(q[a] == p[a]);
            if q[a] == q[b] {
                assert(p.contains(s[i]));
            }
        }
    }
}

/// The identifiers of `options`, each valid and distinct, at most 64.
pub fn option_ids(options: &Vec<WireOption>) -> (r: Result<Vec<String>, ReviewFixBridgeError>)
    ensures
        r is Ok <==> options_ok(options@),
        match r {
            Ok(v) => string_views(v@) == option_views(options@),
            Err(e) => e == ReviewFixBridgeError::ExecutionFailed,
        },
{
    if options.len() > 64 {
        return Err(ReviewFixBridgeError::ExecutionFailed);
    }
    let ghost all = option_views(options@);
    let mut ids: Vec<String> = Vec::new();
    let mut i: usize = 0;
    assert(all.subrange(0, 0) =~= Seq::<Seq<char>>::empty());
    assert(string_views(ids@) =~= Seq::<Seq<char>>::empty());
    while i < options.len()
        invariant
            i <= options.len() <= 64,
            all == option_views(options@),
            string_views(ids@) == all.subrange(0, i as int),
            ids_valid(all.subrange(0, i as int)),
        decreases options.len() - i,
    {
        assert(all[i as int] == options@[i as int].id@);
        let ghost before = ids@;
        match required_unique_id(options[i].id.as_str(), &mut ids) {
            Ok(s) => {
                proof {
                    lemma_ids_extend(all, i as int);
                    lemma_views_push(before, s);
                }
            },
            Err(e) => {
                proof {
                    lemma_ids_fail_at(all, i as int);
                }
                return Err(e);
            },
        }
        i += 1;
        assert(string_views(ids@) =~= all.subrange(0, i as int));
    }
    assert(all.subrange(0, options.len() as int) =~= all);
    Ok(ids)
}


/// Trimmed text of `value` when it is not empty.
pub fn non_empty(value: Option<&str>) -> (r: Option<String>)
    ensures
        opt_view(r) == match value {
            Some(v) => text_of(v@),
            None => None,
        },
{
    match value {
        None => None,
        Some(v) => {
            let t = trim_str(v);
            if t.len() == 0 {
                None
            } else {
                Some(string_of(&t))
            }
        },
    }
}

fn opt_str(o: &Option<String>) -> (r: Option<&str>)
    ensures
        match r {
            Some(s) => o is Some && s@ == o->0@,
            None => o is None,
        },
{
    match o {
        Some(s) => Some(s.as_str()),
        None => None,
    }
}

impl WireQuestion {
    /// The public question, recording its id in `question_ids`; fails
    /// closed on an invalid or repeated id, a question without prompt or
    /// header, or invalid options.
    pub fn to_public(&self, question_ids: &mut Vec<String>) -> (r: Result<
        ReviewFixQuestion,
        ReviewFixBridgeError,
    >)
        ensures
            r is Ok <==> valid_id(self.id@) && !string_views(old(question_ids)@).contains(self.id@)
                && question_content_ok(*self),
            string_views(final(question_ids)@) == if valid_id(self.id@) && !string_views(
                old(question_ids)@,
            ).contains(self.id@) {
                string_views(old(question_ids)@).push(self.id@)
            } else {
                string_views(old(question_ids)@)
            },
            match r {
                Ok(q) => question_public(q, *self),
                Err(e) => e == ReviewFixBridgeError::ExecutionFailed,
            },
    {
        let ghost before = question_ids@;
        let id = match required_unique_id(self.id.as_str(), question_ids) {
            Ok(id) => id,
            Err(e) => {
                return Err(e);
            },
        };
        proof {
            lemma_views_push(before, id);
        }
        let prompt = match non_empty(Some(self.prompt.as_str())) {
            Some(p) => p,
            None => match non_empty(Some(self.header.as_str())) {
                Some(h) => h,
                None => {
                    return Err(ReviewFixBridgeError::ExecutionFailed);
                },
            },
        };
        let options = match option_ids(&self.options) {
            Ok(o) => o,
            Err(e) => {
                return Err(e);
            },
        };
        Ok(
            ReviewFixQuestion {
                id,
                prompt,
                options,
                allow_other: self.is_other,
                is_secret: self.is_secret,
            },
        )
    }
}

fn questions_public(qs: &Vec<WireQuestion>) -> (r: Result<
    Vec<ReviewFixQuestion>,
    ReviewFixBridgeError,
>)
    ensures
        r is Ok <==> questions_ok(qs@),
        match r {
            Ok(v) => v@.len() == qs@.len() && forall|k: int|
                0 <= k < v@.len() ==> question_public(#[trigger] v@[k], qs@[k]),
            Err(e) => e == ReviewFixBridgeError::ExecutionFailed,
        },
{
    let ghost all = question_ids(qs@);
    let mut ids: Vec<String> = Vec::new();
    let mut out: Vec<ReviewFixQuestion> = Vec::new();
    let mut i: usize = 0;
    assert(all.subrange(0, 0) =~= Seq::<Seq<char>>::empty());
    assert(string_views(ids@) =~= Seq::<Seq<char>>::empty());
    while i < qs.len()
        invariant
            i <= qs.len(),
            all == question_ids(qs@),
            string_views(ids@) == all.subrange(0, i as int),
            ids_valid(all.subrange(0, i as int)),
            forall|k: int| 0 <= k < i ==> question_content_ok(#[trigger] qs@[k]),
            out@.len() == i,
            forall|k: int| 0 <= k < i ==> question_public(#[trigger] out@[k], qs@[k]),
        decreases qs.len() - i,
    {
        assert(all[i as int] == qs@[i as int].id@);
        match qs[i].to_public(&mut ids) {
            Ok(q) => {
                proof {
                    lemma_ids_extend(all, i as int);
                }
                out.push(q);
            },
            Err(e) => {
                proof {
                    if !(valid_id(all[i as int]) && !all.subrange(0, i as int).contains(
                        all[i as int],
                    )) {
                        lemma_ids_fail_at(all, i as int);
                    }
                }
                return Err(e);
            },
        }
        i += 1;
        assert(string_views(ids@) =~= all.subrange(0, i as int));
    }
    assert(all.subrange(0, qs.len() as int) =~= all);
    Ok(out)
}

impl WireInteraction {
    /// The public interaction, recording its id in `interaction_ids`; fails
    /// closed on an invalid or repeated id, invalid options or questions,
    /// more than 16 questions, or a shape that does not fit the kind.
    pub fn to_public(&self, interaction_ids: &mut Vec<String>) -> (r: Result<
        ReviewFixInteraction,
        ReviewFixBridgeError,
    >)
        ensures
            r is Ok <==> valid_id(self.id@) && !string_views(old(interaction_ids)@).contains(
                self.id@,
            ) && interaction_content_ok(*self),
            string_views(final(interaction_ids)@) == if valid_id(self.id@) && !string_views(
                old(interaction_ids)@,
            ).contains(self.id@) {
                string_views(old(interaction_ids)@).push(self.id@)
            } else {
                string_views(old(interaction_ids)@)
            },
            match r {
                Ok(p) => interaction_public(p, *self),
                Err(e) => e == ReviewFixBridgeError::ExecutionFailed,
            },
    {
        let ghost before = interaction_ids@;
        let id = match required_unique_id(self.id.as_str(), interaction_ids) {
            Ok(id) => id,
            Err(e) => {
                return Err(e);
            },
        };
        proof {
            lemma_views_push(before, id);
        }
        let options = match option_ids(&self.options) {
            Ok(o) => o,
            Err(e) => {
                return Err(e);
            },
        };
        if self.metadata.questions.len() > 16 {
            return Err(ReviewFixBridgeError::ExecutionFailed);
        }
        let questions = match questions_public(&self.metadata.questions) {
            Ok(q) => q,
            Err(e) => {
                return Err(e);
            },
        };
        assert(options@.len() == self.options@.len()) by {
            assert(string_views(options@).len() == option_views(self.options@).len());
        }
        let requests_input = self.kind == ReviewFixInteractionKind::RequestUserInput;
        if (requests_input && (options.len() > 0 || questions.len() == 0)) || (!requests_input && (
        questions.len() > 0 || options.len() == 0)) {
            return Err(ReviewFixBridgeError::ExecutionFailed);
        }
        let title = non_empty(opt_str(&self.title));
        let prompt = match non_empty(opt_str(&self.prompt)) {
            Some(p) => Some(p),
            None => non_empty(opt_str(&self.description)),
        };
        Ok(ReviewFixInteraction { id, kind: self.kind, title, prompt, options, questions })
    }
}

pub open spec fn is_pending(w: WireInteraction) -> bool {
    w.status == ReviewFixInteractionStatus::Pending
}

pub open spec fn pending_of(s: Seq<WireInteraction>) -> Seq<WireInteraction> {
    s.filter(|w: WireInteraction| is_pending(w))
}

pub open spec fn interaction_ids(s: Seq<WireInteraction>) -> Seq<Seq<char>> {
    s.map_values(|w: WireInteraction| w.id@)
}

/// The pending interactions are servable: at most 64, with valid distinct
/// ids and valid content.
pub open spec fn pending_ok(s: Seq<WireInteraction>) -> bool {
    let p = pending_of(s);
    &&& p.len() <= 64
    &&& ids_valid(interaction_ids(p))
    &&& forall|k: int| 0 <= k < p.len() ==> interaction_content_ok(#[trigger] p[k])
}

proof fn lemma_pending_prefix(s: Seq<WireInteraction>, i: int)
    requires
        0 <= i < s.len(),
    ensures
        pending_of(s.subrange(0, i + 1)) == if is_pending(s[i]) {
            pending_of(s.subrange(0, i)).push(s[i])
        } else {
            pending_of(s.subrange(0, i))
        },
        pending_of(s.subrange(0, i)).len() <= pending_of(s).len(),
        pending_of(s).subrange(0, pending_of(s.subrange(0, i)).len() as int) == pending_of(
            s.subrange(0, i),
        ),
{
    reveal(Seq::filter);
    let p = |w: WireInteraction| is_pending(w);
    assert(s.subrange(0, i + 1).drop_last() =~= s.subrange(0, i));
    assert(s =~= s.subrange(0, i) + s.subrange(i, s.len() as int));
    Seq::filter_distributes_over_add(s.subrange(0, i), s.subrange(i, s.len() as int), p);
    assert(pending_of(s).subrange(0, pending_of(s.subrange(0, i)).len() as int) =~= pending_of(
        s.subrange(0, i),
    ));
}

impl ReviewFixSessionSnapshot {
    /// The pending interactions in their public form, in order; fails
    /// closed when more than 64 are pending or any of them is malformed.
    pub fn pending_interactions(&self) -> (r: Result<
        Vec<ReviewFixInteraction>,
        ReviewFixBridgeError,
    >)
        ensures
            r is Ok <==> pending_ok(self.interactions@),
            match r {
                Ok(v) => v@.len() == pending_of(self.interactions@).len() && forall|k: int|
                    0 <= k < v@.len() ==> interaction_public(
                        #[trigger] v@[k],
                        pending_of(self.interactions@)[k],
                    ),
                Err(e) => e == ReviewFixBridgeError::ExecutionFailed,
            },
    {
        let ghost s = self.interactions@;
        let ghost all = pending_of(s);
        let n = self.interactions.len();
        // Count the pending interactions first.
        let mut count: usize = 0;
        let mut i: usize = 0;
        assert(s.subrange(0, 0) =~= Seq::<WireInteraction>::empty());
        assert(pending_of(s.subrange(0, 0)) =~= Seq::<WireInteraction>::empty()) by {
            reveal(Seq::filter);
        }
        while i < n
            invariant
                i <= n == s.len(),
                s == self.interactions@,
                all == pending_of(s),
                count == pending_of(s.subrange(0, i as int)).len(),
                count <= i,
            decreases n - i,
        {
            proof {
                lemma_pending_prefix(s, i as int);
            }
            if self.interactions[i].status == ReviewFixInteractionStatus::Pending {
                count += 1;
            }
            i += 1;
        }
        assert(s.subrange(0, n as int) =~= s);
        if count > 64 {
            return Err(ReviewFixBridgeError::ExecutionFailed);
        }
        let ghost ids_all = interaction_ids(all);
        let mut ids: Vec<String> = Vec::new();
        let mut out: Vec<ReviewFixInteraction> = Vec::new();
        let mut i: usize = 0;
        assert(ids_all.subrange(0, 0) =~= Seq::<Seq<char>>::empty());
        assert(string_views(ids@) =~= Seq::<Seq<char>>::empty());
        while i < n
            invariant
                i <= n == s.len(),
                s == self.interactions@,
                all == pending_of(s),
                all.len() <= 64,
                ids_all == interaction_ids(all),
                out@.len() == pending_of(s.subrange(0, i as int)).len(),
                out@.len() <= all.len(),
                all.subrange(0, out@.len() as int) == pending_of(s.subrange(0, i as int)),
                string_views(ids@) == ids_all.subrange(0, out@.len() as int),
                ids_valid(ids_all.subrange(0, out@.len() as int)),
                forall|k: int| 0 <= k < out@.len() ==> interaction_content_ok(#[trigger] all[k]),
                forall|k: int| 0 <= k < out@.len() ==> interaction_public(#[trigger] out@[k], all[k]),
            decreases n - i,
        {
            proof {
                lemma_pending_prefix(s, i as int);
                lemma_pending_prefix(s, i as int);
            }
            let ghost j = out@.len() as int;
            if self.interactions[i].status == ReviewFixInteractionStatus::Pending {
                proof {
                    if i + 1 < n {
                        lemma_pending_prefix(s, i + 1);
                    }
                    assert(pending_of(s.subrange(0, i + 1)).len() <= all.len()) by {
                        if i + 1 == n {
                            assert(s.subrange(0, i + 1) =~= s);
                        }
                    }
                    assert(all.subrange(0, j + 1) == pending_of(s.subrange(0, i + 1))) by {
                        if i + 1 == n {
                            assert(s.subrange(0, i + 1) =~= s);
                            assert(all.subrange(0, j + 1) =~= all);
                        }
                    }
                    assert(pending_of(s.subrange(0, i + 1)) == pending_of(s.subrange(0, i as int)).push(
                        s[i as int],
                    ));
                    assert(all.subrange(0, j + 1)[j] == s[i as int]);
                    assert(all[j] == s[i as int]);
                    assert(ids_all[j] == s[i as int].id@);
                }
                match self.interactions[i].to_public(&mut ids) {
                    Ok(p) => {
                        proof {
                            lemma_ids_extend(ids_all, j);
                        }
                        out.push(p);
                        assert(string_views(ids@) =~= ids_all.subrange(0, j + 1));
                    },
                    Err(e) => {
                        proof {
                            if !(valid_id(ids_all[j]) && !ids_all.subrange(0, j).contains(
                                ids_all[j],
                            )) {
                                lemma_ids_fail_at(ids_all, j);
                            }
                        }
                        return Err(e);
                    },
                }
            }
            i += 1;
        }
        assert(s.subrange(0, n as int) =~= s);
        assert(all.subrange(0, out@.len() as int) =~= all);
        assert(ids_all.subrange(0, out@.len() as int) =~= ids_all);
        Ok(out)
    }
}


// ---------------------------------------------------------------------------
// Patchsets
// ---------------------------------------------------------------------------
pub open spec fn change_view(c: ReviewFixPatchChange) -> (Seq<char>, Seq<char>) {
    (c.path@, c.change_type@)
}

pub open spec fn patchset_view(p: ReviewFixPatchset) -> (Seq<char>, Seq<char>, Seq<(Seq<char>, Seq<char>)>) {
    (p.id@, p.status@, p.changes@.map_values(|c: ReviewFixPatchChange| change_view(c)))
}

pub open spec fn patchset_views(s: Seq<ReviewFixPatchset>) -> Seq<
    (Seq<char>, Seq<char>, Seq<(Seq<char>, Seq<char>)>),
> {
    s.map_values(|p: ReviewFixPatchset| patchset_view(p))
}

impl ReviewFixPatchChange {
    fn copy(&self) -> (r: Self)
        ensures
            change_view(r) == change_view(*self),
    {
        ReviewFixPatchChange { path: self.path.clone(), change_type: self.change_type.clone() }
    }
}

impl ReviewFixPatchset {
    fn copy(&self) -> (r: Self)
        ensures
            patchset_view(r) == patchset_view(*self),
    {
        let mut changes: Vec<ReviewFixPatchChange> = Vec::new();
        let mut i: usize = 0;
        while i < self.changes.len()
            invariant
                i <= self.changes.len(),
                changes@.len() == i,
                forall|k: int|
                    0 <= k < i ==> change_view(#[trigger] changes@[k]) == change_view(
                        self.changes@[k],
                    ),
            decreases self.changes.len() - i,
        {
            changes.push(self.changes[i].copy());
            i += 1;
        }
        let r = ReviewFixPatchset { id: self.id.clone(), status: self.status.clone(), changes };
        assert(patchset_view(r).2 =~= patchset_view(*self).2);
        r
    }

    fn same(&self, other: &Self) -> (r: bool)
        ensures
            r == (patchset_view(*self) == patchset_view(*other)),
    {
        if !str_eq(self.id.as_str(), other.id.as_str()) || !str_eq(
            self.status.as_str(),
            other.status.as_str(),
        ) || self.changes.len() != other.changes.len() {
            proof {
                if patchset_view(*self) == patchset_view(*other) {
                    assert(patchset_view(*self).2.len() == self.changes@.len());
                    assert(patchset_view(*other).2.len() == other.changes@.len());
                }
            }
            return false;
        }
        let mut i: usize = 0;
        while i < self.changes.len()
            invariant
                i <= self.changes.len() == other.changes.len(),
                forall|k: int|
                    0 <= k < i ==> change_view(#[trigger] self.changes@[k]) == change_view(
                        other.changes@[k],
                    ),
            decreases self.changes.len() - i,
        {
            let a = &self.changes[i];
            let b = &other.changes[i];
            if !str_eq(a.path.as_str(), b.path.as_str()) || !str_eq(
                a.change_type.as_str(),
                b.change_type.as_str(),
            ) {
                proof {
                    if patchset_view(*self) == patchset_view(*other) {
                        assert(patchset_view(*self).2[i as int] == change_view(self.changes@[i as int]));
                        assert(patchset_view(*other).2[i as int] == change_view(other.changes@[i as int]));
                    }
                }
                return false;
            }
            i += 1;
        }
        assert(patchset_view(*self).2 =~= patchset_view(*other).2);
        true
    }
}

fn has_patchset(v: &Vec<ReviewFixPatchset>, p: &ReviewFixPatchset) -> (r: bool)
    ensures
        r == patchset_views(v@).contains(patchset_view(*p)),
{
    let mut i: usize = 0;
    while i < v.len()
        invariant
            i <= v.len(),
            forall|k: int| 0 <= k < i ==> patchset_view(#[trigger] v@[k]) != patchset_view(*p),
        decreases v.len() - i,
    {
        if v[i].same(p) {
            assert(patchset_views(v@)[i as int] == patchset_view(*p));
            return true;
        }
        i += 1;
    }
    proof {
        if patchset_views(v@).contains(patchset_view(*p)) {
            let k = choose|k: int|
                0 <= k < patchset_views(v@).len() && patchset_views(v@)[k] == patchset_view(*p);
            assert(patchset_view(v@[k]) == patchset_view(*p));
        }
    }
    false
}

impl ReviewFixSessionSnapshot {
    /// The set of reported patchsets, each once; fails closed when a
    /// patchset id is blank.
    pub fn patchsets(&self) -> (r: Result<Vec<ReviewFixPatchset>, ReviewFixBridgeError>)
        ensures
            r is Ok <==> forall|k: int|
                0 <= k < self.patchsets@.len() ==> trim((#[trigger] self.patchsets@[k]).id@).len()
                    > 0,
            match r {
                Ok(v) => (forall|x| #[trigger] patchset_views(v@).contains(x) <==> patchset_views(
                    self.patchsets@,
                ).contains(x)) && (forall|i: int, j: int|
                    0 <= i < j < v@.len() ==> patchset_views(v@)[i] != patchset_views(v@)[j]),
                Err(e) => e == ReviewFixBridgeError::ExecutionFailed,
            },
    {
        let mut i: usize = 0;
        while i < self.patchsets.len()
            invariant
                i <= self.patchsets.len(),
                forall|k: int| 0 <= k < i ==> trim((#[trigger] self.patchsets@[k]).id@).len() > 0,
            decreases self.patchsets.len() - i,
        {
            let t = trim_str(self.patchsets[i].id.as_str());
            if t.len() == 0 {
                return Err(ReviewFixBridgeError::ExecutionFailed);
            }
            i += 1;
        }
        let ghost src = patchset_views(self.patchsets@);
        let mut out: Vec<ReviewFixPatchset> = Vec::new();
        let mut i: usize = 0;
        while i < self.patchsets.len()
            invariant
                i <= self.patchsets.len(),
                src == patchset_views(self.patchsets@),
                forall|x| #[trigger] patchset_views(out@).contains(x) <==> src.subrange(
                    0,
                    i as int,
                ).contains(x),
                forall|a: int, b: int|
                    0 <= a < b < out@.len() ==> patchset_views(out@)[a] != patchset_views(out@)[b],
            decreases self.patchsets.len() - i,
        {
            let ghost before = out@;
            let ghost x0 = patchset_view(self.patchsets@[i as int]);
            assert(src[i as int] == x0);
            if !has_patchset(&out, &self.patchsets[i]) {
                let c = self.patchsets[i].copy();
                out.push(c);
                assert(patchset_views(out@) =~= patchset_views(before).push(x0));
            } else {
                assert(patchset_views(out@) == patchset_views(before));
            }
            assert forall|x| #[trigger] patchset_views(out@).contains(x) <==> src.subrange(
                0,
                i + 1,
            ).contains(x) by {
                let pre = src.subrange(0, i as int);
                let nxt = src.subrange(0, i + 1);
                assert(nxt =~= pre.push(x0));
                if nxt.contains(x) && x != x0 {
                    let k = choose|k: int| 0 <= k < nxt.len() && nxt[k] == x;
                    assert(pre[k] == x);
                }
                if pre.contains(x) {
                    let k = choose|k: int| 0 <= k < pre.len() && pre[k] == x;
                    assert(nxt[k] == x);
                }
                if x == x0 {
                    assert(nxt[i as int] == x0);
                }
                if patchset_views(out@).contains(x) && x != x0 {
                    let k = choose|k: int|
                        0 <= k < patchset_views(out@).len() && patchset_views(out@)[k] == x;
                    if k < patchset_views(before).len() {
                        assert(patchset_views(before)[k] == x);
                    }
                }
                if patchset_views(before).contains(x) {
                    let k = choose|k: int|
                        0 <= k < patchset_views(before).len() && patchset_views(before)[k] == x;
                    assert(patchset_views(out@)[k] == x);
                }
                if x == x0 && patchset_views(out@) != patchset_views(before) {
                    assert(patchset_views(out@)[before.len() as int] == x0);
                }
            }
            i += 1;
        }
        assert(src.subrange(0, self.patchsets@.len() as int) =~= src);
        Ok(out)
    }
}


// ---------------------------------------------------------------------------
// Interaction responses
// ---------------------------------------------------------------------------
/// Largest total size, in UTF-8 bytes, of the answers to one interaction.
pub const MAX_RESPONSE_BYTES: usize = 262144;

/// The answer given to an interaction: one selected option, or answers
/// keyed by question id.
#[derive(Clone, Debug)]
pub struct ReviewFixInteractionResponse {
    pub selected_option: String,
    /// Answers keyed by question id, each key once (the entries of the
    /// protocol's map; see `keys_distinct`).
    pub answers: Vec<(String, Vec<String>)>,
}

impl Default for ReviewFixInteractionResponse {
    fn default() -> (r: Self)
        ensures
            r.selected_option@.len() == 0,
            r.answers@.len() == 0,
    {
        ReviewFixInteractionResponse { selected_option: String::new(), answers: Vec::new() }
    }
}

/// Bytes of `c` in UTF-8.
pub open spec fn utf8_width(c: char) -> nat {
    let u = c as u32;
    if u < 0x80 {
        1
    } else if u < 0x800 {
        2
    } else if u < 0x10000 {
        3
    } else {
        4
    }
}

/// Bytes of `s` in UTF-8 (`str::len`).
pub open spec fn utf8_len(s: Seq<char>) -> nat
    decreases s.len(),
{
    if s.len() == 0 {
        0
    } else {
        utf8_len(s.drop_last()) + utf8_width(s.last())
    }
}

/// The answers given for question `id` (its first entry).
pub open spec fn answers_for(answers: Seq<(String, Vec<String>)>, id: Seq<char>) -> Option<
    Seq<String>,
>
    decreases answers.len(),
{
    if answers.len() == 0 {
        None
    } else {
        match answers_for(answers.drop_last(), id) {
            Some(a) => Some(a),
            None => if answers.last().0@ == id {
                Some(answers.last().1@)
            } else {
                None
            },
        }
    }
}

pub open spec fn answers_bytes(a: Seq<String>) -> nat
    decreases a.len(),
{
    if a.len() == 0 {
        0
    } else {
        answers_bytes(a.drop_last()) + utf8_len(a.last()@)
    }
}

/// Total answer bytes over the questions, in order.
pub open spec fn total_bytes(qs: Seq<ReviewFixQuestion>, answers: Seq<(String, Vec<String>)>) -> nat
    decreases qs.len(),
{
    if qs.len() == 0 {
        0
    } else {
        total_bytes(qs.drop_last(), answers) + match answers_for(answers, qs.last().id@) {
            Some(a) => answers_bytes(a),
            None => 0,
        }
    }
}

/// The answers to one question are acceptable: present, none of them blank,
/// and each one of the question's options unless free text is allowed.
pub open spec fn question_answered(q: ReviewFixQuestion, answers: Seq<(String, Vec<String>)>) -> bool {
    match answers_for(answers, q.id@) {
        None => false,
        Some(a) => {
            &&& a.len() > 0
            &&& forall|k: int| 0 <= k < a.len() ==> trim((#[trigger] a[k])@).len() > 0
            &&& (q.options@.len() > 0 && !q.allow_other) ==> forall|k: int|
                0 <= k < a.len() ==> string_views(q.options@).contains((#[trigger] a[k])@)
        },
    }
}

/// Some answer entry is keyed by `id`.
pub open spec fn has_key(answers: Seq<(String, Vec<String>)>, id: Seq<char>) -> bool {
    exists|j: int| 0 <= j < answers.len() && (#[trigger] answers[j]).0@ == id
}

/// Some question has id `id`.
pub open spec fn has_qid(qs: Seq<ReviewFixQuestion>, id: Seq<char>) -> bool {
    exists|a: int| 0 <= a < qs.len() && (#[trigger] qs[a]).id@ == id
}

/// The answered question ids are exactly the interaction's question ids.
pub open spec fn same_keys(qs: Seq<ReviewFixQuestion>, answers: Seq<(String, Vec<String>)>) -> bool {
    &&& forall|k: int| 0 <= k < qs.len() ==> has_key(answers, (#[trigger] qs[k]).id@)
    &&& forall|j: int| 0 <= j < answers.len() ==> has_qid(qs, (#[trigger] answers[j]).0@)
}

pub open spec fn answers_valid(i: ReviewFixInteraction, r: ReviewFixInteractionResponse) -> bool {
    &&& same_keys(i.questions@, r.answers@)
    &&& forall|k: int|
        0 <= k < i.questions@.len() ==> question_answered(#[trigger] i.questions@[k], r.answers@)
    &&& total_bytes(i.questions@, r.answers@) <= MAX_RESPONSE_BYTES
}

/// A response selects one of the interaction's options and answers nothing,
/// or selects nothing and answers every question acceptably.
pub open spec fn response_valid(i: ReviewFixInteraction, r: ReviewFixInteractionResponse) -> bool {
    if r.selected_option@.len() > 0 {
        r.answers@.len() == 0 && string_views(i.options@).contains(r.selected_option@)
    } else {
        r.answers@.len() > 0 && answers_valid(i, r)
    }
}

fn find_answers(answers: &Vec<(String, Vec<String>)>, id: &String) -> (r: Option<usize>)
    ensures
        match r {
            Some(j) => j < answers@.len() && answers_for(answers@, id@) == Some(
                answers@[j as int].1@,
            ) && answers@[j as int].0@ == id@,
            None => answers_for(answers@, id@) is None && !has_key(answers@, id@),
        },
{
    let mut found: Option<usize> = None;
    let mut i: usize = 0;
    assert(answers@.subrange(0, 0) =~= Seq::<(String, Vec<String>)>::empty());
    while i < answers.len()
        invariant
            i <= answers.len(),
            match found {
                Some(j) => j < i && answers_for(answers@.subrange(0, i as int), id@) == Some(
                    answers@[j as int].1@,
                ) && answers@[j as int].0@ == id@,
                None => answers_for(answers@.subrange(0, i as int), id@) is None && forall|j: int|
                    0 <= j < i ==> (#[trigger] answers@[j]).0@ != id@,
            },
        decreases answers.len() - i,
    {
        assert(answers@.subrange(0, i + 1).drop_last() =~= answers@.subrange(0, i as int));
        if found.is_none() && str_eq(answers[i].0.as_str(), id.as_str()) {
            found = Some(i);
        }
        i += 1;
    }
    assert(answers@.subrange(0, answers.len() as int) =~= answers@);
    proof {
        if found is Some {
            assert(answers@[found->0 as int].0@ == id@);
        }
    }
    found
}

fn has_question(qs: &Vec<ReviewFixQuestion>, id: &String) -> (r: bool)
    ensures
        r == has_qid(qs@, id@),
{
    let mut i: usize = 0;
    while i < qs.len()
        invariant
            i <= qs.len(),
            forall|k: int| 0 <= k < i ==> (#[trigger] qs@[k]).id@ != id@,
        decreases qs.len() - i,
    {
        if str_eq(qs[i].id.as_str(), id.as_str()) {
            return true;
        }
        i += 1;
    }
    false
}

proof fn lemma_utf8_len_step(s: Seq<char>, i: int)
    requires
        0 <= i < s.len(),
    ensures
        utf8_len(s.subrange(0, i + 1)) == utf8_len(s.subrange(0, i)) + utf8_width(s[i]),
{
    assert(s.subrange(0, i + 1).drop_last() =~= s.subrange(0, i));
}

proof fn lemma_utf8_len_prefix(s: Seq<char>, i: int)
    requires
        0 <= i <= s.len(),
    ensures
        utf8_len(s.subrange(0, i)) <= utf8_len(s),
    decreases s.len() - i,
{
    if i < s.len() {
        lemma_utf8_len_step(s, i);
        lemma_utf8_len_prefix(s, i + 1);
    } else {
        assert(s.subrange(0, i) =~= s);
    }
}

/// Adds the UTF-8 size of `s` to `total`, or fails once the sum passes
/// the limit.
fn add_bytes(total: usize, s: &String) -> (r: Option<usize>)
    requires
        total <= MAX_RESPONSE_BYTES,
    ensures
        match r {
            Some(t) => t == total + utf8_len(s@) && t <= MAX_RESPONSE_BYTES,
            None => total + utf8_len(s@) > MAX_RESPONSE_BYTES,
        },
{
    let v = chars_of(s.as_str());
    let mut t: usize = total;
    let mut i: usize = 0;
    assert(v@.subrange(0, 0) =~= Seq::<char>::empty());
    while i < v.len()
        invariant
            i <= v.len(),
            v@ == s@,
            t == total + utf8_len(v@.subrange(0, i as int)),
            t <= MAX_RESPONSE_BYTES,
        decreases v.len() - i,
    {
        let u = v[i] as u32;
        let w: usize = if u < 0x80 {
            1
        } else if u < 0x800 {
            2
        } else if u < 0x10000 {
            3
        } else {
            4
        };
        proof {
            lemma_utf8_len_step(v@, i as int);
        }
        if t + w > MAX_RESPONSE_BYTES {
            proof {
                lemma_utf8_len_prefix(v@, i + 1);
            }
            return None;
        }
        t = t + w;
        i += 1;
    }
    assert(v@.subrange(0, v.len() as int) =~= v@);
    Some(t)
}

proof fn lemma_total_step(qs: Seq<ReviewFixQuestion>, answers: Seq<(String, Vec<String>)>, i: int)
    requires
        0 <= i < qs.len(),
    ensures
        total_bytes(qs.subrange(0, i + 1), answers) == total_bytes(qs.subrange(0, i), answers)
            + match answers_for(answers, qs[i].id@) {
            Some(a) => answers_bytes(a),
            None => 0,
        },
{
    assert(qs.subrange(0, i + 1).drop_last() =~= qs.subrange(0, i));
}

proof fn lemma_total_prefix(qs: Seq<ReviewFixQuestion>, answers: Seq<(String, Vec<String>)>, i: int)
    requires
        0 <= i <= qs.len(),
    ensures
        total_bytes(qs.subrange(0, i), answers) <= total_bytes(qs, answers),
    decreases qs.len() - i,
{
    if i < qs.len() {
        lemma_total_step(qs, answers, i);
        lemma_total_prefix(qs, answers, i + 1);
    } else {
        assert(qs.subrange(0, i) =~= qs);
    }
}

proof fn lemma_answers_step(a: Seq<String>, k: int)
    requires
        0 <= k < a.len(),
    ensures
        answers_bytes(a.subrange(0, k + 1)) == answers_bytes(a.subrange(0, k)) + utf8_len(a[k]@),
{
    assert(a.subrange(0, k + 1).drop_last() =~= a.subrange(0, k));
}

proof fn lemma_answers_prefix(a: Seq<String>, k: int)
    requires
        0 <= k <= a.len(),
    ensures
        answers_bytes(a.subrange(0, k)) <= answers_bytes(a),
    decreases a.len() - k,
{
    if k < a.len() {
        lemma_answers_step(a, k);
        lemma_answers_prefix(a, k + 1);
    } else {
        assert(a.subrange(0, k) =~= a);
    }
}

fn keys_match(qs: &Vec<ReviewFixQuestion>, answers: &Vec<(String, Vec<String>)>) -> (r: bool)
    ensures
        r == same_keys(qs@, answers@),
{
    let mut k: usize = 0;
    while k < qs.len()
        invariant
            k <= qs.len(),
            forall|a: int| 0 <= a < k ==> has_key(answers@, (#[trigger] qs@[a]).id@),
        decreases qs.len() - k,
    {
        match find_answers(answers, &qs[k].id) {
            Some(j) => {
                assert(answers@[j as int].0@ == qs@[k as int].id@);
            },
            None => {
                return false;
            },
        }
        k += 1;
    }
    let mut j: usize = 0;
    while j < answers.len()
        invariant
            j <= answers.len(),
            forall|a: int| 0 <= a < qs@.len() ==> has_key(answers@, (#[trigger] qs@[a]).id@),
            forall|b: int| 0 <= b < j ==> has_qid(qs@, (#[trigger] answers@[b]).0@),
        decreases answers.len() - j,
    {
        if !has_question(qs, &answers[j].0) {
            return false;
        }
        j += 1;
    }
    true
}

fn all_filled(given: &Vec<String>) -> (r: bool)
    ensures
        r == forall|c: int| 0 <= c < given@.len() ==> trim((#[trigger] given@[c])@).len() > 0,
{
    let mut b: usize = 0;
    while b < given.len()
        invariant
            b <= given.len(),
            forall|c: int| 0 <= c < b ==> trim((#[trigger] given@[c])@).len() > 0,
        decreases given.len() - b,
    {
        let t = trim_str(given[b].as_str());
        if t.len() == 0 {
            return false;
        }
        b += 1;
    }
    true
}

fn all_offered(options: &Vec<String>, given: &Vec<String>) -> (r: bool)
    ensures
        r == forall|e: int| 0 <= e < given@.len() ==> string_views(options@).contains(
            (#[trigger] given@[e])@,
        ),
{
    let mut d: usize = 0;
    while d < given.len()
        invariant
            d <= given.len(),
            forall|e: int| 0 <= e < d ==> string_views(options@).contains((#[trigger] given@[e])@),
        decreases given.len() - d,
    {
        if !contains_str(options, given[d].as_str()) {
            return false;
        }
        d += 1;
    }
    true
}

/// Adds the UTF-8 size of every answer in `given` to `total`, or fails once
/// the sum passes the limit.
fn add_answers(total: usize, given: &Vec<String>) -> (r: Option<usize>)
    requires
        total <= MAX_RESPONSE_BYTES,
    ensures
        match r {
            Some(t) => t == total + answers_bytes(given@) && t <= MAX_RESPONSE_BYTES,
            None => total + answers_bytes(given@) > MAX_RESPONSE_BYTES,
        },
{
    let mut t: usize = total;
    let mut c: usize = 0;
    assert(given@.subrange(0, 0) =~= Seq::<String>::empty());
    while c < given.len()
        invariant
            c <= given.len(),
            t == total + answers_bytes(given@.subrange(0, c as int)),
            t <= MAX_RESPONSE_BYTES,
        decreases given.len() - c,
    {
        proof {
            lemma_answers_step(given@, c as int);
        }
        match add_bytes(t, &given[c]) {
            Some(n) => {
                t = n;
            },
            None => {
                proof {
                    lemma_answers_prefix(given@, c + 1);
                }
                return None;
            },
        }
        c += 1;
    }
    assert(given@.subrange(0, given.len() as int) =~= given@);
    Some(t)
}

/// Checks the answers to one question and adds their size to `total`.
fn check_question(q: &ReviewFixQuestion, answers: &Vec<(String, Vec<String>)>, total: usize) -> (r:
    Option<usize>)
    requires
        total <= MAX_RESPONSE_BYTES,
    ensures
        ({
            let bytes = match answers_for(answers@, q.id@) {
                Some(a) => answers_bytes(a),
                None => 0,
            };
            match r {
                Some(t) => question_answered(*q, answers@) && t == total + bytes && t
                    <= MAX_RESPONSE_BYTES,
                None => !question_answered(*q, answers@) || total + bytes > MAX_RESPONSE_BYTES,
            }
        }),
{
    let j = match find_answers(answers, &q.id) {
        Some(j) => j,
        None => {
            return None;
        },
    };
    let given = &answers[j].1;
    if given.len() == 0 || !all_filled(given) {
        return None;
    }
    let t = match add_answers(total, given) {
        Some(t) => t,
        None => {
            return None;
        },
    };
    if q.options.len() > 0 && !q.allow_other && !all_offered(&q.options, given) {
        return None;
    }
    Some(t)
}

/// Checks the keyed answers against the interaction's questions.
pub fn validate_answers(
    interaction: &ReviewFixInteraction,
    response: &ReviewFixInteractionResponse,
) -> (r: Result<(), ReviewFixBridgeError>)
    ensures
        r is Ok <==> answers_valid(*interaction, *response),
        r matches Err(e) ==> e == ReviewFixBridgeError::InvalidInteractionResponse,
{
    let qs = &interaction.questions;
    let answers = &response.answers;
    if !keys_match(qs, answers) {
        return Err(ReviewFixBridgeError::InvalidInteractionResponse);
    }
    let mut total: usize = 0;
    let mut i: usize = 0;
    assert(qs@.subrange(0, 0) =~= Seq::<ReviewFixQuestion>::empty());
    while i < qs.len()
        invariant
            i <= qs.len(),
            qs@ == interaction.questions@,
            answers@ == response.answers@,
            same_keys(qs@, answers@),
            total == total_bytes(qs@.subrange(0, i as int), answers@),
            total <= MAX_RESPONSE_BYTES,
            forall|a: int| 0 <= a < i ==> question_answered(#[trigger] qs@[a], answers@),
        decreases qs.len() - i,
    {
        proof {
            lemma_total_step(qs@, answers@, i as int);
        }
        match check_question(&qs[i], answers, total) {
            Some(t) => {
                total = t;
            },
            None => {
                proof {
                    lemma_total_prefix(qs@, answers@, i + 1);
                    let bytes = match answers_for(answers@, qs@[i as int].id@) {
                        Some(a) => answers_bytes(a),
                        None => 0,
                    };
                    assert(total_bytes(qs@.subrange(0, i + 1), answers@) == total + bytes);
                    if question_answered(qs@[i as int], answers@) {
                        assert(total + bytes > MAX_RESPONSE_BYTES);
                        assert(total_bytes(qs@, answers@) > MAX_RESPONSE_BYTES);
                    } else {
                        assert(!question_answered(interaction.questions@[i as int], response.answers@));
                    }
                    assert(!answers_valid(*interaction, *response));
                }
                return Err(ReviewFixBridgeError::InvalidInteractionResponse);
            },
        }
        i += 1;
    }
    assert(qs@.subrange(0, qs.len() as int) =~= qs@);
    assert(total_bytes(qs@, answers@) == total);
    Ok(())
}

/// Whether a response fits its interaction (see `response_valid`).
pub fn validate_response(
    interaction: &ReviewFixInteraction,
    response: &ReviewFixInteractionResponse,
) -> (r: Result<(), ReviewFixBridgeError>)
    requires
        keys_distinct(response.answers@),
    ensures
        r is Ok <==> response_valid(*interaction, *response),
        r matches Err(e) ==> e == ReviewFixBridgeError::InvalidInteractionResponse,
{
    let selected = !response.selected_option.as_str().is_empty();
    let answered = response.answers.len() > 0;
    if selected && answered {
        return Err(ReviewFixBridgeError::InvalidInteractionResponse);
    }
    if selected && !contains_str(&interaction.options, response.selected_option.as_str()) {
        return Err(ReviewFixBridgeError::InvalidInteractionResponse);
    }
    if !selected && !answered {
        return Err(ReviewFixBridgeError::InvalidInteractionResponse);
    }
    if answered {
        validate_answers(interaction, response)
    } else {
        Ok(())
    }
}

/// A selection that declines (`deny`, `decline`, `reject`, `abort`, `no`,
/// in any ASCII case).
pub open spec fn declines(selection: Seq<char>) -> bool {
    let s = crate::text::ascii_lower(selection);
    s == "deny"@ || s == "decline"@ || s == "reject"@ || s == "abort"@ || s == "no"@
}

/// A declining answer to a tool or sandbox approval is a definitive denial.
pub fn denial_for(
    interaction: &ReviewFixInteraction,
    response: &ReviewFixInteractionResponse,
) -> (r: Option<ReviewFixBridgeError>)
    ensures
        r == (if declines(response.selected_option@) {
            match interaction.kind {
                ReviewFixInteractionKind::Approval => Some(ReviewFixBridgeError::ApprovalDenied),
                ReviewFixInteractionKind::SandboxApproval => Some(
                    ReviewFixBridgeError::SandboxDenied,
                ),
                _ => None,
            }
        } else {
            None
        }),
{
    let v = chars_of(response.selected_option.as_str());
    let s = crate::text::ascii_lower_vec(&v);
    let declined = crate::text::word_is(&s, "deny") || crate::text::word_is(&s, "decline")
        || crate::text::word_is(&s, "reject") || crate::text::word_is(&s, "abort")
        || crate::text::word_is(&s, "no");
    if !declined {
        return None;
    }
    match interaction.kind {
        ReviewFixInteractionKind::Approval => Some(ReviewFixBridgeError::ApprovalDenied),
        ReviewFixInteractionKind::SandboxApproval => Some(ReviewFixBridgeError::SandboxDenied),
        _ => None,
    }
}

/// Answers that hand control back to the Code session: Modify or Cancel of
/// an IntentSpec review, Modify, Cancel or Back of a post-plan choice.
pub open spec fn hands_back(kind: ReviewFixInteractionKind, selection: Seq<char>) -> bool {
    let s = crate::text::ascii_lower(selection);
    ||| kind == ReviewFixInteractionKind::IntentReviewChoice && (s == "modify"@ || s
        == "cancel"@)
    ||| kind == ReviewFixInteractionKind::PostPlanChoice && (s == "modify"@ || s == "cancel"@ || s
        == "back"@)
}

pub fn requires_code_session_handoff(
    interaction: &ReviewFixInteraction,
    response: &ReviewFixInteractionResponse,
) -> (r: bool)
    ensures
        r == hands_back(interaction.kind, response.selected_option@),
{
    let v = chars_of(response.selected_option.as_str());
    let s = crate::text::ascii_lower_vec(&v);
    match interaction.kind {
        ReviewFixInteractionKind::IntentReviewChoice => crate::text::word_is(&s, "modify")
            || crate::text::word_is(&s, "cancel"),
        ReviewFixInteractionKind::PostPlanChoice => crate::text::word_is(&s, "modify")
            || crate::text::word_is(&s, "cancel") || crate::text::word_is(&s, "back"),
        _ => false,
    }
}

} // verus!
