//! Code UI SSE wire-version negotiation and the v2 event kind names.
use vstd::prelude::*;

use crate::text::{
    dec, dec_vec, ascii_lower, ascii_lower_vec, chars_of, concat, concat3, eq_ignore_case, eq_ignore_case_vec,
    norm, normalize, parse_u64, parse_u64_vec, split, split_vec, string_of, trim, trim_str,
    trim_vec, views, word_is,
};
use crate::workflow::CodeWorkflowEventKind;

verus! {

/// Negotiated Code UI SSE wire version.
#[derive(Debug, Clone, Copy, PartialEq, Eq, Structural)]
pub enum CodeUiSseWireVersion {
    V1,
    V2,
}

/// The wire version used when the client names none.
pub const DEFAULT_CODE_UI_SSE_WIRE_VERSION: CodeUiSseWireVersion = CodeUiSseWireVersion::V1;

impl CodeUiSseWireVersion {
    pub fn as_u8(self) -> (r: u8)
        ensures
            r == match self {
                CodeUiSseWireVersion::V1 => 1u8,
                CodeUiSseWireVersion::V2 => 2u8,
            },
    {
        match self {
            CodeUiSseWireVersion::V1 => 1,
            CodeUiSseWireVersion::V2 => 2,
        }
    }
}

/// Query parameters of `GET /api/code/events`.
#[derive(Debug, Clone)]
pub struct CodeEventsQuery {
    /// `1`/`v1` or `2`/`v2`.
    pub wire: Option<String>,
    /// v2 only: the last durable workflow sequence seen.
    pub cursor: Option<String>,
}

impl Default for CodeEventsQuery {
    fn default() -> (r: Self)
        ensures
            r.wire is None,
            r.cursor is None,
    {
        CodeEventsQuery { wire: None, cursor: None }
    }
}

/// The version a wire token names, by its trimmed lower-case form.
pub open spec fn wire_of(t: Seq<char>) -> Option<CodeUiSseWireVersion> {
    let w = norm(t);
    if w == "1"@ || w == "v1"@ {
        Some(CodeUiSseWireVersion::V1)
    } else if w == "2"@ || w == "v2"@ {
        Some(CodeUiSseWireVersion::V2)
    } else {
        None
    }
}

pub open spec fn wire_error(t: Seq<char>) -> Seq<char> {
    "query parameter `wire` must be 1/v1 or 2/v2 (got '"@ + norm(t) + "')"@
}

/// A wire token: `1`/`v1` or `2`/`v2`, ignoring surrounding whitespace and
/// ASCII case; anything else fails closed.
pub fn parse_wire_token(raw: &str) -> (r: Result<CodeUiSseWireVersion, String>)
    ensures
        match wire_of(raw@) {
            Some(v) => r == Ok::<CodeUiSseWireVersion, String>(v),
            None => r matches Err(e) && e@ == wire_error(raw@),
        },
{
    let w = normalize(raw);
    if word_is(&w, "1") || word_is(&w, "v1") {
        Ok(CodeUiSseWireVersion::V1)
    } else if word_is(&w, "2") || word_is(&w, "v2") {
        Ok(CodeUiSseWireVersion::V2)
    } else {
        let got = string_of(&w);
        Err(concat3("query parameter `wire` must be 1/v1 or 2/v2 (got '", got.as_str(), "')"))
    }
}

// ---------------------------------------------------------------------------
// Accept header
// ---------------------------------------------------------------------------
/// Drops leading `"` characters.
pub open spec fn strip_quotes_start(s: Seq<char>) -> Seq<char>
    decreases s.len(),
{
    if s.len() > 0 && s[0] == '"' {
        strip_quotes_start(s.drop_first())
    } else {
        s
    }
}

/// Drops trailing `"` characters.
pub open spec fn strip_quotes_end(s: Seq<char>) -> Seq<char>
    decreases s.len(),
{
    if s.len() > 0 && s.last() == '"' {
        strip_quotes_end(s.drop_last())
    } else {
        s
    }
}

/// `str::trim_matches('"')`.
pub open spec fn strip_quotes(s: Seq<char>) -> Seq<char> {
    strip_quotes_end(strip_quotes_start(s))
}

/// `i` is the first `=` in `p`.
pub open spec fn first_eq_at(p: Seq<char>, i: int) -> bool {
    0 <= i < p.len() && p[i] == '=' && forall|j: int| 0 <= j < i ==> p[j] != '='
}

/// The value of a `libra-wire=<v>` media-type parameter (split at the first
/// `=`, name compared ignoring ASCII case, value trimmed and unquoted).
pub open spec fn wire_param(param: Seq<char>) -> Option<Seq<char>> {
    let p = trim(param);
    if exists|i: int| first_eq_at(p, i) {
        let i = choose|i: int| first_eq_at(p, i);
        if eq_ignore_case(trim(p.subrange(0, i)), "libra-wire"@) {
            Some(strip_quotes(trim(p.subrange(i + 1, p.len() as int))))
        } else {
            None
        }
    } else {
        None
    }
}

/// The first parameter value that `f`... of a list: the first `Some`.
pub open spec fn first_wire_param(params: Seq<Seq<char>>) -> Option<Seq<char>>
    decreases params.len(),
{
    if params.len() == 0 {
        None
    } else {
        match first_wire_param(params.drop_last()) {
            Some(v) => Some(v),
            None => wire_param(params.last()),
        }
    }
}

/// The `libra-wire` value of one Accept entry when its media type is
/// exactly `text/event-stream` (ignoring case and whitespace).
pub open spec fn part_wire(part: Seq<char>) -> Option<Seq<char>> {
    let p = trim(part);
    let segs = split(p, ';');
    if ascii_lower(trim(segs[0])) == "text/event-stream"@ {
        first_wire_param(segs.drop_first())
    } else {
        None
    }
}

pub open spec fn first_part_wire(parts: Seq<Seq<char>>) -> Option<Seq<char>>
    decreases parts.len(),
{
    if parts.len() == 0 {
        None
    } else {
        match first_part_wire(parts.drop_last()) {
            Some(v) => Some(v),
            None => part_wire(parts.last()),
        }
    }
}

/// The first `libra-wire` value over all Accept field values, in order.
pub open spec fn accept_wire(values: Seq<Seq<char>>) -> Option<Seq<char>>
    decreases values.len(),
{
    if values.len() == 0 {
        None
    } else {
        match accept_wire(values.drop_last()) {
            Some(v) => Some(v),
            None => first_part_wire(split(values.last(), ',')),
        }
    }
}

proof fn lemma_split_nonempty(s: Seq<char>, sep: char)
    ensures
        split(s, sep).len() >= 1,
    decreases s.len(),
{
    if s.len() > 0 {
        lemma_split_nonempty(s.drop_last(), sep);
    }
}

fn strip_quotes_vec(s: &Vec<char>) -> (r: Vec<char>)
    ensures
        r@ == strip_quotes(s@),
{
    let mut i: usize = 0;
    assert(s@.subrange(0, s.len() as int) =~= s@);
    while i < s.len() && s[i] == '"'
        invariant
            i <= s.len(),
            strip_quotes_start(s@.subrange(i as int, s.len() as int)) == strip_quotes_start(s@),
        decreases s.len() - i,
    {
        assert(s@.subrange(i + 1, s.len() as int) =~= s@.subrange(i as int, s.len() as int).drop_first());
        i += 1;
    }
    let ghost mid = s@.subrange(i as int, s.len() as int);
    assert(strip_quotes_start(mid) == mid);
    let mut j: usize = s.len();
    assert(mid.subrange(0, (j - i) as int) =~= mid);
    while j > i && s[j - 1] == '"'
        invariant
            i <= j <= s.len(),
            mid == s@.subrange(i as int, s.len() as int),
            strip_quotes_end(s@.subrange(i as int, j as int)) == strip_quotes_end(mid),
        decreases j,
    {
        assert(s@.subrange(i as int, j - 1) =~= s@.subrange(i as int, j as int).drop_last());
        j -= 1;
    }
    let mut r: Vec<char> = Vec::new();
    let mut k: usize = i;
    while k < j
        invariant
            i <= k <= j <= s.len(),
            r@ == s@.subrange(i as int, k as int),
        decreases j - k,
    {
        r.push(s[k]);
        k += 1;
        assert(r@ =~= s@.subrange(i as int, k as int));
    }
    r
}

fn sub_vec(s: &Vec<char>, from: usize, to: usize) -> (r: Vec<char>)
    requires
        from <= to <= s.len(),
    ensures
        r@ == s@.subrange(from as int, to as int),
{
    let mut r: Vec<char> = Vec::new();
    let mut k: usize = from;
    while k < to
        invariant
            from <= k <= to <= s.len(),
            r@ == s@.subrange(from as int, k as int),
        decreases to - k,
    {
        r.push(s[k]);
        k += 1;
        assert(r@ =~= s@.subrange(from as int, k as int));
    }
    r
}

fn wire_param_vec(param: &Vec<char>) -> (r: Option<Vec<char>>)
    ensures
        match r {
            Some(v) => wire_param(param@) == Some(v@),
            None => wire_param(param@) is None,
        },
{
    let p = trim_vec(param);
    let mut i: usize = 0;
    while i < p.len() && p[i] != '='
        invariant
            i <= p.len(),
            forall|j: int| 0 <= j < i ==> p@[j] != '=',
        decreases p.len() - i,
    {
        i += 1;
    }
    if i == p.len() {
        assert(!exists|k: int| first_eq_at(p@, k));
        return None;
    }
    assert(first_eq_at(p@, i as int));
    proof {
        let k = choose|k: int| first_eq_at(p@, k);
        if k < i {
            assert(p@[k] != '=');
        }
        if k > i {
            assert(p@[i as int] != '=');
        }
    }
    let name = sub_vec(&p, 0, i);
    let tname = trim_vec(&name);
    let key = chars_of("libra-wire");
    if !eq_ignore_case_vec(&tname, &key) {
        return None;
    }
    let value = sub_vec(&p, i + 1, p.len());
    let tvalue = trim_vec(&value);
    Some(strip_quotes_vec(&tvalue))
}

fn part_wire_vec(part: &Vec<char>) -> (r: Option<Vec<char>>)
    ensures
        match r {
            Some(v) => part_wire(part@) == Some(v@),
            None => part_wire(part@) is None,
        },
{
    let p = trim_vec(part);
    let segs = split_vec(&p, ';');
    proof {
        lemma_split_nonempty(p@, ';');
    }
    assert(views(segs@)[0] == segs@[0]@);
    let media0 = trim_vec(&segs[0]);
    let media = ascii_lower_vec(&media0);
    if !word_is(&media, "text/event-stream") {
        return None;
    }
    let ghost params = split(p@, ';').drop_first();
    let mut k: usize = 1;
    assert(params.subrange(0, 0) =~= Seq::<Seq<char>>::empty());
    while k < segs.len()
        invariant
            1 <= k <= segs.len(),
            p@ == trim(part@),
            ascii_lower(trim(split(p@, ';')[0])) == "text/event-stream"@,
            views(segs@) == split(p@, ';'),
            params == split(p@, ';').drop_first(),
            first_wire_param(params.subrange(0, k - 1)) is None,
        decreases segs.len() - k,
    {
        assert(params.subrange(0, k as int).drop_last() =~= params.subrange(0, k - 1));
        assert(params[k - 1] == segs@[k as int]@);
        match wire_param_vec(&segs[k]) {
            Some(v) => {
                proof {
                    let full = params;
                    lemma_first_param_prefix(full, k as int);
                }
                return Some(v);
            },
            None => {},
        }
        k += 1;
    }
    assert(params.subrange(0, segs.len() - 1) =~= params);
    None
}

proof fn lemma_first_param_prefix(s: Seq<Seq<char>>, k: int)
    requires
        0 < k <= s.len(),
        first_wire_param(s.subrange(0, k)) is Some,
    ensures
        first_wire_param(s) == first_wire_param(s.subrange(0, k)),
    decreases s.len() - k,
{
    if k < s.len() {
        assert(s.subrange(0, k + 1).drop_last() =~= s.subrange(0, k));
        lemma_first_param_prefix(s, k + 1);
    } else {
        assert(s.subrange(0, k) =~= s);
    }
}

proof fn lemma_first_part_prefix(s: Seq<Seq<char>>, k: int)
    requires
        0 < k <= s.len(),
        first_part_wire(s.subrange(0, k)) is Some,
    ensures
        first_part_wire(s) == first_part_wire(s.subrange(0, k)),
    decreases s.len() - k,
{
    if k < s.len() {
        assert(s.subrange(0, k + 1).drop_last() =~= s.subrange(0, k));
        lemma_first_part_prefix(s, k + 1);
    } else {
        assert(s.subrange(0, k) =~= s);
    }
}

proof fn lemma_accept_prefix(s: Seq<Seq<char>>, k: int)
    requires
        0 < k <= s.len(),
        accept_wire(s.subrange(0, k)) is Some,
    ensures
        accept_wire(s) == accept_wire(s.subrange(0, k)),
    decreases s.len() - k,
{
    if k < s.len() {
        assert(s.subrange(0, k + 1).drop_last() =~= s.subrange(0, k));
        lemma_accept_prefix(s, k + 1);
    } else {
        assert(s.subrange(0, k) =~= s);
    }
}

fn value_wire(value: &String) -> (r: Option<Vec<char>>)
    ensures
        match r {
            Some(v) => first_part_wire(split(value@, ',')) == Some(v@),
            None => first_part_wire(split(value@, ',')) is None,
        },
{
    let chars = chars_of(value.as_str());
    let parts = split_vec(&chars, ',');
    let ghost ps = split(value@, ',');
    let mut k: usize = 0;
    assert(ps.subrange(0, 0) =~= Seq::<Seq<char>>::empty());
    while k < parts.len()
        invariant
            k <= parts.len(),
            views(parts@) == ps,
            ps == split(value@, ','),
            first_part_wire(ps.subrange(0, k as int)) is None,
        decreases parts.len() - k,
    {
        assert(ps.subrange(0, k + 1).drop_last() =~= ps.subrange(0, k as int));
        assert(ps[k as int] == parts@[k as int]@);
        match part_wire_vec(&parts[k]) {
            Some(v) => {
                proof {
                    lemma_first_part_prefix(ps, k + 1);
                }
                return Some(v);
            },
            None => {},
        }
        k += 1;
    }
    assert(ps.subrange(0, parts.len() as int) =~= ps);
    None
}

pub open spec fn accept_views(values: Seq<String>) -> Seq<Seq<char>> {
    values.map_values(|s: String| s@)
}

/// The wire version an Accept header asks for, if any of its field values
/// names one.
pub fn libra_wire_from_accept(accept: &[String]) -> (r: Option<Result<CodeUiSseWireVersion, String>>)
    ensures
        match accept_wire(accept_views(accept@)) {
            None => r is None,
            Some(t) => r is Some && match wire_of(t) {
                Some(v) => r->0 == Ok::<CodeUiSseWireVersion, String>(v),
                None => r->0 matches Err(e) && e@ == wire_error(t),
            },
        },
{
    let ghost vs = accept_views(accept@);
    let mut k: usize = 0;
    assert(vs.subrange(0, 0) =~= Seq::<Seq<char>>::empty());
    while k < accept.len()
        invariant
            k <= accept@.len(),
            vs == accept_views(accept@),
            accept_wire(vs.subrange(0, k as int)) is None,
        decreases accept.len() - k,
    {
        assert(vs.subrange(0, k + 1).drop_last() =~= vs.subrange(0, k as int));
        assert(vs[k as int] == accept@[k as int]@);
        match value_wire(&accept[k]) {
            Some(v) => {
                proof {
                    lemma_accept_prefix(vs, k + 1);
                }
                let t = string_of(&v);
                return Some(parse_wire_token(t.as_str()));
            },
            None => {},
        }
        k += 1;
    }
    assert(vs.subrange(0, accept@.len() as int) =~= vs);
    None
}

/// The negotiated wire version: an explicit `?wire=` wins over the Accept
/// header's `libra-wire`, which wins over the default; illegal values fail
/// closed.
pub fn parse_code_events_wire_version(query: &CodeEventsQuery, accept: &[String]) -> (r: Result<
    CodeUiSseWireVersion,
    String,
>)
    ensures
        ({
            let token = match query.wire {
                Some(w) => Some(w@),
                None => accept_wire(accept_views(accept@)),
            };
            match token {
                None => r == Ok::<CodeUiSseWireVersion, String>(CodeUiSseWireVersion::V1),
                Some(t) => match wire_of(t) {
                    Some(v) => r == Ok::<CodeUiSseWireVersion, String>(v),
                    None => r matches Err(e) && e@ == wire_error(t),
                },
            }
        }),
{
    if let Some(raw) = &query.wire {
        return parse_wire_token(raw.as_str());
    }
    if let Some(from_accept) = libra_wire_from_accept(accept) {
        return from_accept;
    }
    Ok(DEFAULT_CODE_UI_SSE_WIRE_VERSION)
}

/// The replay cursor: 0 when omitted, else the trimmed value as a
/// non-negative integer; anything else fails closed.
pub fn parse_code_events_cursor(query: &CodeEventsQuery) -> (r: Result<u64, String>)
    ensures
        match query.cursor {
            None => r == Ok::<u64, String>(0),
            Some(raw) => match parse_u64(trim(raw@)) {
                Some(n) => r == Ok::<u64, String>(n),
                None => r matches Err(e) && e@
                    == "query parameter `cursor` must be a non-negative integer (got '"@ + raw@
                    + "')"@,
            },
        },
{
    match &query.cursor {
        None => Ok(0),
        Some(raw) => {
            let t = trim_str(raw.as_str());
            match parse_u64_vec(&t) {
                Some(n) => Ok(n),
                None => Err(
                    concat3(
                        "query parameter `cursor` must be a non-negative integer (got '",
                        raw.as_str(),
                        "')",
                    ),
                ),
            }
        },
    }
}

// ---------------------------------------------------------------------------
// Wire v2 kinds
// ---------------------------------------------------------------------------
pub open spec fn kind_name_of(kind: CodeWorkflowEventKind) -> Seq<char> {
    match kind {
        CodeWorkflowEventKind::CommandAccepted { .. } => "command_accepted"@,
        CodeWorkflowEventKind::IntentReviewRequested { .. } => "intent_review_requested"@,
        CodeWorkflowEventKind::PlanReviewRequested { .. } => "plan_review_requested"@,
        CodeWorkflowEventKind::NetworkPolicyRequested { .. } => "network_policy_requested"@,
        CodeWorkflowEventKind::PlanExecutionRepairRequested { .. } => {
            "plan_execution_repair_requested"@
        },
        CodeWorkflowEventKind::InteractionResolved { .. } => "interaction_resolved"@,
        CodeWorkflowEventKind::CodeUiProjectionDelta { .. } => "code_ui_projection_delta"@,
        CodeWorkflowEventKind::TerminalSuccess { .. } => "terminal_success"@,
        CodeWorkflowEventKind::TerminalFailure { .. } => "terminal_failure"@,
        CodeWorkflowEventKind::IndeterminateSideEffect { .. } => "indeterminate_side_effect"@,
        CodeWorkflowEventKind::CommandIntentPersisted { .. } => "command_intent_persisted"@,
        CodeWorkflowEventKind::CommandTerminalSuccess { .. } => "command_terminal_success"@,
        CodeWorkflowEventKind::CommandTerminalSuccessWithInteractionResolved { .. } => {
            "command_terminal_success_with_interaction_resolved"@
        },
        CodeWorkflowEventKind::CommandTerminalFailure { .. } => "command_terminal_failure"@,
        CodeWorkflowEventKind::CommandIndeterminateSideEffect { .. } => {
            "command_indeterminate_side_effect"@
        },
    }
}

/// The snake_case name of a workflow event kind.
pub fn workflow_kind_name(kind: &CodeWorkflowEventKind) -> (r: &'static str)
    ensures
        r@ == kind_name_of(*kind),
{
    match kind {
        CodeWorkflowEventKind::CommandAccepted { .. } => "command_accepted",
        CodeWorkflowEventKind::IntentReviewRequested { .. } => "intent_review_requested",
        CodeWorkflowEventKind::PlanReviewRequested { .. } => "plan_review_requested",
        CodeWorkflowEventKind::NetworkPolicyRequested { .. } => "network_policy_requested",
        CodeWorkflowEventKind::PlanExecutionRepairRequested { .. } => {
            "plan_execution_repair_requested"
        },
        CodeWorkflowEventKind::InteractionResolved { .. } => "interaction_resolved",
        CodeWorkflowEventKind::CodeUiProjectionDelta { .. } => "code_ui_projection_delta",
        CodeWorkflowEventKind::TerminalSuccess { .. } => "terminal_success",
        CodeWorkflowEventKind::TerminalFailure { .. } => "terminal_failure",
        CodeWorkflowEventKind::IndeterminateSideEffect { .. } => "indeterminate_side_effect",
        CodeWorkflowEventKind::CommandIntentPersisted { .. } => "command_intent_persisted",
        CodeWorkflowEventKind::CommandTerminalSuccess { .. } => "command_terminal_success",
        CodeWorkflowEventKind::CommandTerminalSuccessWithInteractionResolved { .. } => {
            "command_terminal_success_with_interaction_resolved"
        },
        CodeWorkflowEventKind::CommandTerminalFailure { .. } => "command_terminal_failure",
        CodeWorkflowEventKind::CommandIndeterminateSideEffect { .. } => {
            "command_indeterminate_side_effect"
        },
    }
}

/// The `kind` of a wire-v2 event: projection deltas carry their projection
/// name, every other event its kind name.
pub fn wire_v2_kind(kind: &CodeWorkflowEventKind) -> (r: String)
    ensures
        r@ == match kind {
            CodeWorkflowEventKind::CodeUiProjectionDelta { projection, .. } => "code_ui_projection_delta:"@
                + projection@,
            other => kind_name_of(*other),
        },
{
    match kind {
        CodeWorkflowEventKind::CodeUiProjectionDelta { projection, .. } => concat(
            "code_ui_projection_delta:",
            projection.as_str(),
        ),
        other => String::from_str(workflow_kind_name(other)),
    }
}

/// The durable tail: the sequence before the next one (0 for an empty log).
pub fn durable_workflow_tail_sequence(next_sequence: u64) -> (r: u64)
    ensures
        r == if next_sequence == 0 {
            0
        } else {
            (next_sequence - 1) as u64
        },
{
    next_sequence.saturating_sub(1)
}

/// What a bounded replay read after a cursor returned.
#[derive(Debug, Clone, Copy)]
pub enum ReplayRead {
    /// Events were read: the first gap between retained sequences, if any,
    /// and the sequence of the last event read, if any.
    Events { first_gap: Option<(u64, u64)>, last_sequence: Option<u64> },
    /// The read could not prove the retained tail of the workflow log.
    UnprovableTail,
    /// Any other read failure.
    Failed,
}

/// What a replay after a cursor answers.
#[derive(Debug, Clone, Copy, PartialEq, Eq, Structural)]
pub enum ReplayDecision {
    /// Send the events read; the hub's durable tail becomes `tail`.
    Send { tail: u64 },
    /// Refuse to resume across missing events between the two sequences.
    Gap { after: u64, before: u64 },
    /// An idle reconnect at the durable tip: nothing to send.
    Idle,
    /// Propagate the read failure.
    Fail,
}

/// The answer to a replay after `after_sequence` when the hub's durable
/// tail is `tail`: a gap refuses resumption; events are sent and raise the
/// tail to the last one; an unprovable tail is an idle reconnect only at
/// the (non-zero) tip; any other failure propagates.
pub open spec fn replay_decision(read: ReplayRead, after_sequence: u64, tail: u64) -> ReplayDecision {
    match read {
        ReplayRead::Events { first_gap, last_sequence } => match first_gap {
            Some((after, before)) => ReplayDecision::Gap { after, before },
            None => ReplayDecision::Send {
                tail: match last_sequence {
                    Some(s) => if s > tail {
                        s
                    } else {
                        tail
                    },
                    None => tail,
                },
            },
        },
        ReplayRead::UnprovableTail => if after_sequence > 0 && after_sequence == tail {
            ReplayDecision::Idle
        } else {
            ReplayDecision::Fail
        },
        ReplayRead::Failed => ReplayDecision::Fail,
    }
}

/// Decides the answer to a replay after `after_sequence`.
pub fn replay_after_decision(read: ReplayRead, after_sequence: u64, tail: u64) -> (r: ReplayDecision)
    ensures
        r == replay_decision(read, after_sequence, tail),
{
    match read {
        ReplayRead::Events { first_gap, last_sequence } => match first_gap {
            Some((after, before)) => ReplayDecision::Gap { after, before },
            None => ReplayDecision::Send {
                tail: match last_sequence {
                    Some(s) => if s > tail {
                        s
                    } else {
                        tail
                    },
                    None => tail,
                },
            },
        },
        ReplayRead::UnprovableTail => if after_sequence > 0 && after_sequence == tail {
            ReplayDecision::Idle
        } else {
            ReplayDecision::Fail
        },
        ReplayRead::Failed => ReplayDecision::Fail,
    }
}

/// The error text for a replay that would resume across missing events.
pub open spec fn gap_message(after: u64, before: u64) -> Seq<char> {
    "Code UI wire v2 cannot resume across missing workflow events between sequences "@ + dec(after as nat)
        + " and "@ + dec(before as nat)
}

/// The error text for a replay gap between `after` and `before`.
pub fn replay_gap_message(after: u64, before: u64) -> (r: String)
    ensures
        r@ == gap_message(after, before),
{
    let a = string_of(&dec_vec(after));
    let b = string_of(&dec_vec(before));
    let head = concat3(
        "Code UI wire v2 cannot resume across missing workflow events between sequences ",
        a.as_str(),
        " and ",
    );
    concat(head.as_str(), b.as_str())
}

} // verus!
