//! Browser turn admission for the headless web runtime: which messages and
//! command ids are accepted, how a resubmitted command is told apart from a
//! conflicting one, how refusals of the runtime queue are answered, and the
//! bounded memory of admitted command inputs.
use vstd::prelude::*;

use crate::order::{
    lemma_str_lt_asymmetric, lemma_str_lt_irreflexive, lemma_str_lt_total,
    lemma_str_lt_transitive, str_less, str_lt,
};
use crate::text::{
    chars_of, concat, concat3, dec, dec_vec, is_control, is_control_char, is_ws, is_ws_char,
    str_eq, string_of, trim, trim_str,
};

verus! {

/// Why a browser turn is not admitted.
#[derive(Debug, Clone, PartialEq, Eq)]
pub enum AdmissionRefusal {
    /// The message is blank.
    EmptyMessage,
    /// The runtime is shutting down.
    ShuttingDown,
    /// The session's persisted state is indeterminate.
    ReconciliationRequired,
    /// A command id was given but the session has no durable command storage.
    CommandIdNeedsDurableStorage,
    /// The command id is malformed; the text says how.
    InvalidCommandId(String),
    /// Another turn is running (`SESSION_BUSY`).
    SessionBusy,
    /// The command id already finished (`COMMAND_ALREADY_TERMINAL`).
    CommandAlreadyTerminal { turn_id: String, status: String },
    /// The runtime queue refused the turn for another reason.
    QueueUnavailable { detail: String },
}

/// The text of an admission refusal.
pub open spec fn refusal_text(r: AdmissionRefusal) -> Seq<char> {
    match r {
        AdmissionRefusal::EmptyMessage => "Empty messages are not accepted by libra code"@,
        AdmissionRefusal::ShuttingDown => "This headless web runtime is shutting down and cannot accept new commands"@,
        AdmissionRefusal::ReconciliationRequired => "this headless web session has an indeterminate persistence state; restart and inspect its durable session data before sending another request"@,
        AdmissionRefusal::CommandIdNeedsDurableStorage => "commandId requires a resumable headless session with durable command storage; omit commandId or enable session persistence"@,
        AdmissionRefusal::InvalidCommandId(m) => m@,
        AdmissionRefusal::SessionBusy => "A turn is already running; cancel it or wait for the assistant to finish before sending another message"@,
        AdmissionRefusal::CommandAlreadyTerminal { turn_id, status } => "commandId '"@ + turn_id@
            + "' already finished with state "@ + status@ + "; allocate a new commandId to retry"@,
        AdmissionRefusal::QueueUnavailable { detail } => "Unable to admit the browser turn to the AgentRuntime queue; no turn was started: "@
            + detail@,
    }
}

impl AdmissionRefusal {
    /// The human-readable text of the refusal.
    pub fn message(&self) -> (r: String)
        ensures
            r@ == refusal_text(*self),
    {
        match self {
            AdmissionRefusal::EmptyMessage => String::from_str(
                "Empty messages are not accepted by libra code",
            ),
            AdmissionRefusal::ShuttingDown => String::from_str(
                "This headless web runtime is shutting down and cannot accept new commands",
            ),
            AdmissionRefusal::ReconciliationRequired => String::from_str(
                "this headless web session has an indeterminate persistence state; restart and inspect its durable session data before sending another request",
            ),
            AdmissionRefusal::CommandIdNeedsDurableStorage => String::from_str(
                "commandId requires a resumable headless session with durable command storage; omit commandId or enable session persistence",
            ),
            AdmissionRefusal::InvalidCommandId(m) => m.clone(),
            AdmissionRefusal::SessionBusy => String::from_str(
                "A turn is already running; cancel it or wait for the assistant to finish before sending another message",
            ),
            AdmissionRefusal::CommandAlreadyTerminal { turn_id, status } => {
                let head = concat3("commandId '", turn_id.as_str(), "' already finished with state ");
                concat3(head.as_str(), status.as_str(), "; allocate a new commandId to retry")
            },
            AdmissionRefusal::QueueUnavailable { detail } => concat(
                "Unable to admit the browser turn to the AgentRuntime queue; no turn was started: ",
                detail.as_str(),
            ),
        }
    }
}

// ---------------------------------------------------------------------------
// Command ids
// ---------------------------------------------------------------------------

/// Whether `s` holds a whitespace or control character.
pub open spec fn has_space_or_control(s: Seq<char>) -> bool {
    exists|i: int| 0 <= i < s.len() && (is_control(#[trigger] s[i]) || is_ws(s[i]))
}

/// What a command id is checked to be: the trimmed id when it is non-empty,
/// at most 512 characters and free of whitespace and control characters.
pub open spec fn command_id_check(raw: Seq<char>) -> Result<Seq<char>, Seq<char>> {
    let t = trim(raw);
    if t.len() == 0 {
        Err("commandId must be a non-empty string when provided"@)
    } else if t.len() > 512 {
        Err("commandId must be at most 512 characters (got "@ + dec(t.len()) + ")"@)
    } else if has_space_or_control(t) {
        Err("commandId must not contain whitespace or control characters"@)
    } else {
        Ok(t)
    }
}

/// The trimmed command id, or why it is refused.
pub fn validate_command_id(raw: &str) -> (r: Result<String, AdmissionRefusal>)
    ensures
        match command_id_check(raw@) {
            Ok(t) => r matches Ok(id) && id@ == t,
            Err(m) => r matches Err(AdmissionRefusal::InvalidCommandId(x)) && x@ == m,
        },
{
    let t = trim_str(raw);
    if t.len() == 0 {
        return Err(
            AdmissionRefusal::InvalidCommandId(
                String::from_str("commandId must be a non-empty string when provided"),
            ),
        );
    }
    if t.len() > 512 {
        let n = dec_vec(t.len() as u64);
        let shown = string_of(&n);
        return Err(
            AdmissionRefusal::InvalidCommandId(
                concat3("commandId must be at most 512 characters (got ", shown.as_str(), ")"),
            ),
        );
    }
    let mut i: usize = 0;
    while i < t.len()
        invariant
            i <= t.len(),
            t@ == trim(raw@),
            0 < t@.len() <= 512,
            forall|k: int| 0 <= k < i ==> !(is_control(#[trigger] t@[k]) || is_ws(t@[k])),
        decreases t.len() - i,
    {
        if is_control_char(t[i]) || is_ws_char(t[i]) {
            assert(is_control(t@[i as int]) || is_ws(t@[i as int]));
            return Err(
                AdmissionRefusal::InvalidCommandId(
                    String::from_str("commandId must not contain whitespace or control characters"),
                ),
            );
        }
        i += 1;
    }
    Ok(string_of(&t))
}

/// The admission checks before a turn id exists, in order: a blank message,
/// shutdown, an indeterminate session, a command id without durable storage,
/// then the command id itself.
pub open spec fn precheck(
    text: Seq<char>,
    command_id: Option<Seq<char>>,
    shutting_down: bool,
    indeterminate: bool,
    durable: bool,
) -> Result<Option<Seq<char>>, AdmissionRefusal> {
    if trim(text).len() == 0 {
        Err(AdmissionRefusal::EmptyMessage)
    } else if shutting_down {
        Err(AdmissionRefusal::ShuttingDown)
    } else if indeterminate {
        Err(AdmissionRefusal::ReconciliationRequired)
    } else if command_id is Some && !durable {
        Err(AdmissionRefusal::CommandIdNeedsDurableStorage)
    } else {
        match command_id {
            None => Ok(None),
            Some(raw) => match command_id_check(raw) {
                Ok(t) => Ok(Some(t)),
                Err(_) => Err(AdmissionRefusal::InvalidCommandId(arbitrary())),
            },
        }
    }
}

/// The validated command id of a browser message (`None` when the browser
/// gave none and the runtime allocates one), or the first refusal.
pub fn admission_command_id(
    text: &str,
    command_id: Option<&str>,
    shutting_down: bool,
    indeterminate: bool,
    durable: bool,
) -> (r: Result<Option<String>, AdmissionRefusal>)
    ensures
        ({
            let cid = match command_id {
                Some(c) => Some(c@),
                None => None,
            };
            let want = precheck(text@, cid, shutting_down, indeterminate, durable);
            &&& (r is Ok <==> want is Ok)
            &&& (r matches Ok(Some(id)) ==> want == Ok::<Option<Seq<char>>, AdmissionRefusal>(Some(id@)))
            &&& (r matches Ok(None) ==> want == Ok::<Option<Seq<char>>, AdmissionRefusal>(None))
            &&& (r matches Err(e) ==> match want {
                Err(AdmissionRefusal::InvalidCommandId(_)) => e matches AdmissionRefusal::InvalidCommandId(m)
                    && command_id_check(cid->Some_0) == Err::<Seq<char>, Seq<char>>(m@),
                Err(w) => e == w,
                Ok(_) => false,
            })
        }),
{
    if trim_str(text).len() == 0 {
        return Err(AdmissionRefusal::EmptyMessage);
    }
    if shutting_down {
        return Err(AdmissionRefusal::ShuttingDown);
    }
    if indeterminate {
        return Err(AdmissionRefusal::ReconciliationRequired);
    }
    match command_id {
        None => Ok(None),
        Some(raw) => {
            if !durable {
                return Err(AdmissionRefusal::CommandIdNeedsDurableStorage);
            }
            match validate_command_id(raw) {
                Ok(id) => Ok(Some(id)),
                Err(e) => Err(e),
            }
        },
    }
}

// ---------------------------------------------------------------------------
// In-flight turns and queue refusals
// ---------------------------------------------------------------------------

/// What to do with a browser message while a turn may be in flight.
#[derive(Debug, Clone, Copy, PartialEq, Eq, Structural)]
pub enum InFlightDecision {
    /// No turn is in flight: admit this one.
    Admit,
    /// The same command with the same text is already in flight: accept it
    /// again without starting anything.
    AlreadyAdmitted,
    /// The same command id carries another text.
    PayloadConflict,
    /// Another turn is in flight.
    SessionBusy,
}

/// The decision for turn `turn_id` with `text`, given the in-flight turn's
/// id and text.
pub open spec fn in_flight_outcome(existing: Option<(Seq<char>, Seq<char>)>, turn_id: Seq<char>, text: Seq<char>) -> InFlightDecision {
    match existing {
        None => InFlightDecision::Admit,
        Some((id, input)) => if id == turn_id {
            if input == text {
                InFlightDecision::AlreadyAdmitted
            } else {
                InFlightDecision::PayloadConflict
            }
        } else {
            InFlightDecision::SessionBusy
        },
    }
}

/// What to do with turn `turn_id` while `existing` (id, text) is in flight.
pub fn in_flight_decision(existing: Option<(&str, &str)>, turn_id: &str, text: &str) -> (r:
    InFlightDecision)
    ensures
        r == in_flight_outcome(
            match existing {
                Some((a, b)) => Some((a@, b@)),
                None => None,
            },
            turn_id@,
            text@,
        ),
{
    match existing {
        None => InFlightDecision::Admit,
        Some((id, input)) => {
            if str_eq(id, turn_id) {
                if str_eq(input, text) {
                    InFlightDecision::AlreadyAdmitted
                } else {
                    InFlightDecision::PayloadConflict
                }
            } else {
                InFlightDecision::SessionBusy
            }
        },
    }
}

/// How the runtime queue refused a submitted turn.
#[derive(Debug, Clone)]
pub enum SubmitRefusal {
    /// The command was already admitted and acknowledged.
    IdempotentAcked,
    /// The command already finished, with `status`.
    IdempotentTerminal { turn_id: String, status: String },
    /// A turn with this id is already queued.
    DuplicateTurn { turn_id: String },
    /// The command id carries another payload.
    PayloadConflict,
    /// The session needs reconciliation.
    ReconciliationRequired,
    /// Any other refusal, described.
    Other { detail: String },
}

/// The answer to a queue refusal.
#[derive(Debug, Clone, PartialEq, Eq)]
pub enum SubmitOutcome {
    /// Treat the message as admitted; nothing new was started.
    AlreadyAdmitted,
    /// Report the runtime's own error.
    RuntimeError,
    /// Report a payload conflict on this command id.
    PayloadConflict,
    /// Refuse the message.
    Refused(AdmissionRefusal),
}

/// The answer to a refusal of turn `turn_id` with `text`, given the text
/// last admitted under that id (if remembered).
pub open spec fn submit_outcome(
    refusal: SubmitRefusal,
    turn_id: Seq<char>,
    prior: Option<Seq<char>>,
    text: Seq<char>,
) -> SubmitOutcome {
    match refusal {
        SubmitRefusal::IdempotentAcked => SubmitOutcome::AlreadyAdmitted,
        SubmitRefusal::DuplicateTurn { turn_id: dup } => if dup@ == turn_id {
            if prior == Some(text) {
                SubmitOutcome::AlreadyAdmitted
            } else {
                SubmitOutcome::PayloadConflict
            }
        } else {
            SubmitOutcome::Refused(AdmissionRefusal::QueueUnavailable { detail: arbitrary() })
        },
        SubmitRefusal::IdempotentTerminal { turn_id, status } => SubmitOutcome::Refused(
            AdmissionRefusal::CommandAlreadyTerminal { turn_id, status },
        ),
        SubmitRefusal::PayloadConflict => SubmitOutcome::RuntimeError,
        SubmitRefusal::ReconciliationRequired => SubmitOutcome::RuntimeError,
        SubmitRefusal::Other { detail } => SubmitOutcome::Refused(
            AdmissionRefusal::QueueUnavailable { detail },
        ),
    }
}

/// The answer to a queue refusal of turn `turn_id` with `text`; `detail` is
/// how the runtime describes a refusal that is reported as unavailable.
pub fn submit_failure_outcome(
    refusal: SubmitRefusal,
    turn_id: &str,
    prior: Option<&str>,
    text: &str,
    detail: &str,
) -> (r: SubmitOutcome)
    ensures
        ({
            let want = submit_outcome(
                refusal,
                turn_id@,
                match prior {
                    Some(p) => Some(p@),
                    None => None,
                },
                text@,
            );
            match want {
                SubmitOutcome::Refused(AdmissionRefusal::QueueUnavailable { .. }) => r matches SubmitOutcome::Refused(
                    AdmissionRefusal::QueueUnavailable { detail: d },
                ) && (refusal matches SubmitRefusal::Other { detail: o } ==> d == o) && (
                !(refusal is Other) ==> d@ == detail@),
                _ => r == want,
            }
        }),
{
    match refusal {
        SubmitRefusal::IdempotentAcked => SubmitOutcome::AlreadyAdmitted,
        SubmitRefusal::DuplicateTurn { turn_id: dup } => {
            if str_eq(dup.as_str(), turn_id) {
                let same = match prior {
                    Some(p) => str_eq(p, text),
                    None => false,
                };
                if same {
                    SubmitOutcome::AlreadyAdmitted
                } else {
                    SubmitOutcome::PayloadConflict
                }
            } else {
                SubmitOutcome::Refused(
                    AdmissionRefusal::QueueUnavailable { detail: String::from_str(detail) },
                )
            }
        },
        SubmitRefusal::IdempotentTerminal { turn_id, status } => SubmitOutcome::Refused(
            AdmissionRefusal::CommandAlreadyTerminal { turn_id, status },
        ),
        SubmitRefusal::PayloadConflict => SubmitOutcome::RuntimeError,
        SubmitRefusal::ReconciliationRequired => SubmitOutcome::RuntimeError,
        SubmitRefusal::Other { detail } => SubmitOutcome::Refused(
            AdmissionRefusal::QueueUnavailable { detail },
        ),
    }
}

// ---------------------------------------------------------------------------
// Admitted command inputs
// ---------------------------------------------------------------------------

/// How many admitted command inputs are remembered.
pub const ADMITTED_COMMAND_INPUT_LIMIT: usize = 64;

/// The (command id, input) views of remembered entries.
pub open spec fn entry_views(v: Seq<(String, String)>) -> Seq<(Seq<char>, Seq<char>)> {
    v.map_values(|e: (String, String)| (e.0@, e.1@))
}

/// Entries ordered by strictly increasing command id (a map's order).
pub open spec fn sorted_keys(s: Seq<(Seq<char>, Seq<char>)>) -> bool {
    forall|i: int, j: int| 0 <= i < j < s.len() ==> str_lt(#[trigger] s[i].0, #[trigger] s[j].0)
}

/// The entries with `k` mapped to `v`, in key order (`BTreeMap::insert`).
pub open spec fn insert_sorted(s: Seq<(Seq<char>, Seq<char>)>, k: Seq<char>, v: Seq<char>) -> Seq<
    (Seq<char>, Seq<char>),
>
    decreases s.len(),
{
    if s.len() == 0 {
        seq![(k, v)]
    } else if s[0].0 == k {
        s.update(0, (k, v))
    } else if str_lt(k, s[0].0) {
        seq![(k, v)] + s
    } else {
        seq![s[0]] + insert_sorted(s.drop_first(), k, v)
    }
}

/// The entries after dropping the smallest command ids while there are more
/// than `limit` of them, stopping at `keep`.
pub open spec fn evict(s: Seq<(Seq<char>, Seq<char>)>, keep: Seq<char>, limit: nat) -> Seq<
    (Seq<char>, Seq<char>),
>
    decreases s.len(),
{
    if s.len() > limit && s[0].0 != keep {
        evict(s.drop_first(), keep, limit)
    } else {
        s
    }
}

/// The remembered inputs after admitting `text` under `turn_id`.
pub open spec fn remembered_after(s: Seq<(Seq<char>, Seq<char>)>, turn_id: Seq<char>, text: Seq<char>) -> Seq<
    (Seq<char>, Seq<char>),
> {
    evict(insert_sorted(s, turn_id, text), turn_id, ADMITTED_COMMAND_INPUT_LIMIT as nat)
}

proof fn lemma_insert_at(s: Seq<(Seq<char>, Seq<char>)>, k: Seq<char>, v: Seq<char>, p: int)
    requires
        sorted_keys(s),
        0 <= p <= s.len(),
        forall|i: int| 0 <= i < p ==> str_lt(#[trigger] s[i].0, k),
        p < s.len() ==> !str_lt(s[p].0, k),
    ensures
        insert_sorted(s, k, v) == (if p < s.len() && s[p].0 == k {
            s.update(p, (k, v))
        } else {
            s.insert(p, (k, v))
        }),
    decreases p,
{
    if s.len() == 0 {
        assert(seq![(k, v)] =~= s.insert(0, (k, v)));
    } else if p == 0 {
        if s[0].0 != k {
            lemma_str_lt_total(s[0].0, k);
            assert(seq![(k, v)] + s =~= s.insert(0, (k, v)));
        }
    } else {
        lemma_str_lt_irreflexive(k);
        lemma_str_lt_asymmetric(s[0].0, k);
        assert(str_lt(s[0].0, k));
        let t = s.drop_first();
        assert forall|i: int, j: int| 0 <= i < j < t.len() implies str_lt(#[trigger] t[i].0, #[trigger] t[j].0) by {
            assert(t[i] == s[i + 1] && t[j] == s[j + 1]);
        }
        assert forall|i: int| 0 <= i < p - 1 implies str_lt(#[trigger] t[i].0, k) by {
            assert(t[i] == s[i + 1]);
        }
        lemma_insert_at(t, k, v, p - 1);
        if p < s.len() && s[p].0 == k {
            assert(seq![s[0]] + t.update(p - 1, (k, v)) =~= s.update(p, (k, v)));
        } else {
            assert(seq![s[0]] + t.insert(p - 1, (k, v)) =~= s.insert(p, (k, v)));
        }
    }
}

proof fn lemma_evict_sorted(s: Seq<(Seq<char>, Seq<char>)>, keep: Seq<char>, limit: nat)
    requires
        sorted_keys(s),
    ensures
        sorted_keys(evict(s, keep, limit)),
    decreases s.len(),
{
    if s.len() > limit && s[0].0 != keep {
        let t = s.drop_first();
        assert forall|i: int, j: int| 0 <= i < j < t.len() implies str_lt(#[trigger] t[i].0, #[trigger] t[j].0) by {
            assert(t[i] == s[i + 1] && t[j] == s[j + 1]);
        }
        lemma_evict_sorted(t, keep, limit);
    }
}

/// Remembers that `text` was admitted under `turn_id`, keeping at most
/// `ADMITTED_COMMAND_INPUT_LIMIT` entries: the smallest command ids are
/// forgotten first, but never the one just admitted.
pub fn remember_admitted_input(admitted: &mut Vec<(String, String)>, turn_id: &str, text: &str)
    requires
        sorted_keys(entry_views(old(admitted)@)),
    ensures
        entry_views(final(admitted)@) == remembered_after(entry_views(old(admitted)@), turn_id@, text@),
        sorted_keys(entry_views(final(admitted)@)),
{
    let ghost s0 = entry_views(admitted@);
    let mut p: usize = 0;
    while p < admitted.len() && str_less(admitted[p].0.as_str(), turn_id)
        invariant
            p <= admitted.len(),
            s0 == entry_views(admitted@),
            sorted_keys(s0),
            forall|i: int| 0 <= i < p ==> str_lt(#[trigger] s0[i].0, turn_id@),
        decreases admitted.len() - p,
    {
        assert(s0[p as int].0 == admitted@[p as int].0@);
        p += 1;
    }
    proof {
        if p < admitted.len() {
            assert(s0[p as int].0 == admitted@[p as int].0@);
        }
        lemma_insert_at(s0, turn_id@, text@, p as int);
    }
    let ghost inserted = insert_sorted(s0, turn_id@, text@);
    let entry = (String::from_str(turn_id), String::from_str(text));
    if p < admitted.len() && str_eq(admitted[p].0.as_str(), turn_id) {
        admitted.set(p, entry);
        assert(entry_views(admitted@) =~= s0.update(p as int, (turn_id@, text@)));
        assert(sorted_keys(inserted)) by {
            assert forall|i: int, j: int| 0 <= i < j < inserted.len() implies str_lt(
                #[trigger] inserted[i].0,
                #[trigger] inserted[j].0,
            ) by {
                assert(inserted[i].0 == s0[i].0 && inserted[j].0 == s0[j].0);
            }
        }
    } else {
        admitted.insert(p, entry);
        assert(entry_views(admitted@) =~= s0.insert(p as int, (turn_id@, text@)));
        assert(sorted_keys(inserted)) by {
            if p < s0.len() {
                lemma_str_lt_total(s0[p as int].0, turn_id@);
            }
            assert forall|i: int, j: int| 0 <= i < j < inserted.len() implies str_lt(
                #[trigger] inserted[i].0,
                #[trigger] inserted[j].0,
            ) by {
                if j < p {
                    assert(inserted[i] == s0[i] && inserted[j] == s0[j]);
                } else if j == p {
                    assert(inserted[i] == s0[i]);
                } else if i == p {
                    assert(inserted[j] == s0[j - 1]);
                    if j - 1 > p {
                        lemma_str_lt_transitive(turn_id@, s0[p as int].0, s0[j - 1].0);
                    }
                } else if i < p {
                    assert(inserted[i] == s0[i] && inserted[j] == s0[j - 1]);
                } else {
                    assert(inserted[i] == s0[i - 1] && inserted[j] == s0[j - 1]);
                }
            }
        }
    }
    assert(entry_views(admitted@) == inserted);
    while admitted.len() > ADMITTED_COMMAND_INPUT_LIMIT && !str_eq(admitted[0].0.as_str(), turn_id)
        invariant
            sorted_keys(entry_views(admitted@)),
            evict(inserted, turn_id@, ADMITTED_COMMAND_INPUT_LIMIT as nat) == evict(
                entry_views(admitted@),
                turn_id@,
                ADMITTED_COMMAND_INPUT_LIMIT as nat,
            ),
        decreases admitted.len(),
    {
        let ghost before = entry_views(admitted@);
        assert(before[0].0 == admitted@[0].0@);
        admitted.remove(0);
        assert(entry_views(admitted@) =~= before.drop_first());
        assert forall|i: int, j: int| 0 <= i < j < entry_views(admitted@).len() implies str_lt(
            #[trigger] entry_views(admitted@)[i].0,
            #[trigger] entry_views(admitted@)[j].0,
        ) by {
            assert(entry_views(admitted@)[i] == before[i + 1]);
            assert(entry_views(admitted@)[j] == before[j + 1]);
        }
    }
    proof {
        let cur = entry_views(admitted@);
        if cur.len() > 0 {
            assert(cur[0].0 == admitted@[0].0@);
        }
        assert(evict(cur, turn_id@, ADMITTED_COMMAND_INPUT_LIMIT as nat) == cur);
    }
}

/// The input last admitted under `turn_id`, if it is remembered.
pub fn admitted_input<'a>(admitted: &'a Vec<(String, String)>, turn_id: &str) -> (r: Option<&'a str>)
    ensures
        match r {
            Some(t) => exists|i: int| 0 <= i < admitted@.len() && (#[trigger] admitted@[i]).0@ == turn_id@ && admitted@[i].1@ == t@,
            None => forall|i: int| 0 <= i < admitted@.len() ==> (#[trigger] admitted@[i]).0@ != turn_id@,
        },
{
    let mut i: usize = 0;
    while i < admitted.len()
        invariant
            i <= admitted.len(),
            forall|k: int| 0 <= k < i ==> (#[trigger] admitted@[k]).0@ != turn_id@,
        decreases admitted.len() - i,
    {
        if str_eq(admitted[i].0.as_str(), turn_id) {
            assert(admitted@[i as int].0@ == turn_id@);
            return Some(admitted[i].1.as_str());
        }
        i += 1;
    }
    None
}

proof fn lemma_insert_sorted_holds(s: Seq<(Seq<char>, Seq<char>)>, k: Seq<char>, v: Seq<char>)
    ensures
        insert_sorted(s, k, v).contains((k, v)),
    decreases s.len(),
{
    if s.len() == 0 {
        assert(insert_sorted(s, k, v)[0] == (k, v));
    } else if s[0].0 == k {
        assert(insert_sorted(s, k, v)[0] == (k, v));
    } else if str_lt(k, s[0].0) {
        assert(insert_sorted(s, k, v)[0] == (k, v));
    } else {
        lemma_insert_sorted_holds(s.drop_first(), k, v);
        let r = insert_sorted(s.drop_first(), k, v);
        let i = choose|i: int| 0 <= i < r.len() && r[i] == (k, v);
        assert(insert_sorted(s, k, v)[i + 1] == (k, v));
    }
}

proof fn lemma_evict_keeps(s: Seq<(Seq<char>, Seq<char>)>, keep: Seq<char>, limit: nat, t: Seq<char>)
    requires
        s.contains((keep, t)),
    ensures
        evict(s, keep, limit).contains((keep, t)),
    decreases s.len(),
{
    if s.len() > limit && s[0].0 != keep {
        let i = choose|i: int| 0 <= i < s.len() && s[i] == (keep, t);
        assert(i > 0);
        assert(s.drop_first()[i - 1] == (keep, t));
        lemma_evict_keeps(s.drop_first(), keep, limit, t);
    }
}

/// A command that was just admitted is always remembered with its input,
/// however many others are forgotten to respect the limit.
pub proof fn law_admitted_command_is_remembered(
    s: Seq<(Seq<char>, Seq<char>)>,
    turn_id: Seq<char>,
    text: Seq<char>,
)
    ensures
        remembered_after(s, turn_id, text).contains((turn_id, text)),
{
    lemma_insert_sorted_holds(s, turn_id, text);
    lemma_evict_keeps(
        insert_sorted(s, turn_id, text),
        turn_id,
        ADMITTED_COMMAND_INPUT_LIMIT as nat,
        text,
    );
}

/// Resubmitting the command that is in flight with the same text is
/// accepted again without starting a turn; with another text it is a
/// payload conflict.
pub proof fn law_resubmission_is_idempotent(turn_id: Seq<char>, text: Seq<char>, other: Seq<char>)
    requires
        other != text,
    ensures
        in_flight_outcome(Some((turn_id, text)), turn_id, text) == InFlightDecision::AlreadyAdmitted,
        in_flight_outcome(Some((turn_id, text)), turn_id, other) == InFlightDecision::PayloadConflict,
{
}

} // verus!
