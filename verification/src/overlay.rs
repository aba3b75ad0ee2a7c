//! The Code UI overlay of a thread graph: which Code sessions belong to a
//! thread, which failures to load a candidate are tolerated, which matching
//! session is the newest, and the status the overlay reports.
use vstd::prelude::*;

use crate::codex::{CodeUiInteractionStatus, CodeUiSessionStatus};
use crate::order::{
    lemma_str_lt_asymmetric, lemma_str_lt_irreflexive, lemma_str_lt_total,
    lemma_str_lt_transitive, str_less, str_lt,
};
use crate::text::{concat, concat3, str_eq};

verus! {

/// What the overlay reads of a Code session: its id and the thread ids its
/// metadata records under `thread_id`, `canonical_thread_id` and `threadId`
/// (each when it is a string).
#[derive(Debug, Clone)]
pub struct OverlaySession {
    pub id: String,
    pub thread_id: Option<String>,
    pub canonical_thread_id: Option<String>,
    pub thread_id_camel: Option<String>,
}

/// Whether an optional string is present and equal to `t`.
pub open spec fn holds(o: Option<String>, t: Seq<char>) -> bool {
    o matches Some(v) && v@ == t
}

/// Whether a session belongs to a thread: by its id or by a recorded thread id.
pub open spec fn session_matches(s: OverlaySession, thread_id: Seq<char>) -> bool {
    ||| s.id@ == thread_id
    ||| holds(s.thread_id, thread_id)
    ||| holds(s.canonical_thread_id, thread_id)
    ||| holds(s.thread_id_camel, thread_id)
}

fn opt_is(o: &Option<String>, t: &str) -> (r: bool)
    ensures
        r == holds(*o, t@),
{
    match o {
        Some(v) => str_eq(v.as_str(), t),
        None => false,
    }
}

/// Whether `session` belongs to the thread `thread_id`.
pub fn session_matches_thread_for_graph(session: &OverlaySession, thread_id: &str) -> (r: bool)
    ensures
        r == session_matches(*session, thread_id@),
{
    str_eq(session.id.as_str(), thread_id) || opt_is(&session.thread_id, thread_id) || opt_is(
        &session.canonical_thread_id,
        thread_id,
    ) || opt_is(&session.thread_id_camel, thread_id)
}

/// The refusal when the session named like the thread fails to load.
pub open spec fn canonical_load_failure(session_id: Seq<char>, thread_id: Seq<char>) -> Seq<char> {
    "failed to load Code session '"@ + session_id + "' while building graph overlay for thread '"@
        + thread_id + "'"@
}

/// The refusal when an indexed candidate session fails to load.
pub open spec fn indexed_load_failure(session_id: Seq<char>, thread_id: Seq<char>) -> Seq<char> {
    "failed to load indexed Code session '"@ + session_id
        + "' while building graph overlay for thread '"@ + thread_id + "'"@
}

/// What a failure to load candidate `session_id` means: the candidate named
/// like the thread is skipped when it does not exist (canonical thread ids
/// often differ from session ids); any other failure fails the overlay
/// closed, since skipping an indexed session could hide a fence.
pub fn overlay_candidate_failure(session_id: &str, thread_id: &str, not_found: bool) -> (r: Option<
    String,
>)
    ensures
        session_id@ == thread_id@ && not_found ==> r is None,
        session_id@ == thread_id@ && !not_found ==> (r matches Some(m) && m@
            == canonical_load_failure(session_id@, thread_id@)),
        session_id@ != thread_id@ ==> (r matches Some(m) && m@ == indexed_load_failure(session_id@, thread_id@)),
{
    if str_eq(session_id, thread_id) {
        if not_found {
            None
        } else {
            let head = concat3("failed to load Code session '", session_id, "' while building graph overlay for thread '");
            Some(concat3(head.as_str(), thread_id, "'"))
        }
    } else {
        let head = concat3(
            "failed to load indexed Code session '",
            session_id,
            "' while building graph overlay for thread '",
        );
        Some(concat3(head.as_str(), thread_id, "'"))
    }
}

/// How a matching session is ranked: the modification time of its event log
/// (nanoseconds since the Unix epoch), its last update, and its id.
#[derive(Debug, Clone)]
pub struct OverlayRank {
    pub modified_ns: u128,
    pub updated_at_ms: i64,
    pub session_id: String,
}

/// `a > b` in the lexicographic order of ranks.
pub open spec fn rank_gt(a: OverlayRank, b: OverlayRank) -> bool {
    ||| a.modified_ns > b.modified_ns
    ||| a.modified_ns == b.modified_ns && a.updated_at_ms > b.updated_at_ms
    ||| a.modified_ns == b.modified_ns && a.updated_at_ms == b.updated_at_ms && str_lt(
        b.session_id@,
        a.session_id@,
    )
}

proof fn lemma_rank_gt_transitive(a: OverlayRank, b: OverlayRank, c: OverlayRank)
    requires
        rank_gt(a, b),
        rank_gt(b, c),
    ensures
        rank_gt(a, c),
{
    if a.modified_ns == b.modified_ns && b.modified_ns == c.modified_ns && a.updated_at_ms
        == b.updated_at_ms && b.updated_at_ms == c.updated_at_ms {
        lemma_str_lt_transitive(c.session_id@, b.session_id@, a.session_id@);
    }
}

proof fn lemma_rank_not_gt_means_ge(a: OverlayRank, b: OverlayRank)
    ensures
        !rank_gt(a, b) ==> (rank_gt(b, a) || (a.modified_ns == b.modified_ns && a.updated_at_ms
            == b.updated_at_ms && a.session_id@ == b.session_id@)),
{
    lemma_str_lt_total(a.session_id@, b.session_id@);
}

proof fn lemma_rank_gt_irreflexive(a: OverlayRank)
    ensures
        !rank_gt(a, a),
{
    lemma_str_lt_irreflexive(a.session_id@);
}

fn rank_greater(a: &OverlayRank, b: &OverlayRank) -> (r: bool)
    ensures
        r == rank_gt(*a, *b),
{
    if a.modified_ns != b.modified_ns {
        a.modified_ns > b.modified_ns
    } else if a.updated_at_ms != b.updated_at_ms {
        a.updated_at_ms > b.updated_at_ms
    } else {
        str_less(b.session_id.as_str(), a.session_id.as_str())
    }
}

/// The newest of the matching sessions' ranks: no rank is above it, and it
/// is strictly above every rank before it (the first of equal ranks wins).
pub fn select_newest_overlay_session(ranks: &Vec<OverlayRank>) -> (r: Option<usize>)
    ensures
        r is None <==> ranks@.len() == 0,
        r matches Some(i) ==> {
            &&& i < ranks@.len()
            &&& forall|j: int| 0 <= j < ranks@.len() ==> !rank_gt(#[trigger] ranks@[j], ranks@[i as int])
            &&& forall|j: int| 0 <= j < i ==> rank_gt(ranks@[i as int], #[trigger] ranks@[j])
        },
{
    if ranks.len() == 0 {
        return None;
    }
    let mut best: usize = 0;
    let mut k: usize = 1;
    proof {
        lemma_rank_gt_irreflexive(ranks@[0]);
    }
    while k < ranks.len()
        invariant
            1 <= k <= ranks.len(),
            best < k,
            forall|j: int| 0 <= j < k ==> !rank_gt(#[trigger] ranks@[j], ranks@[best as int]),
            forall|j: int| 0 <= j < best ==> rank_gt(ranks@[best as int], #[trigger] ranks@[j]),
        decreases ranks.len() - k,
    {
        if rank_greater(&ranks[k], &ranks[best]) {
            proof {
                let nb = ranks@[k as int];
                let ob = ranks@[best as int];
                lemma_rank_gt_irreflexive(nb);
                assert forall|j: int| 0 <= j < k + 1 implies !rank_gt(#[trigger] ranks@[j], nb) by {
                    if j < k && rank_gt(ranks@[j], nb) {
                        lemma_rank_gt_transitive(ranks@[j], nb, ob);
                    }
                }
                assert forall|j: int| 0 <= j < k implies rank_gt(nb, #[trigger] ranks@[j]) by {
                    if j < best {
                        lemma_rank_gt_transitive(nb, ob, ranks@[j]);
                    } else if j == best {
                    } else {
                        lemma_rank_not_gt_means_ge(ranks@[j], ob);
                        if rank_gt(ob, ranks@[j]) {
                            lemma_rank_gt_transitive(nb, ob, ranks@[j]);
                        } else {
                            lemma_str_lt_asymmetric(ob.session_id@, nb.session_id@);
                        }
                    }
                }
            }
            best = k;
        }
        k += 1;
    }
    Some(best)
}

/// The status the overlay starts its fold from: an active status (thinking,
/// executing a tool, awaiting an interaction) is kept, and becomes awaiting
/// an interaction when one is pending; an indeterminate side effect is kept;
/// any other status becomes awaiting an interaction when one is pending and
/// idle otherwise.
pub open spec fn bootstrap_status(status: CodeUiSessionStatus, has_pending: bool) -> CodeUiSessionStatus {
    if status == CodeUiSessionStatus::IndeterminateSideEffect {
        status
    } else if status == CodeUiSessionStatus::Thinking || status == CodeUiSessionStatus::ExecutingTool
        || status == CodeUiSessionStatus::AwaitingInteraction {
        if has_pending {
            CodeUiSessionStatus::AwaitingInteraction
        } else {
            status
        }
    } else if has_pending {
        CodeUiSessionStatus::AwaitingInteraction
    } else {
        CodeUiSessionStatus::Idle
    }
}

/// The status the overlay starts its fold from.
pub fn graph_overlay_bootstrap_status(status: CodeUiSessionStatus, has_pending: bool) -> (r:
    CodeUiSessionStatus)
    ensures
        r == bootstrap_status(status, has_pending),
{
    match status {
        CodeUiSessionStatus::IndeterminateSideEffect => status,
        CodeUiSessionStatus::Thinking
        | CodeUiSessionStatus::ExecutingTool
        | CodeUiSessionStatus::AwaitingInteraction => {
            if has_pending {
                CodeUiSessionStatus::AwaitingInteraction
            } else {
                status
            }
        },
        _ => {
            if has_pending {
                CodeUiSessionStatus::AwaitingInteraction
            } else {
                CodeUiSessionStatus::Idle
            }
        },
    }
}

/// The status the overlay reports: an unresolved mutating command is an
/// indeterminate side effect whatever the fold says.
pub fn graph_overlay_status(folded: CodeUiSessionStatus, unresolved_mutation: bool) -> (r:
    CodeUiSessionStatus)
    ensures
        r == (if unresolved_mutation {
            CodeUiSessionStatus::IndeterminateSideEffect
        } else {
            folded
        }),
{
    if unresolved_mutation {
        CodeUiSessionStatus::IndeterminateSideEffect
    } else {
        folded
    }
}

/// The number of pending interactions among `statuses`.
pub open spec fn pending_count(statuses: Seq<CodeUiInteractionStatus>) -> nat
    decreases statuses.len(),
{
    if statuses.len() == 0 {
        0
    } else {
        pending_count(statuses.drop_last()) + if statuses.last() == CodeUiInteractionStatus::Pending {
            1nat
        } else {
            0nat
        }
    }
}

proof fn lemma_pending_count_bound(s: Seq<CodeUiInteractionStatus>)
    ensures
        pending_count(s) <= s.len(),
    decreases s.len(),
{
    if s.len() > 0 {
        lemma_pending_count_bound(s.drop_last());
    }
}

/// How many of `statuses` are pending.
pub fn count_pending_interactions(statuses: &Vec<CodeUiInteractionStatus>) -> (r: usize)
    ensures
        r == pending_count(statuses@),
{
    let mut n: usize = 0;
    let mut i: usize = 0;
    while i < statuses.len()
        invariant
            i <= statuses.len(),
            n == pending_count(statuses@.subrange(0, i as int)),
        decreases statuses.len() - i,
    {
        proof {
            assert(statuses@.subrange(0, i + 1).drop_last() =~= statuses@.subrange(0, i as int));
            lemma_pending_count_bound(statuses@.subrange(0, i as int));
        }
        if statuses[i] == CodeUiInteractionStatus::Pending {
            n += 1;
        }
        i += 1;
    }
    assert(statuses@.subrange(0, statuses.len() as int) =~= statuses@);
    n
}

} // verus!
