//! Durable Code workflow events and the recovery scans that re-open human
//! review gates after a crash.
use vstd::prelude::*;

use crate::seqs::{any, any_vec, filter_vec, not, partition_vec, replace_if, upsert, upsert_vec};
use crate::text::{ascii_lower, normalize, str_eq, trim, word_is};

verus! {

/// One durable Code workflow log record, as far as gate recovery and the
/// wire-v2 stream read it.
#[derive(Debug)]
pub enum CodeWorkflowEventKind {
    CommandAccepted { command_id: String },
    IntentReviewRequested {
        interaction_id: String,
        intent_id: String,
        turn_id: String,
        phase0_turn_id: String,
    },
    PlanReviewRequested {
        interaction_id: String,
        plan_id: String,
        turn_id: String,
        phase1_turn_id: String,
    },
    NetworkPolicyRequested {
        interaction_id: String,
        plan_id: String,
        turn_id: String,
        default_allow: bool,
    },
    PlanExecutionRepairRequested { interaction_id: String },
    InteractionResolved { interaction_id: String, resolution: String },
    CodeUiProjectionDelta { projection: String, summary: String, payload: String },
    TerminalSuccess { summary: String },
    TerminalFailure { reason: String },
    IndeterminateSideEffect { reason: String },
    CommandIntentPersisted { command_id: String },
    CommandTerminalSuccess { command_id: String },
    CommandTerminalSuccessWithInteractionResolved {
        command_id: String,
        interaction_id: String,
        resolution: String,
    },
    CommandTerminalFailure { command_id: String, reason: String },
    CommandIndeterminateSideEffect { command_id: String, reason: String },
}

/// The interaction id and resolution an event resolves, if it resolves one.
pub open spec fn resolved_by(e: CodeWorkflowEventKind) -> Option<(String, String)> {
    match e {
        CodeWorkflowEventKind::InteractionResolved { interaction_id, resolution } => Some(
            (interaction_id, resolution),
        ),
        CodeWorkflowEventKind::CommandTerminalSuccessWithInteractionResolved {
            interaction_id,
            resolution,
            ..
        } => Some((interaction_id, resolution)),
        _ => None,
    }
}

// ---------------------------------------------------------------------------
// Plan review gate
// ---------------------------------------------------------------------------
/// A Plan review gate that is still waiting for a human decision.
pub struct OpenPlanReview {
    pub interaction_id: String,
    pub plan_id: String,
    pub turn_id: String,
    pub phase1_turn_id: String,
}

pub open spec fn has_review(s: Seq<OpenPlanReview>, id: Seq<char>) -> bool {
    exists|k: int| 0 <= k < s.len() && (#[trigger] s[k]).interaction_id@ == id
}

/// One step of the Plan review scan: a request opens (or refreshes in place)
/// its gate, a resolution closes it, anything else leaves the gates alone.
pub open spec fn plan_review_step(s: Seq<OpenPlanReview>, e: CodeWorkflowEventKind) -> Seq<
    OpenPlanReview,
> {
    match e {
        CodeWorkflowEventKind::PlanReviewRequested {
            interaction_id,
            plan_id,
            turn_id,
            phase1_turn_id,
        } => {
            let entry = OpenPlanReview { interaction_id, plan_id, turn_id, phase1_turn_id };
            if has_review(s, interaction_id@) {
                s.map_values(
                    |old: OpenPlanReview|
                        if old.interaction_id@ == interaction_id@ {
                            entry
                        } else {
                            old
                        },
                )
            } else {
                s.push(entry)
            }
        },
        _ => match resolved_by(e) {
            Some((id, _)) => s.filter(other_review(id@)),
            None => s,
        },
    }
}

/// Keeps the gates whose interaction is not `id`.
pub open spec fn other_review(id: Seq<char>) -> spec_fn(OpenPlanReview) -> bool {
    |old: OpenPlanReview| old.interaction_id@ != id
}

/// Open Plan review gates after the whole log, oldest first.
pub open spec fn plan_review_state(events: Seq<CodeWorkflowEventKind>) -> Seq<OpenPlanReview>
    decreases events.len(),
{
    if events.len() == 0 {
        Seq::empty()
    } else {
        plan_review_step(plan_review_state(events.drop_last()), events.last())
    }
}

pub open spec fn review_tuple(r: OpenPlanReview) -> (String, String, String, String) {
    (r.interaction_id, r.plan_id, r.turn_id, r.phase1_turn_id)
}

/// The oldest Plan review gate still open after `events`.
pub open spec fn open_plan_review(events: Seq<CodeWorkflowEventKind>) -> Option<
    (String, String, String, String),
> {
    let s = plan_review_state(events);
    if s.len() > 0 {
        Some(review_tuple(s[0]))
    } else {
        None
    }
}

fn reviews_without(s: Vec<OpenPlanReview>, id: &String) -> (r: Vec<OpenPlanReview>)
    ensures
        r@ == s@.filter(other_review(id@)),
{
    let ghost pred = other_review(id@);
    let ghost full = s@;
    let n = s.len();
    let mut r: Vec<OpenPlanReview> = Vec::new();
    let mut src = s;
    proof {
        reveal(Seq::filter);
    }
    assert(full.subrange(0, 0) =~= Seq::<OpenPlanReview>::empty());
    let mut i: usize = 0;
    while src.len() > 0
        invariant
            n == full.len(),
            i + src.len() == n,
            src@ == full.subrange(i as int, n as int),
            r@ == full.subrange(0, i as int).filter(pred),
            pred == other_review(id@),
        decreases src.len(),
    {
        let e = src.remove(0);
        proof {
            reveal(Seq::filter);
        }
        assert(e == full[i as int]);
        assert(full.subrange(0, i + 1).drop_last() =~= full.subrange(0, i as int));
        assert(src@ =~= full.subrange(i + 1, n as int));
        let ghost sub = full.subrange(0, i + 1);
        assert(sub.last() == e);
        assert(sub.filter(pred) == if pred(sub.last()) {
            sub.drop_last().filter(pred).push(sub.last())
        } else {
            sub.drop_last().filter(pred)
        });
        let same = str_eq(e.interaction_id.as_str(), id.as_str());
        if !same {
            r.push(e);
        }
        assert(r@ == sub.filter(pred));
        i += 1;
    }
    assert(full.subrange(0, n as int) =~= full);
    r
}

/// Puts `entry` in place of the open review with the same interaction id.
pub open spec fn refresh_review(entry: OpenPlanReview) -> spec_fn(OpenPlanReview) -> OpenPlanReview {
    |old: OpenPlanReview|
        if old.interaction_id@ == entry.interaction_id@ {
            entry
        } else {
            old
        }
}

impl OpenPlanReview {
    fn copy(&self) -> (r: Self)
        ensures
            r == *self,
    {
        OpenPlanReview {
            interaction_id: self.interaction_id.clone(),
            plan_id: self.plan_id.clone(),
            turn_id: self.turn_id.clone(),
            phase1_turn_id: self.phase1_turn_id.clone(),
        }
    }
}

fn reviews_have(s: &Vec<OpenPlanReview>, id: &String) -> (r: bool)
    ensures
        r == has_review(s@, id@),
{
    let mut i: usize = 0;
    while i < s.len()
        invariant
            i <= s.len(),
            forall|k: int| 0 <= k < i ==> (#[trigger] s@[k]).interaction_id@ != id@,
        decreases s.len() - i,
    {
        if str_eq(s[i].interaction_id.as_str(), id.as_str()) {
            return true;
        }
        i += 1;
    }
    false
}

fn reviews_refresh(s: Vec<OpenPlanReview>, entry: OpenPlanReview) -> (r: Vec<OpenPlanReview>)
    ensures
        r@ == s@.map_values(refresh_review(entry)),
{
    let ghost f = refresh_review(entry);
    let ghost full = s@;
    let n = s.len();
    let mut r: Vec<OpenPlanReview> = Vec::new();
    let mut src = s;
    let mut i: usize = 0;
    while src.len() > 0
        invariant
            n == full.len(),
            i + src.len() == n,
            src@ == full.subrange(i as int, n as int),
            r@ == full.subrange(0, i as int).map_values(f),
            f == refresh_review(entry),
        decreases src.len(),
    {
        let e = src.remove(0);
        assert(e == full[i as int]);
        assert(src@ =~= full.subrange(i + 1, n as int));
        if str_eq(e.interaction_id.as_str(), entry.interaction_id.as_str()) {
            r.push(entry.copy());
        } else {
            r.push(e);
        }
        i += 1;
        assert(r@ =~= full.subrange(0, i as int).map_values(f));
    }
    assert(full.subrange(0, n as int) =~= full);
    r
}

/// The oldest Plan review gate that was requested and never resolved:
/// `(interaction_id, plan_id, turn_id, phase1_turn_id)` of its latest
/// request. Turn ids may be empty on markers that predate gate-turn
/// recovery.
pub fn open_plan_review_from_workflow(events: &[CodeWorkflowEventKind]) -> (r: Option<
    (String, String, String, String),
>)
    ensures
        r == open_plan_review(events@),
{
    let mut open: Vec<OpenPlanReview> = Vec::new();
    let mut i: usize = 0;
    assert(events@.subrange(0, 0) =~= Seq::<CodeWorkflowEventKind>::empty());
    while i < events.len()
        invariant
            i <= events@.len(),
            open@ == plan_review_state(events@.subrange(0, i as int)),
        decreases events.len() - i,
    {
        let ghost pre = events@.subrange(0, i as int);
        assert(events@.subrange(0, i + 1).drop_last() =~= pre);
        assert(events@.subrange(0, i + 1).last() == events@[i as int]);
        match &events[i] {
            CodeWorkflowEventKind::PlanReviewRequested {
                interaction_id,
                plan_id,
                turn_id,
                phase1_turn_id,
            } => {
                let entry = OpenPlanReview {
                    interaction_id: interaction_id.clone(),
                    plan_id: plan_id.clone(),
                    turn_id: turn_id.clone(),
                    phase1_turn_id: phase1_turn_id.clone(),
                };
                if reviews_have(&open, interaction_id) {
                    open = reviews_refresh(open, entry);
                } else {
                    open.push(entry);
                }
            },
            CodeWorkflowEventKind::InteractionResolved { interaction_id, .. } => {
                open = reviews_without(open, interaction_id);
            },
            CodeWorkflowEventKind::CommandTerminalSuccessWithInteractionResolved {
                interaction_id,
                ..
            } => {
                open = reviews_without(open, interaction_id);
            },
            _ => {},
        }
        i += 1;
    }
    assert(events@.subrange(0, events@.len() as int) =~= events@);
    if open.len() > 0 {
        let first = open.remove(0);
        Some((first.interaction_id, first.plan_id, first.turn_id, first.phase1_turn_id))
    } else {
        None
    }
}


// ---------------------------------------------------------------------------
// IntentSpec review gate
// ---------------------------------------------------------------------------
/// The log as the review scan sees it when it looks for IntentSpec reviews:
/// an IntentSpec request plays the part of a review request, and Plan review
/// requests are ignored.
pub open spec fn intent_view(e: CodeWorkflowEventKind) -> CodeWorkflowEventKind {
    match e {
        CodeWorkflowEventKind::IntentReviewRequested {
            interaction_id,
            intent_id,
            turn_id,
            phase0_turn_id,
        } => CodeWorkflowEventKind::PlanReviewRequested {
            interaction_id,
            plan_id: intent_id,
            turn_id,
            phase1_turn_id: phase0_turn_id,
        },
        CodeWorkflowEventKind::PlanReviewRequested { interaction_id, .. } => {
            CodeWorkflowEventKind::CommandAccepted { command_id: interaction_id }
        },
        other => other,
    }
}

pub open spec fn intent_events(events: Seq<CodeWorkflowEventKind>) -> Seq<CodeWorkflowEventKind> {
    events.map_values(|e: CodeWorkflowEventKind| intent_view(e))
}

/// The oldest IntentSpec review gate still open after `events`.
pub open spec fn open_intent_review(events: Seq<CodeWorkflowEventKind>) -> Option<
    (String, String, String, String),
> {
    open_plan_review(intent_events(events))
}

/// The oldest IntentSpec review gate that was requested and never resolved:
/// `(interaction_id, intent_id, turn_id, phase0_turn_id)` of its latest
/// request.
pub fn open_intent_review_from_workflow(events: &[CodeWorkflowEventKind]) -> (r: Option<
    (String, String, String, String),
>)
    ensures
        r == open_intent_review(events@),
{
    let ghost mapped = intent_events(events@);
    let mut open: Vec<OpenPlanReview> = Vec::new();
    let mut i: usize = 0;
    assert(mapped.subrange(0, 0) =~= Seq::<CodeWorkflowEventKind>::empty());
    while i < events.len()
        invariant
            i <= events@.len(),
            mapped == intent_events(events@),
            open@ == plan_review_state(mapped.subrange(0, i as int)),
        decreases events.len() - i,
    {
        let ghost pre = mapped.subrange(0, i as int);
        assert(mapped.subrange(0, i + 1).drop_last() =~= pre);
        assert(mapped.subrange(0, i + 1).last() == intent_view(events@[i as int]));
        match &events[i] {
            CodeWorkflowEventKind::IntentReviewRequested {
                interaction_id,
                intent_id,
                turn_id,
                phase0_turn_id,
            } => {
                let entry = OpenPlanReview {
                    interaction_id: interaction_id.clone(),
                    plan_id: intent_id.clone(),
                    turn_id: turn_id.clone(),
                    phase1_turn_id: phase0_turn_id.clone(),
                };
                if reviews_have(&open, interaction_id) {
                    open = reviews_refresh(open, entry);
                } else {
                    open.push(entry);
                }
            },
            CodeWorkflowEventKind::InteractionResolved { interaction_id, .. } => {
                open = reviews_without(open, interaction_id);
            },
            CodeWorkflowEventKind::CommandTerminalSuccessWithInteractionResolved {
                interaction_id,
                ..
            } => {
                open = reviews_without(open, interaction_id);
            },
            _ => {},
        }
        i += 1;
    }
    assert(mapped.subrange(0, events@.len() as int) =~= mapped);
    if open.len() > 0 {
        let first = open.remove(0);
        Some((first.interaction_id, first.plan_id, first.turn_id, first.phase1_turn_id))
    } else {
        None
    }
}

/// The drafting turn of `gate`, when there is one and it is not empty.
pub open spec fn gate_turn(gate: Option<(String, String, String, String)>) -> Option<String> {
    match gate {
        Some(t) => if t.3@.len() > 0 {
            Some(t.3)
        } else {
            None
        },
        None => None,
    }
}

/// The single mutating turn that startup recovery may complete because a
/// review gate still owns its result: the Phase 0 turn of an open IntentSpec
/// review, else the Phase 1 turn of an open Plan review. `None` when no gate
/// is open or the marker carries no turn id.
pub fn open_review_gate_phase_turn_id(events: &[CodeWorkflowEventKind]) -> (r: Option<String>)
    ensures
        r == (match gate_turn(open_intent_review(events@)) {
            Some(t) => Some(t),
            None => gate_turn(open_plan_review(events@)),
        }),
{
    if let Some((_, _, _, turn)) = open_intent_review_from_workflow(events) {
        if !turn.as_str().is_empty() {
            return Some(turn);
        }
    }
    match open_plan_review_from_workflow(events) {
        Some((_, _, _, turn)) => if !turn.as_str().is_empty() {
            Some(turn)
        } else {
            None
        },
        None => None,
    }
}

// ---------------------------------------------------------------------------
// Post-plan network-policy gate
// ---------------------------------------------------------------------------
/// A network-policy marker waiting for its plan to be approved.
pub struct PendingNetwork {
    pub interaction_id: String,
    pub plan_id: String,
    pub turn_id: String,
    pub default_allow: bool,
    /// The Plan review the marker belongs to, if one was found.
    pub review_id: Option<String>,
}

/// A network-policy gate that recovery must re-open.
pub struct OpenNetwork {
    pub interaction_id: String,
    pub plan_id: String,
    pub turn_id: String,
    pub default_allow: bool,
}

/// The plan a Plan review was requested for.
pub struct ReviewPlan {
    pub review_id: String,
    pub plan_id: String,
}

/// Everything the network-policy scan tracks between events.
#[verifier::ext_equal]
pub struct NetworkScan {
    /// Plan reviews still open, oldest first.
    pub reviews: Seq<String>,
    /// Review → plan bindings (never dropped).
    pub review_plans: Seq<ReviewPlan>,
    /// Plans whose review is still open.
    pub open_plans: Seq<String>,
    /// Review ids and plan ids that a durable Execute approved.
    pub executed: Seq<String>,
    /// Markers waiting for their plan's approval, in request order.
    pub pending: Seq<PendingNetwork>,
    /// Gates to restore, in the order they became restorable.
    pub open: Seq<OpenNetwork>,
}

pub open spec fn in_strs(s: Seq<String>, x: Seq<char>) -> bool {
    exists|k: int| 0 <= k < s.len() && (#[trigger] s[k])@ == x
}

pub open spec fn strs_insert(s: Seq<String>, x: String) -> Seq<String> {
    if in_strs(s, x@) {
        s
    } else {
        s.push(x)
    }
}

pub open spec fn not_str(x: Seq<char>) -> spec_fn(String) -> bool {
    |y: String| y@ != x
}

pub open spec fn strs_remove(s: Seq<String>, x: Seq<char>) -> Seq<String> {
    s.filter(not_str(x))
}

/// The plan bound to review `rid` (first binding).
pub open spec fn plan_of(rp: Seq<ReviewPlan>, rid: Seq<char>) -> Option<String>
    decreases rp.len(),
{
    if rp.len() == 0 {
        None
    } else {
        match plan_of(rp.drop_last(), rid) {
            Some(p) => Some(p),
            None => if rp.last().review_id@ == rid {
                Some(rp.last().plan_id)
            } else {
                None
            },
        }
    }
}

/// The first review bound to plan `pid`.
pub open spec fn review_of_plan(rp: Seq<ReviewPlan>, pid: Seq<char>) -> Option<String>
    decreases rp.len(),
{
    if rp.len() == 0 {
        None
    } else {
        match review_of_plan(rp.drop_last(), pid) {
            Some(r) => Some(r),
            None => if rp.last().plan_id@ == pid {
                Some(rp.last().review_id)
            } else {
                None
            },
        }
    }
}

pub open spec fn same_review(id: Seq<char>) -> spec_fn(ReviewPlan) -> bool {
    |r: ReviewPlan| r.review_id@ == id
}

pub open spec fn same_pending(id: Seq<char>) -> spec_fn(PendingNetwork) -> bool {
    |r: PendingNetwork| r.interaction_id@ == id
}

pub open spec fn same_open(id: Seq<char>) -> spec_fn(OpenNetwork) -> bool {
    |r: OpenNetwork| r.interaction_id@ == id
}

pub open spec fn rp_upsert(rp: Seq<ReviewPlan>, e: ReviewPlan) -> Seq<ReviewPlan> {
    upsert(rp, same_review(e.review_id@), e)
}

pub open spec fn pending_upsert(p: Seq<PendingNetwork>, e: PendingNetwork) -> Seq<PendingNetwork> {
    upsert(p, same_pending(e.interaction_id@), e)
}

pub open spec fn pending_upsert_all(p: Seq<PendingNetwork>, m: Seq<PendingNetwork>) -> Seq<
    PendingNetwork,
>
    decreases m.len(),
{
    if m.len() == 0 {
        p
    } else {
        pending_upsert(pending_upsert_all(p, m.drop_last()), m.last())
    }
}

pub open spec fn open_upsert(o: Seq<OpenNetwork>, e: OpenNetwork) -> Seq<OpenNetwork> {
    upsert(o, same_open(e.interaction_id@), e)
}

pub open spec fn as_open(p: PendingNetwork) -> OpenNetwork {
    OpenNetwork {
        interaction_id: p.interaction_id,
        plan_id: p.plan_id,
        turn_id: p.turn_id,
        default_allow: p.default_allow,
    }
}

/// Opens the gates of `m`, in order.
pub open spec fn open_all(o: Seq<OpenNetwork>, m: Seq<PendingNetwork>) -> Seq<OpenNetwork>
    decreases m.len(),
{
    if m.len() == 0 {
        o
    } else {
        open_upsert(open_all(o, m.drop_last()), as_open(m.last()))
    }
}

/// The review a marker belongs to, as text (`""` when none was found).
pub open spec fn review_text(r: Option<String>) -> Seq<char> {
    match r {
        Some(s) => s@,
        None => Seq::empty(),
    }
}

/// Moves the waiting markers that `p` selects into the restorable gates.
pub open spec fn promote(st: NetworkScan, p: spec_fn(PendingNetwork) -> bool) -> NetworkScan {
    NetworkScan {
        pending: st.pending.filter(not(p)),
        open: open_all(st.open, st.pending.filter(p)),
        ..st
    }
}

pub open spec fn for_plan(pid: Seq<char>) -> spec_fn(PendingNetwork) -> bool {
    |e: PendingNetwork| e.plan_id@ == pid
}

pub open spec fn for_review(rid: Seq<char>) -> spec_fn(PendingNetwork) -> bool {
    |e: PendingNetwork| review_text(e.review_id) == rid || (e.plan_id@.len() > 0 && e.plan_id@ == rid)
}

/// Releases the markers of plan `pid` (nothing for an empty plan id).
pub open spec fn promote_plan(st: NetworkScan, pid: Seq<char>) -> NetworkScan {
    if pid.len() == 0 {
        st
    } else {
        promote(st, for_plan(pid))
    }
}

/// Gates that a renewed Plan review for `pid` takes back: those of the same
/// plan, or all plan-less gates when the review has no plan id.
pub open spec fn demoted(pid: Seq<char>) -> spec_fn(OpenNetwork) -> bool {
    |o: OpenNetwork|
        (pid.len() > 0 && o.plan_id@ == pid) || (pid.len() == 0 && o.plan_id@.len() == 0)
}

pub open spec fn back_to_pending(rid: String) -> spec_fn(OpenNetwork) -> PendingNetwork {
    |o: OpenNetwork|
        PendingNetwork {
            interaction_id: o.interaction_id,
            plan_id: o.plan_id,
            turn_id: o.turn_id,
            default_allow: o.default_allow,
            review_id: Some(rid),
        }
}

pub open spec fn other_pending(id: Seq<char>) -> spec_fn(PendingNetwork) -> bool {
    |e: PendingNetwork| e.interaction_id@ != id
}

pub open spec fn other_open(id: Seq<char>) -> spec_fn(OpenNetwork) -> bool {
    |e: OpenNetwork| e.interaction_id@ != id
}

/// Markers bound to review `rid`.
pub open spec fn stale_for(rid: Seq<char>) -> spec_fn(PendingNetwork) -> bool {
    |e: PendingNetwork| review_text(e.review_id) == rid
}

/// Gates whose id is one of the stale markers in `p`.
pub open spec fn not_stale_gate(p: Seq<PendingNetwork>, rid: Seq<char>) -> spec_fn(OpenNetwork) -> bool {
    |o: OpenNetwork|
        !(exists|k: int|
            0 <= k < p.len() && stale_for(rid)(#[trigger] p[k]) && p[k].interaction_id@
                == o.interaction_id@)
}

/// A resolution that approves a Plan review.
pub open spec fn is_execute(resolution: Seq<char>) -> bool {
    let r = ascii_lower(trim(resolution));
    r == "execute"@ || r == "confirm"@
}

/// A human decision other than Execute that drops the review's markers.
pub open spec fn drops_markers(resolution: Seq<char>) -> bool {
    let r = ascii_lower(trim(resolution));
    r == "cancel"@ || r == "modify"@ || r == "revise"@ || r == "network-deny"@ || r
        == "network-allow"@ || r == "back"@
}

pub open spec fn network_on_review(st: NetworkScan, iid: String, pid: String) -> NetworkScan {
    let reviews = strs_insert(st.reviews, iid);
    let review_plans = if pid@.len() > 0 {
        rp_upsert(st.review_plans, ReviewPlan { review_id: iid, plan_id: pid })
    } else {
        st.review_plans
    };
    let open_plans = if pid@.len() > 0 {
        strs_insert(st.open_plans, pid)
    } else {
        st.open_plans
    };
    let executed0 = if pid@.len() > 0 {
        strs_remove(st.executed, pid@)
    } else {
        st.executed
    };
    let moved = st.open.filter(demoted(pid@));
    NetworkScan {
        reviews,
        review_plans,
        open_plans,
        executed: strs_remove(executed0, iid@),
        pending: pending_upsert_all(st.pending, moved.map_values(back_to_pending(iid))),
        open: st.open.filter(not(demoted(pid@))),
    }
}

/// The review a new marker belongs to: the first review of its plan, or,
/// for a plan-less marker, the latest review still open.
pub open spec fn marker_review(st: NetworkScan, pid: String) -> Option<String> {
    if pid@.len() > 0 {
        review_of_plan(st.review_plans, pid@)
    } else if st.reviews.len() > 0 {
        Some(st.reviews.last())
    } else {
        None
    }
}

pub open spec fn network_on_marker(
    st: NetworkScan,
    iid: String,
    pid: String,
    tid: String,
    allow: bool,
) -> NetworkScan {
    let assoc = marker_review(st, pid);
    let rid = review_text(assoc);
    let st1 = NetworkScan {
        pending: pending_upsert(
            st.pending,
            PendingNetwork {
                interaction_id: iid,
                plan_id: pid,
                turn_id: tid,
                default_allow: allow,
                review_id: assoc,
            },
        ),
        ..st
    };
    let approved = (pid@.len() > 0 && in_strs(st.executed, pid@)) || (rid.len() > 0 && in_strs(
        st.executed,
        rid,
    )) || in_strs(st.executed, iid@);
    let still_open = (pid@.len() > 0 && in_strs(st.open_plans, pid@)) || (rid.len() > 0
        && in_strs(st.reviews, rid)) || in_strs(st.reviews, iid@);
    if approved && !still_open {
        if pid@.len() > 0 {
            promote(st1, for_plan(pid@))
        } else if rid.len() > 0 {
            promote(st1, for_review(rid))
        } else {
            st1
        }
    } else {
        st1
    }
}

pub open spec fn network_on_resolved(st: NetworkScan, iid: String, resolution: String) -> NetworkScan {
    let bound = plan_of(st.review_plans, iid@);
    let st1 = NetworkScan {
        reviews: strs_remove(st.reviews, iid@),
        open_plans: match bound {
            Some(p) => strs_remove(st.open_plans, p@),
            None => st.open_plans,
        },
        open: st.open.filter(other_open(iid@)),
        pending: st.pending.filter(other_pending(iid@)),
        ..st
    };
    if is_execute(resolution@) {
        let st2 = NetworkScan { executed: strs_insert(st1.executed, iid), ..st1 };
        let st3 = match bound {
            Some(p) => promote_plan(NetworkScan { executed: strs_insert(st2.executed, p), ..st2 }, p@),
            None => st2,
        };
        promote(st3, for_review(iid@))
    } else {
        let ex1 = strs_remove(st1.executed, iid@);
        let ex2 = match bound {
            Some(p) => strs_remove(ex1, p@),
            None => ex1,
        };
        let st2 = NetworkScan { executed: ex2, ..st1 };
        if drops_markers(resolution@) {
            NetworkScan {
                pending: st2.pending.filter(not(stale_for(iid@))),
                open: st2.open.filter(not_stale_gate(st2.pending, iid@)),
                ..st2
            }
        } else {
            st2
        }
    }
}

pub open spec fn network_step(st: NetworkScan, e: CodeWorkflowEventKind) -> NetworkScan {
    match e {
        CodeWorkflowEventKind::PlanReviewRequested { interaction_id, plan_id, .. } => {
            network_on_review(st, interaction_id, plan_id)
        },
        CodeWorkflowEventKind::NetworkPolicyRequested {
            interaction_id,
            plan_id,
            turn_id,
            default_allow,
        } => network_on_marker(st, interaction_id, plan_id, turn_id, default_allow),
        _ => match resolved_by(e) {
            Some((id, resolution)) => network_on_resolved(st, id, resolution),
            None => st,
        },
    }
}

pub open spec fn empty_scan() -> NetworkScan {
    NetworkScan {
        reviews: Seq::empty(),
        review_plans: Seq::empty(),
        open_plans: Seq::empty(),
        executed: Seq::empty(),
        pending: Seq::empty(),
        open: Seq::empty(),
    }
}

/// The network-policy scan state after `events`.
pub open spec fn network_state(events: Seq<CodeWorkflowEventKind>) -> NetworkScan
    decreases events.len(),
{
    if events.len() == 0 {
        empty_scan()
    } else {
        network_step(network_state(events.drop_last()), events.last())
    }
}

/// The oldest network-policy gate recovery must restore.
pub open spec fn open_network_policy(events: Seq<CodeWorkflowEventKind>) -> Option<
    (String, String, String, bool),
> {
    let o = network_state(events).open;
    if o.len() > 0 {
        Some((o[0].interaction_id, o[0].plan_id, o[0].turn_id, o[0].default_allow))
    } else {
        None
    }
}


// ---------------------------------------------------------------------------
// Executable network-policy scan
// ---------------------------------------------------------------------------
impl ReviewPlan {
    fn copy(&self) -> (r: Self)
        ensures
            r == *self,
    {
        ReviewPlan { review_id: self.review_id.clone(), plan_id: self.plan_id.clone() }
    }
}

impl PendingNetwork {
    fn copy(&self) -> (r: Self)
        ensures
            r == *self,
    {
        PendingNetwork {
            interaction_id: self.interaction_id.clone(),
            plan_id: self.plan_id.clone(),
            turn_id: self.turn_id.clone(),
            default_allow: self.default_allow,
            review_id: match &self.review_id {
                Some(s) => Some(s.clone()),
                None => None,
            },
        }
    }
}

impl OpenNetwork {
    fn copy(&self) -> (r: Self)
        ensures
            r == *self,
    {
        OpenNetwork {
            interaction_id: self.interaction_id.clone(),
            plan_id: self.plan_id.clone(),
            turn_id: self.turn_id.clone(),
            default_allow: self.default_allow,
        }
    }
}

/// The scan state held in vectors.
struct ScanState {
    reviews: Vec<String>,
    review_plans: Vec<ReviewPlan>,
    open_plans: Vec<String>,
    executed: Vec<String>,
    pending: Vec<PendingNetwork>,
    open: Vec<OpenNetwork>,
}

impl ScanState {
    spec fn scan(&self) -> NetworkScan {
        NetworkScan {
            reviews: self.reviews@,
            review_plans: self.review_plans@,
            open_plans: self.open_plans@,
            executed: self.executed@,
            pending: self.pending@,
            open: self.open@,
        }
    }
}

fn strs_has(v: &Vec<String>, x: &String) -> (r: bool)
    ensures
        r == in_strs(v@, x@),
{
    let mut i: usize = 0;
    while i < v.len()
        invariant
            i <= v.len(),
            forall|k: int| 0 <= k < i ==> (#[trigger] v@[k])@ != x@,
        decreases v.len() - i,
    {
        if str_eq(v[i].as_str(), x.as_str()) {
            return true;
        }
        i += 1;
    }
    false
}

fn strs_add(v: &mut Vec<String>, x: String)
    ensures
        final(v)@ == strs_insert(old(v)@, x),
{
    if !strs_has(v, &x) {
        v.push(x);
    }
}

fn strs_drop(v: Vec<String>, x: &String) -> (r: Vec<String>)
    ensures
        r@ == strs_remove(v@, x@),
{
    filter_vec(
        v,
        (|y: &String| -> (b: bool)
            ensures
                b == not_str(x@)(*y),
            { !str_eq(y.as_str(), x.as_str()) }),
        Ghost(not_str(x@)),
    )
}

fn find_plan(rp: &Vec<ReviewPlan>, rid: &String) -> (r: Option<String>)
    ensures
        r == plan_of(rp@, rid@),
{
    let mut r: Option<String> = None;
    let mut i: usize = 0;
    assert(rp@.subrange(0, 0) =~= Seq::<ReviewPlan>::empty());
    while i < rp.len()
        invariant
            i <= rp.len(),
            r == plan_of(rp@.subrange(0, i as int), rid@),
        decreases rp.len() - i,
    {
        assert(rp@.subrange(0, i + 1).drop_last() =~= rp@.subrange(0, i as int));
        if r.is_none() && str_eq(rp[i].review_id.as_str(), rid.as_str()) {
            r = Some(rp[i].plan_id.clone());
        }
        i += 1;
    }
    assert(rp@.subrange(0, rp.len() as int) =~= rp@);
    r
}

fn find_review(rp: &Vec<ReviewPlan>, pid: &String) -> (r: Option<String>)
    ensures
        r == review_of_plan(rp@, pid@),
{
    let mut r: Option<String> = None;
    let mut i: usize = 0;
    assert(rp@.subrange(0, 0) =~= Seq::<ReviewPlan>::empty());
    while i < rp.len()
        invariant
            i <= rp.len(),
            r == review_of_plan(rp@.subrange(0, i as int), pid@),
        decreases rp.len() - i,
    {
        assert(rp@.subrange(0, i + 1).drop_last() =~= rp@.subrange(0, i as int));
        if r.is_none() && str_eq(rp[i].plan_id.as_str(), pid.as_str()) {
            r = Some(rp[i].review_id.clone());
        }
        i += 1;
    }
    assert(rp@.subrange(0, rp.len() as int) =~= rp@);
    r
}

fn rp_put(rp: Vec<ReviewPlan>, e: ReviewPlan) -> (r: Vec<ReviewPlan>)
    ensures
        r@ == rp_upsert(rp@, e),
{
    let id = e.review_id.clone();
    upsert_vec(
        rp,
        e,
        (|x: &ReviewPlan| -> (b: bool)
            ensures
                b == same_review(id@)(*x),
            { str_eq(x.review_id.as_str(), id.as_str()) }),
        Ghost(same_review(id@)),
        (|x: &ReviewPlan| -> (y: ReviewPlan)
            ensures
                y == *x,
            { x.copy() }),
    )
}

fn pending_put(p: Vec<PendingNetwork>, e: PendingNetwork) -> (r: Vec<PendingNetwork>)
    ensures
        r@ == pending_upsert(p@, e),
{
    let id = e.interaction_id.clone();
    upsert_vec(
        p,
        e,
        (|x: &PendingNetwork| -> (b: bool)
            ensures
                b == same_pending(id@)(*x),
            { str_eq(x.interaction_id.as_str(), id.as_str()) }),
        Ghost(same_pending(id@)),
        (|x: &PendingNetwork| -> (y: PendingNetwork)
            ensures
                y == *x,
            { x.copy() }),
    )
}

fn open_put(o: Vec<OpenNetwork>, e: OpenNetwork) -> (r: Vec<OpenNetwork>)
    ensures
        r@ == open_upsert(o@, e),
{
    let id = e.interaction_id.clone();
    upsert_vec(
        o,
        e,
        (|x: &OpenNetwork| -> (b: bool)
            ensures
                b == same_open(id@)(*x),
            { str_eq(x.interaction_id.as_str(), id.as_str()) }),
        Ghost(same_open(id@)),
        (|x: &OpenNetwork| -> (y: OpenNetwork)
            ensures
                y == *x,
            { x.copy() }),
    )
}

/// Moves the markers that `test` selects into the restorable gates.
fn promote_exec(
    st: ScanState,
    test: impl Fn(&PendingNetwork) -> bool,
    Ghost(p): Ghost<spec_fn(PendingNetwork) -> bool>,
) -> (r: ScanState)
    requires
        forall|x: PendingNetwork| #[trigger] call_requires(test, (&x,)),
        forall|x: PendingNetwork, b: bool| call_ensures(test, (&x,), b) ==> b == p(x),
    ensures
        r.scan() == promote(st.scan(), p),
{
    let ScanState { reviews, review_plans, open_plans, executed, pending, open } = st;
    let (kept, moved) = partition_vec(pending, test, Ghost(p));
    let ghost o0 = open@;
    let mut o = open;
    let mut i: usize = 0;
    assert(moved@.subrange(0, 0) =~= Seq::<PendingNetwork>::empty());
    while i < moved.len()
        invariant
            i <= moved.len(),
            o@ == open_all(o0, moved@.subrange(0, i as int)),
        decreases moved.len() - i,
    {
        assert(moved@.subrange(0, i + 1).drop_last() =~= moved@.subrange(0, i as int));
        let m = &moved[i];
        let g = OpenNetwork {
            interaction_id: m.interaction_id.clone(),
            plan_id: m.plan_id.clone(),
            turn_id: m.turn_id.clone(),
            default_allow: m.default_allow,
        };
        o = open_put(o, g);
        i += 1;
    }
    assert(moved@.subrange(0, moved.len() as int) =~= moved@);
    ScanState { reviews, review_plans, open_plans, executed, pending: kept, open: o }
}

fn promote_plan_exec(st: ScanState, pid: &String) -> (r: ScanState)
    ensures
        r.scan() == promote_plan(st.scan(), pid@),
{
    if pid.as_str().is_empty() {
        st
    } else {
        promote_exec(
            st,
            (|e: &PendingNetwork| -> (b: bool)
                ensures
                    b == for_plan(pid@)(*e),
                { str_eq(e.plan_id.as_str(), pid.as_str()) }),
            Ghost(for_plan(pid@)),
        )
    }
}

/// Whether a marker's review is `rid`.
fn bound_to(review: &Option<String>, rid: &String) -> (r: bool)
    ensures
        r == (review_text(*review) == rid@),
{
    match review {
        Some(s) => str_eq(s.as_str(), rid.as_str()),
        None => {
            assert(rid@.len() == 0 ==> rid@ =~= Seq::<char>::empty());
            rid.as_str().is_empty()
        },
    }
}

fn promote_review_exec(st: ScanState, rid: &String) -> (r: ScanState)
    ensures
        r.scan() == promote(st.scan(), for_review(rid@)),
{
    promote_exec(
        st,
        (|e: &PendingNetwork| -> (b: bool)
            ensures
                b == for_review(rid@)(*e),
            {
                let bound = bound_to(&e.review_id, rid);
                bound || (!e.plan_id.as_str().is_empty() && str_eq(
                    e.plan_id.as_str(),
                    rid.as_str(),
                ))
            }),
        Ghost(for_review(rid@)),
    )
}

fn scan_on_review(st: ScanState, iid: &String, pid: &String) -> (r: ScanState)
    ensures
        r.scan() == network_on_review(st.scan(), *iid, *pid),
{
    let ScanState { mut reviews, mut review_plans, mut open_plans, mut executed, pending, open } =
        st;
    strs_add(&mut reviews, iid.clone());
    if !pid.as_str().is_empty() {
        review_plans = rp_put(review_plans, ReviewPlan { review_id: iid.clone(), plan_id: pid.clone() });
        strs_add(&mut open_plans, pid.clone());
        executed = strs_drop(executed, pid);
    }
    executed = strs_drop(executed, iid);
    let (kept, moved) = partition_vec(
        open,
        (|o: &OpenNetwork| -> (b: bool)
            ensures
                b == demoted(pid@)(*o),
            {
                let empty = pid.as_str().is_empty();
                (!empty && str_eq(o.plan_id.as_str(), pid.as_str())) || (empty
                    && o.plan_id.as_str().is_empty())
            }),
        Ghost(demoted(pid@)),
    );
    let ghost f = back_to_pending(*iid);
    let ghost p0 = pending@;
    let mut p = pending;
    let mut i: usize = 0;
    assert(moved@.subrange(0, 0).map_values(f) =~= Seq::<PendingNetwork>::empty());
    while i < moved.len()
        invariant
            i <= moved.len(),
            f == back_to_pending(*iid),
            p@ == pending_upsert_all(p0, moved@.subrange(0, i as int).map_values(f)),
        decreases moved.len() - i,
    {
        let ghost next = moved@.subrange(0, i + 1).map_values(f);
        assert(next.drop_last() =~= moved@.subrange(0, i as int).map_values(f));
        let m = &moved[i];
        let e = PendingNetwork {
            interaction_id: m.interaction_id.clone(),
            plan_id: m.plan_id.clone(),
            turn_id: m.turn_id.clone(),
            default_allow: m.default_allow,
            review_id: Some(iid.clone()),
        };
        assert(e == next.last());
        p = pending_put(p, e);
        i += 1;
    }
    assert(moved@.subrange(0, moved.len() as int) =~= moved@);
    ScanState { reviews, review_plans, open_plans, executed, pending: p, open: kept }
}

fn scan_on_marker(st: ScanState, iid: &String, pid: &String, tid: &String, allow: bool) -> (r:
    ScanState)
    ensures
        r.scan() == network_on_marker(st.scan(), *iid, *pid, *tid, allow),
{
    let assoc: Option<String> = if !pid.as_str().is_empty() {
        find_review(&st.review_plans, pid)
    } else if st.reviews.len() > 0 {
        Some(st.reviews[st.reviews.len() - 1].clone())
    } else {
        None
    };
    let rid: String = match &assoc {
        Some(s) => s.clone(),
        None => String::new(),
    };
    assert(rid@ == review_text(assoc));
    let has_plan = !pid.as_str().is_empty();
    let has_review = !rid.as_str().is_empty();
    let approved = (has_plan && strs_has(&st.executed, pid)) || (has_review && strs_has(
        &st.executed,
        &rid,
    )) || strs_has(&st.executed, iid);
    let still_open = (has_plan && strs_has(&st.open_plans, pid)) || (has_review && strs_has(
        &st.reviews,
        &rid,
    )) || strs_has(&st.reviews, iid);
    let ScanState { reviews, review_plans, open_plans, executed, pending, open } = st;
    let marker = PendingNetwork {
        interaction_id: iid.clone(),
        plan_id: pid.clone(),
        turn_id: tid.clone(),
        default_allow: allow,
        review_id: assoc,
    };
    let pending = pending_put(pending, marker);
    let st1 = ScanState { reviews, review_plans, open_plans, executed, pending, open };
    if approved && !still_open {
        if has_plan {
            promote_plan_exec(st1, pid)
        } else if has_review {
            promote_review_exec(st1, &rid)
        } else {
            st1
        }
    } else {
        st1
    }
}

fn is_execute_exec(resolution: &String) -> (r: bool)
    ensures
        r == is_execute(resolution@),
{
    let l = normalize(resolution.as_str());
    word_is(&l, "execute") || word_is(&l, "confirm")
}

fn drops_markers_exec(resolution: &String) -> (r: bool)
    ensures
        r == drops_markers(resolution@),
{
    let l = normalize(resolution.as_str());
    word_is(&l, "cancel") || word_is(&l, "modify") || word_is(&l, "revise") || word_is(
        &l,
        "network-deny",
    ) || word_is(&l, "network-allow") || word_is(&l, "back")
}

fn stale_gate(p: &Vec<PendingNetwork>, rid: &String, id: &String) -> (r: bool)
    ensures
        r == (exists|k: int|
            0 <= k < p@.len() && stale_for(rid@)(#[trigger] p@[k]) && p@[k].interaction_id@
                == id@),
{
    let mut i: usize = 0;
    while i < p.len()
        invariant
            i <= p.len(),
            forall|k: int|
                0 <= k < i ==> !(stale_for(rid@)(#[trigger] p@[k]) && p@[k].interaction_id@
                    == id@),
        decreases p.len() - i,
    {
        let e = &p[i];
        let bound = bound_to(&e.review_id, rid);
        if bound && str_eq(e.interaction_id.as_str(), id.as_str()) {
            assert(stale_for(rid@)(p@[i as int]));
            return true;
        }
        i += 1;
    }
    false
}

fn scan_on_resolved(st: ScanState, iid: &String, resolution: &String) -> (r: ScanState)
    ensures
        r.scan() == network_on_resolved(st.scan(), *iid, *resolution),
{
    let bound = find_plan(&st.review_plans, iid);
    let ScanState { reviews, review_plans, open_plans, executed, pending, open } = st;
    let reviews = strs_drop(reviews, iid);
    let open_plans = match &bound {
        Some(p) => strs_drop(open_plans, p),
        None => open_plans,
    };
    let open = filter_vec(
        open,
        (|o: &OpenNetwork| -> (b: bool)
            ensures
                b == other_open(iid@)(*o),
            { !str_eq(o.interaction_id.as_str(), iid.as_str()) }),
        Ghost(other_open(iid@)),
    );
    let pending = filter_vec(
        pending,
        (|e: &PendingNetwork| -> (b: bool)
            ensures
                b == other_pending(iid@)(*e),
            { !str_eq(e.interaction_id.as_str(), iid.as_str()) }),
        Ghost(other_pending(iid@)),
    );
    if is_execute_exec(resolution) {
        let mut executed = executed;
        strs_add(&mut executed, iid.clone());
        let st2 = ScanState { reviews, review_plans, open_plans, executed, pending, open };
        let st3 = match &bound {
            Some(p) => {
                let ScanState { reviews, review_plans, open_plans, mut executed, pending, open } =
                    st2;
                strs_add(&mut executed, p.clone());
                promote_plan_exec(
                    ScanState { reviews, review_plans, open_plans, executed, pending, open },
                    p,
                )
            },
            None => st2,
        };
        promote_review_exec(st3, iid)
    } else {
        let executed = strs_drop(executed, iid);
        let executed = match &bound {
            Some(p) => strs_drop(executed, p),
            None => executed,
        };
        if drops_markers_exec(resolution) {
            let open = filter_vec(
                open,
                (|o: &OpenNetwork| -> (b: bool)
                    ensures
                        b == not_stale_gate(pending@, iid@)(*o),
                    { !stale_gate(&pending, iid, &o.interaction_id) }),
                Ghost(not_stale_gate(pending@, iid@)),
            );
            let pending = filter_vec(
                pending,
                (|e: &PendingNetwork| -> (b: bool)
                    ensures
                        b == not(stale_for(iid@))(*e),
                    {
                        let bound = bound_to(&e.review_id, iid);
                        !bound
                    }),
                Ghost(not(stale_for(iid@))),
            );
            ScanState { reviews, review_plans, open_plans, executed, pending, open }
        } else {
            ScanState { reviews, review_plans, open_plans, executed, pending, open }
        }
    }
}

/// The oldest post-plan network-policy gate that recovery must restore:
/// `(interaction_id, plan_id, turn_id, default_allow)`. A marker becomes
/// restorable only once a durable Execute of its Plan review exists and that
/// review is not open again; a renewed review takes its gates back, and a
/// Cancel/Modify/Back of the review drops them. So a gate restored here is
/// still open: its request names the same plan, turn and default, and no
/// later event resolves it; some Plan review in the log was approved with
/// Execute (or Confirm); and a log without any network-policy request
/// restores none.
pub fn open_network_policy_from_workflow(events: &[CodeWorkflowEventKind]) -> (r: Option<
    (String, String, String, bool),
>)
    ensures
        r == open_network_policy(events@),
        r matches Some((id, plan, turn, allow)) ==> network_awaits(events@, id, plan, turn, allow),
        r is Some ==> has_execute(events@),
        !has_network_request(events@) ==> r is None,
{
    proof {
        law_network_gate_awaits_human(events@);
    }
    scan_network_policy(events)
}

fn scan_network_policy(events: &[CodeWorkflowEventKind]) -> (r: Option<
    (String, String, String, bool),
>)
    ensures
        r == open_network_policy(events@),
{
    let mut st = ScanState {
        reviews: Vec::new(),
        review_plans: Vec::new(),
        open_plans: Vec::new(),
        executed: Vec::new(),
        pending: Vec::new(),
        open: Vec::new(),
    };
    let mut i: usize = 0;
    assert(events@.subrange(0, 0) =~= Seq::<CodeWorkflowEventKind>::empty());
    assert(st.scan() == empty_scan());
    while i < events.len()
        invariant
            i <= events@.len(),
            st.scan() == network_state(events@.subrange(0, i as int)),
        decreases events.len() - i,
    {
        let ghost pre = events@.subrange(0, i as int);
        assert(events@.subrange(0, i + 1).drop_last() =~= pre);
        assert(events@.subrange(0, i + 1).last() == events@[i as int]);
        match &events[i] {
            CodeWorkflowEventKind::PlanReviewRequested { interaction_id, plan_id, .. } => {
                st = scan_on_review(st, interaction_id, plan_id);
            },
            CodeWorkflowEventKind::NetworkPolicyRequested {
                interaction_id,
                plan_id,
                turn_id,
                default_allow,
            } => {
                st = scan_on_marker(st, interaction_id, plan_id, turn_id, *default_allow);
            },
            CodeWorkflowEventKind::InteractionResolved { interaction_id, resolution } => {
                st = scan_on_resolved(st, interaction_id, resolution);
            },
            CodeWorkflowEventKind::CommandTerminalSuccessWithInteractionResolved {
                interaction_id,
                resolution,
                ..
            } => {
                st = scan_on_resolved(st, interaction_id, resolution);
            },
            _ => {},
        }
        i += 1;
    }
    assert(events@.subrange(0, events@.len() as int) =~= events@);
    if st.open.len() > 0 {
        let o = st.open.remove(0);
        Some((o.interaction_id, o.plan_id, o.turn_id, o.default_allow))
    } else {
        None
    }
}


// ---------------------------------------------------------------------------
// What the recovery scans promise
// ---------------------------------------------------------------------------
/// `e` is a Plan review request for interaction `id`.
pub open spec fn is_plan_request(e: CodeWorkflowEventKind, id: Seq<char>) -> bool {
    match e {
        CodeWorkflowEventKind::PlanReviewRequested { interaction_id, .. } => interaction_id@ == id,
        _ => false,
    }
}

/// `e` resolves interaction `id`.
pub open spec fn resolves(e: CodeWorkflowEventKind, id: Seq<char>) -> bool {
    match resolved_by(e) {
        Some((i, _)) => i@ == id,
        None => false,
    }
}

/// Plan review `id` was requested and no later event resolved it.
pub open spec fn review_awaits(events: Seq<CodeWorkflowEventKind>, id: Seq<char>) -> bool {
    exists|k: int|
        0 <= k < events.len() && is_plan_request(#[trigger] events[k], id) && forall|j: int|
            k < j < events.len() ==> !resolves(#[trigger] events[j], id)
}

proof fn lemma_has_review_push(s: Seq<OpenPlanReview>, e: OpenPlanReview, id: Seq<char>)
    ensures
        has_review(s.push(e), id) == (has_review(s, id) || e.interaction_id@ == id),
{
    let t = s.push(e);
    if has_review(s, id) {
        let k = choose|k: int| 0 <= k < s.len() && (#[trigger] s[k]).interaction_id@ == id;
        assert(t[k] == s[k]);
    }
    if e.interaction_id@ == id {
        assert(t[s.len() as int] == e);
    }
    if has_review(t, id) {
        let k = choose|k: int| 0 <= k < t.len() && (#[trigger] t[k]).interaction_id@ == id;
        if k < s.len() {
            assert(t[k] == s[k]);
        }
    }
}

proof fn lemma_has_review_refresh(s: Seq<OpenPlanReview>, entry: OpenPlanReview, id: Seq<char>)
    ensures
        has_review(s.map_values(refresh_review(entry)), id) == has_review(s, id),
{
    let t = s.map_values(refresh_review(entry));
    if has_review(s, id) {
        let k = choose|k: int| 0 <= k < s.len() && (#[trigger] s[k]).interaction_id@ == id;
        assert(t[k].interaction_id@ == id);
    }
    if has_review(t, id) {
        let k = choose|k: int| 0 <= k < t.len() && (#[trigger] t[k]).interaction_id@ == id;
        assert(s[k].interaction_id@ == id);
    }
}

proof fn lemma_has_review_without(s: Seq<OpenPlanReview>, rid: Seq<char>, id: Seq<char>)
    ensures
        has_review(s.filter(other_review(rid)), id) == (has_review(s, id) && id != rid),
    decreases s.len(),
{
    reveal(Seq::filter);
    let f = s.filter(other_review(rid));
    if s.len() > 0 {
        let pre = s.drop_last();
        lemma_has_review_without(pre, rid, id);
        lemma_has_review_push(pre, s.last(), id);
        assert(s =~= pre.push(s.last()));
        if other_review(rid)(s.last()) {
            lemma_has_review_push(pre.filter(other_review(rid)), s.last(), id);
        }
    } else {
        assert(f.len() == 0);
    }
}

proof fn lemma_review_state(events: Seq<CodeWorkflowEventKind>, id: Seq<char>)
    ensures
        has_review(plan_review_state(events), id) == review_awaits(events, id),
    decreases events.len(),
{
    if events.len() == 0 {
        return;
    }
    let pre = events.drop_last();
    let e = events.last();
    let n = events.len() - 1;
    lemma_review_state(pre, id);
    let s0 = plan_review_state(pre);
    assert(forall|k: int| 0 <= k < n ==> events[k] == pre[k]);
    // The state side.
    match e {
        CodeWorkflowEventKind::PlanReviewRequested {
            interaction_id,
            plan_id,
            turn_id,
            phase1_turn_id,
        } => {
            let entry = OpenPlanReview { interaction_id, plan_id, turn_id, phase1_turn_id };
            if has_review(s0, interaction_id@) {
                lemma_has_review_refresh(s0, entry, id);
                assert(s0.map_values(refresh_review(entry)) =~= s0.map_values(
                    |old: OpenPlanReview|
                        if old.interaction_id@ == interaction_id@ {
                            entry
                        } else {
                            old
                        },
                ));
            } else {
                lemma_has_review_push(s0, entry, id);
            }
        },
        _ => match resolved_by(e) {
            Some((rid, _)) => {
                lemma_has_review_without(s0, rid@, id);
            },
            None => {},
        },
    }
    // The log side.
    if is_plan_request(e, id) {
        assert(is_plan_request(events[n], id));
    } else if resolves(e, id) {
        if review_awaits(events, id) {
            let k = choose|k: int|
                0 <= k < events.len() && is_plan_request(#[trigger] events[k], id) && forall|
                    j: int,
                | k < j < events.len() ==> !resolves(#[trigger] events[j], id);
            assert(k != n);
            assert(!resolves(events[n], id));
        }
    } else {
        if review_awaits(pre, id) {
            let k = choose|k: int|
                0 <= k < pre.len() && is_plan_request(#[trigger] pre[k], id) && forall|j: int|
                    k < j < pre.len() ==> !resolves(#[trigger] pre[j], id);
            assert(is_plan_request(events[k], id));
            assert forall|j: int| k < j < events.len() implies !resolves(#[trigger] events[j], id) by {
                if j < n {
                    assert(events[j] == pre[j]);
                }
            }
        }
        if review_awaits(events, id) {
            let k = choose|k: int|
                0 <= k < events.len() && is_plan_request(#[trigger] events[k], id) && forall|
                    j: int,
                | k < j < events.len() ==> !resolves(#[trigger] events[j], id);
            assert(k != n);
            assert(is_plan_request(pre[k], id));
            assert forall|j: int| k < j < pre.len() implies !resolves(#[trigger] pre[j], id) by {
                assert(events[j] == pre[j]);
            }
        }
    }
}

/// Plan review recovery restores exactly the gates that wait for a human:
/// the review it returns was requested and never resolved afterwards, and it
/// returns nothing only when every requested review has been resolved.
pub proof fn law_plan_review_recovery(events: Seq<CodeWorkflowEventKind>)
    ensures
        open_plan_review(events) matches Some(t) ==> review_awaits(events, t.0@),
        open_plan_review(events) is None ==> forall|id: Seq<char>| !review_awaits(events, id),
{
    let s = plan_review_state(events);
    if s.len() > 0 {
        lemma_review_state(events, s[0].interaction_id@);
        assert(has_review(s, s[0].interaction_id@));
    } else {
        assert forall|id: Seq<char>| !review_awaits(events, id) by {
            lemma_review_state(events, id);
        }
    }
}


/// `e` approves a Plan review (an Execute or Confirm resolution).
pub open spec fn approves(e: CodeWorkflowEventKind) -> bool {
    match resolved_by(e) {
        Some((_, r)) => is_execute(r@),
        None => false,
    }
}

/// Some resolution in the log approved a Plan review.
pub open spec fn has_execute(events: Seq<CodeWorkflowEventKind>) -> bool {
    exists|k: int| 0 <= k < events.len() && approves(#[trigger] events[k])
}

proof fn lemma_network_needs_execute(events: Seq<CodeWorkflowEventKind>)
    ensures
        network_state(events).executed.len() > 0 || network_state(events).open.len() > 0
            ==> has_execute(events),
    decreases events.len(),
{
    broadcast use vstd::seq_lib::group_filter_ensures;
    if events.len() == 0 {
        return;
    }
    let pre = events.drop_last();
    let e = events.last();
    let n = events.len() - 1;
    lemma_network_needs_execute(pre);
    let st = network_state(pre);
    let st2 = network_state(events);
    if has_execute(pre) {
        let k = choose|k: int| 0 <= k < pre.len() && approves(#[trigger] pre[k]);
        assert(events[k] == pre[k]);
        assert(approves(events[k]));
        return;
    }
    // Without an earlier approval both sequences start empty.
    assert(st.executed.len() == 0 && st.open.len() == 0);
    match e {
        CodeWorkflowEventKind::PlanReviewRequested { interaction_id, plan_id, .. } => {
            assert(st2 == network_on_review(st, interaction_id, plan_id));
            st.executed.lemma_filter_len(not_str(plan_id@));
            let ex0 = if plan_id@.len() > 0 {
                strs_remove(st.executed, plan_id@)
            } else {
                st.executed
            };
            ex0.lemma_filter_len(not_str(interaction_id@));
            st.open.lemma_filter_len(not(demoted(plan_id@)));
        },
        CodeWorkflowEventKind::NetworkPolicyRequested {
            interaction_id,
            plan_id,
            turn_id,
            default_allow,
        } => {
            assert(st2 == network_on_marker(st, interaction_id, plan_id, turn_id, default_allow));
            let rid = review_text(marker_review(st, plan_id));
            assert(!in_strs(st.executed, plan_id@));
            assert(!in_strs(st.executed, rid));
            assert(!in_strs(st.executed, interaction_id@));
        },
        _ => match resolved_by(e) {
            Some((id, resolution)) => {
                if is_execute(resolution@) {
                    assert(approves(events[n]));
                } else {
                    let bound = plan_of(st.review_plans, id@);
                    st.open.lemma_filter_len(other_open(id@));
                    st.executed.lemma_filter_len(not_str(id@));
                    let ex1 = strs_remove(st.executed, id@);
                    match bound {
                        Some(p) => {
                            ex1.lemma_filter_len(not_str(p@));
                        },
                        None => {},
                    }
                    let o1 = st.open.filter(other_open(id@));
                    let p1 = st.pending.filter(other_pending(id@));
                    o1.lemma_filter_len(not_stale_gate(p1, id@));
                }
            },
            None => {},
        },
    }
}

/// No network-policy gate is restored unless some Plan review in the log was
/// approved with Execute: recovery never re-opens a network decision for a
/// plan that no human approved.
pub proof fn law_network_gate_needs_execute(events: Seq<CodeWorkflowEventKind>)
    ensures
        open_network_policy(events) is Some ==> has_execute(events),
{
    lemma_network_needs_execute(events);
}

/// Network-policy marker `id`, for plan `plan` and turn `turn` with default
/// `allow`, was requested and no later event resolved it.
pub open spec fn network_awaits(
    events: Seq<CodeWorkflowEventKind>,
    id: String,
    plan: String,
    turn: String,
    allow: bool,
) -> bool {
    exists|k: int|
        0 <= k < events.len() && #[trigger] events[k] == (CodeWorkflowEventKind::NetworkPolicyRequested {
            interaction_id: id,
            plan_id: plan,
            turn_id: turn,
            default_allow: allow,
        }) && forall|j: int| k < j < events.len() ==> !resolves(#[trigger] events[j], id@)
}

/// Some event of the log requests a network-policy decision.
pub open spec fn has_network_request(events: Seq<CodeWorkflowEventKind>) -> bool {
    exists|k: int| 0 <= k < events.len() && (#[trigger] events[k]) is NetworkPolicyRequested
}

pub open spec fn pending_ok(events: Seq<CodeWorkflowEventKind>) -> spec_fn(PendingNetwork) -> bool {
    |x: PendingNetwork| network_awaits(events, x.interaction_id, x.plan_id, x.turn_id, x.default_allow)
}

pub open spec fn open_ok(events: Seq<CodeWorkflowEventKind>) -> spec_fn(OpenNetwork) -> bool {
    |x: OpenNetwork| network_awaits(events, x.interaction_id, x.plan_id, x.turn_id, x.default_allow)
}

pub open spec fn all_hold<T>(s: Seq<T>, q: spec_fn(T) -> bool) -> bool {
    forall|i: int| 0 <= i < s.len() ==> q(#[trigger] s[i])
}

proof fn lemma_filter_member<T>(s: Seq<T>, p: spec_fn(T) -> bool, i: int)
    requires
        0 <= i < s.filter(p).len(),
    ensures
        s.contains(s.filter(p)[i]),
        p(s.filter(p)[i]),
{
    let f = s.filter(p);
    assert(f[i] == f[i]);
    assert(f.contains(f[i]));
    s.lemma_filter_contains_rev(p, f[i]);
    s.lemma_filter_pred(p, i);
}

proof fn lemma_all_filter<T>(s: Seq<T>, p: spec_fn(T) -> bool, q: spec_fn(T) -> bool)
    requires
        all_hold(s, q),
    ensures
        all_hold(s.filter(p), q),
{
    assert forall|i: int| 0 <= i < s.filter(p).len() implies q(#[trigger] s.filter(p)[i]) by {
        lemma_filter_member(s, p, i);
        let k = choose|k: int| 0 <= k < s.len() && s[k] == s.filter(p)[i];
    }
}

proof fn lemma_all_upsert<T>(s: Seq<T>, p: spec_fn(T) -> bool, e: T, q: spec_fn(T) -> bool)
    requires
        all_hold(s, q),
        q(e),
    ensures
        all_hold(upsert(s, p, e), q),
{
    let u = upsert(s, p, e);
    assert forall|i: int| 0 <= i < u.len() implies q(#[trigger] u[i]) by {
        if any(s, p) {
            assert(u[i] == replace_if(p, e)(s[i]));
        } else if i < s.len() {
            assert(u[i] == s[i]);
        }
    }
}

proof fn lemma_pending_upsert_all(s: Seq<PendingNetwork>, m: Seq<PendingNetwork>, q: spec_fn(PendingNetwork) -> bool)
    requires
        all_hold(s, q),
        all_hold(m, q),
    ensures
        all_hold(pending_upsert_all(s, m), q),
    decreases m.len(),
{
    if m.len() > 0 {
        assert forall|i: int| 0 <= i < m.drop_last().len() implies q(#[trigger] m.drop_last()[i]) by {
            assert(m.drop_last()[i] == m[i]);
        }
        lemma_pending_upsert_all(s, m.drop_last(), q);
        assert(q(m[m.len() - 1]));
        lemma_all_upsert(pending_upsert_all(s, m.drop_last()), same_pending(m.last().interaction_id@), m.last(), q);
    }
}

proof fn lemma_open_all(events: Seq<CodeWorkflowEventKind>, o: Seq<OpenNetwork>, m: Seq<PendingNetwork>)
    requires
        all_hold(o, open_ok(events)),
        all_hold(m, pending_ok(events)),
    ensures
        all_hold(open_all(o, m), open_ok(events)),
    decreases m.len(),
{
    if m.len() > 0 {
        assert forall|i: int| 0 <= i < m.drop_last().len() implies (pending_ok(events))(#[trigger] m.drop_last()[i]) by {
            assert(m.drop_last()[i] == m[i]);
        }
        lemma_open_all(events, o, m.drop_last());
        assert((pending_ok(events))(m[m.len() - 1]));
        lemma_all_upsert(open_all(o, m.drop_last()), same_open(m.last().interaction_id@), as_open(m.last()), open_ok(events));
    }
}

spec fn scan_ok(events: Seq<CodeWorkflowEventKind>, st: NetworkScan) -> bool {
    all_hold(st.pending, pending_ok(events)) && all_hold(st.open, open_ok(events))
}

proof fn lemma_promote_ok(events: Seq<CodeWorkflowEventKind>, st: NetworkScan, p: spec_fn(PendingNetwork) -> bool)
    requires
        scan_ok(events, st),
    ensures
        scan_ok(events, promote(st, p)),
{
    lemma_all_filter(st.pending, not(p), pending_ok(events));
    lemma_all_filter(st.pending, p, pending_ok(events));
    lemma_open_all(events, st.open, st.pending.filter(p));
}

proof fn lemma_awaits_extend(events: Seq<CodeWorkflowEventKind>, e: CodeWorkflowEventKind, id: String, plan: String, turn: String, allow: bool)
    requires
        network_awaits(events, id, plan, turn, allow),
        !resolves(e, id@),
    ensures
        network_awaits(events.push(e), id, plan, turn, allow),
{
    let ev = events.push(e);
    let k = choose|k: int|
        0 <= k < events.len() && #[trigger] events[k] == (CodeWorkflowEventKind::NetworkPolicyRequested {
            interaction_id: id,
            plan_id: plan,
            turn_id: turn,
            default_allow: allow,
        }) && forall|j: int| k < j < events.len() ==> !resolves(#[trigger] events[j], id@);
    assert(ev[k] == events[k]);
    assert forall|j: int| k < j < ev.len() implies !resolves(#[trigger] ev[j], id@) by {
        if j < events.len() {
            assert(ev[j] == events[j]);
        }
    }
}

proof fn lemma_scan_extend(events: Seq<CodeWorkflowEventKind>, e: CodeWorkflowEventKind, st: NetworkScan)
    requires
        scan_ok(events, st),
        forall|x: PendingNetwork| #[trigger] st.pending.contains(x) ==> !resolves(e, x.interaction_id@),
        forall|x: OpenNetwork| #[trigger] st.open.contains(x) ==> !resolves(e, x.interaction_id@),
    ensures
        scan_ok(events.push(e), st),
{
    let ev = events.push(e);
    assert forall|i: int| 0 <= i < st.pending.len() implies (pending_ok(ev))(#[trigger] st.pending[i]) by {
        let x = st.pending[i];
        assert(st.pending.contains(x));
        assert((pending_ok(events))(x));
        lemma_awaits_extend(events, e, x.interaction_id, x.plan_id, x.turn_id, x.default_allow);
    }
    assert forall|i: int| 0 <= i < st.open.len() implies (open_ok(ev))(#[trigger] st.open[i]) by {
        let x = st.open[i];
        assert(st.open.contains(x));
        assert((open_ok(events))(x));
        lemma_awaits_extend(events, e, x.interaction_id, x.plan_id, x.turn_id, x.default_allow);
    }
}

proof fn lemma_network_entries(events: Seq<CodeWorkflowEventKind>)
    ensures
        scan_ok(events, network_state(events)),
    decreases events.len(),
{
    broadcast use vstd::seq_lib::group_filter_ensures;
    if events.len() == 0 {
        return;
    }
    let pre = events.drop_last();
    let e = events.last();
    assert(pre.push(e) =~= events);
    lemma_network_entries(pre);
    let st = network_state(pre);
    match e {
        CodeWorkflowEventKind::PlanReviewRequested { interaction_id, plan_id, .. } => {
            lemma_scan_extend(pre, e, st);
            let moved = st.open.filter(demoted(plan_id@));
            lemma_all_filter(st.open, demoted(plan_id@), open_ok(events));
            let back = moved.map_values(back_to_pending(interaction_id));
            assert forall|i: int| 0 <= i < back.len() implies (pending_ok(events))(#[trigger] back[i]) by {
                assert((open_ok(events))(moved[i]));
            }
            lemma_pending_upsert_all(st.pending, back, pending_ok(events));
            lemma_all_filter(st.open, not(demoted(plan_id@)), open_ok(events));
        },
        CodeWorkflowEventKind::NetworkPolicyRequested {
            interaction_id,
            plan_id,
            turn_id,
            default_allow,
        } => {
            lemma_scan_extend(pre, e, st);
            let n = events.len() - 1;
            assert(events[n] == e);
            assert(network_awaits(events, interaction_id, plan_id, turn_id, default_allow));
            let assoc = marker_review(st, plan_id);
            let fresh = PendingNetwork {
                interaction_id,
                plan_id,
                turn_id,
                default_allow,
                review_id: assoc,
            };
            lemma_all_upsert(st.pending, same_pending(interaction_id@), fresh, pending_ok(events));
            let st1 = NetworkScan { pending: pending_upsert(st.pending, fresh), ..st };
            let rid = review_text(assoc);
            lemma_promote_ok(events, st1, for_plan(plan_id@));
            lemma_promote_ok(events, st1, for_review(rid));
        },
        _ => match resolved_by(e) {
            Some((iid, resolution)) => {
                let bound = plan_of(st.review_plans, iid@);
                let p1 = st.pending.filter(other_pending(iid@));
                let o1 = st.open.filter(other_open(iid@));
                assert forall|i: int| 0 <= i < p1.len() implies (pending_ok(events))(#[trigger] p1[i]) by {
                    let x = p1[i];
                    lemma_filter_member(st.pending, other_pending(iid@), i);
                    let k = choose|k: int| 0 <= k < st.pending.len() && st.pending[k] == x;
                    assert((pending_ok(pre))(st.pending[k]));
                    lemma_awaits_extend(pre, e, x.interaction_id, x.plan_id, x.turn_id, x.default_allow);
                }
                assert forall|i: int| 0 <= i < o1.len() implies (open_ok(events))(#[trigger] o1[i]) by {
                    let x = o1[i];
                    lemma_filter_member(st.open, other_open(iid@), i);
                    let k = choose|k: int| 0 <= k < st.open.len() && st.open[k] == x;
                    assert((open_ok(pre))(st.open[k]));
                    lemma_awaits_extend(pre, e, x.interaction_id, x.plan_id, x.turn_id, x.default_allow);
                }
                let st1 = NetworkScan {
                    reviews: strs_remove(st.reviews, iid@),
                    open_plans: match bound {
                        Some(p) => strs_remove(st.open_plans, p@),
                        None => st.open_plans,
                    },
                    open: o1,
                    pending: p1,
                    ..st
                };
                assert(scan_ok(events, st1));
                if is_execute(resolution@) {
                    let st2 = NetworkScan { executed: strs_insert(st1.executed, iid), ..st1 };
                    match bound {
                        Some(p) => {
                            let st2b = NetworkScan { executed: strs_insert(st2.executed, p), ..st2 };
                            if p@.len() > 0 {
                                lemma_promote_ok(events, st2b, for_plan(p@));
                            }
                            let st3 = promote_plan(st2b, p@);
                            lemma_promote_ok(events, st3, for_review(iid@));
                        },
                        None => {
                            lemma_promote_ok(events, st2, for_review(iid@));
                        },
                    }
                } else {
                    lemma_all_filter(p1, not(stale_for(iid@)), pending_ok(events));
                    lemma_all_filter(o1, not_stale_gate(p1, iid@), open_ok(events));
                }
            },
            None => {
                lemma_scan_extend(pre, e, st);
            },
        },
    }
}

/// A restored network-policy gate is one a human still owes an answer: it
/// was requested (with the returned plan, turn and default) and no later
/// event resolved it; a Plan review in the log was approved with Execute;
/// and a log without any network-policy request restores none.
pub proof fn law_network_gate_awaits_human(events: Seq<CodeWorkflowEventKind>)
    ensures
        open_network_policy(events) matches Some((id, plan, turn, allow)) ==> network_awaits(
            events,
            id,
            plan,
            turn,
            allow,
        ),
        open_network_policy(events) is Some ==> has_execute(events),
        !has_network_request(events) ==> open_network_policy(events) is None,
{
    lemma_network_entries(events);
    lemma_network_needs_execute(events);
    let o = network_state(events).open;
    if o.len() > 0 {
        assert((open_ok(events))(o[0]));
        let x = o[0];
        let k = choose|k: int|
            0 <= k < events.len() && #[trigger] events[k] == (CodeWorkflowEventKind::NetworkPolicyRequested {
                interaction_id: x.interaction_id,
                plan_id: x.plan_id,
                turn_id: x.turn_id,
                default_allow: x.default_allow,
            }) && forall|j: int| k < j < events.len() ==> !resolves(#[trigger] events[j], x.interaction_id@);
        assert(events[k] is NetworkPolicyRequested);
    }
}

} // verus!
