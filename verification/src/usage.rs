//! Usage accounting: the completeness classification of usage totals, the
//! fold of per-model aggregates, and the idempotency identity of usage
//! events recorded for runtime turns.
use vstd::prelude::*;

use crate::text::{concat, dec, dec_vec, opt_view, string_of, trim, trim_str};

verus! {

// ---------------------------------------------------------------------------
// Totals
// ---------------------------------------------------------------------------
/// Whether a displayed usage dimension is complete.
#[derive(Clone, Copy, Debug, PartialEq, Eq, Structural)]
pub enum UsageStatus {
    Known,
    Partial,
    Unknown,
}

impl UsageStatus {
    /// Stable lowercase label for reports.
    pub fn as_str(self) -> (r: &'static str)
        ensures
            r@ == match self {
                UsageStatus::Known => "known"@,
                UsageStatus::Partial => "partial"@,
                UsageStatus::Unknown => "unknown"@,
            },
    {
        match self {
            UsageStatus::Known => "known",
            UsageStatus::Partial => "partial",
            UsageStatus::Unknown => "unknown",
        }
    }
}

pub open spec fn status_of(total: u64, unknown: u64) -> UsageStatus {
    if total == 0 || unknown == total {
        UsageStatus::Unknown
    } else if unknown == 0 {
        UsageStatus::Known
    } else {
        UsageStatus::Partial
    }
}

/// Classifies a usage dimension from its request and unknown-row counts:
/// nothing known is `Unknown`, everything known is `Known`, a known subtotal
/// is `Partial`.
pub fn usage_status(total: u64, unknown: u64) -> (r: UsageStatus)
    ensures
        r == status_of(total, unknown),
{
    if total == 0 || unknown == total {
        UsageStatus::Unknown
    } else if unknown == 0 {
        UsageStatus::Known
    } else {
        UsageStatus::Partial
    }
}

/// Usage of one model over the query filter.
#[derive(Clone, Debug)]
pub struct UsageAggregate {
    pub request_count: u64,
    pub total_tokens: u64,
    pub failed_count: u64,
    pub unknown_usage_count: u64,
    pub unknown_cost_count: u64,
    pub cost_estimate_micro_dollars: Option<u64>,
}

/// Totals a runtime displays.
#[derive(Clone, Debug, PartialEq, Eq)]
pub struct RuntimeUsageTotals {
    pub request_count: u64,
    pub total_tokens: u64,
    pub cost_estimate_micro_dollars: Option<u64>,
    pub usage_status: UsageStatus,
    pub cost_status: UsageStatus,
    pub error_status: UsageStatus,
    pub failed_count: u64,
    pub unknown_usage_count: u64,
    pub unknown_cost_count: u64,
}

pub open spec fn sum_of(rows: Seq<UsageAggregate>, f: spec_fn(UsageAggregate) -> u64) -> nat
    decreases rows.len(),
{
    if rows.len() == 0 {
        0
    } else {
        sum_of(rows.drop_last(), f) + f(rows.last()) as nat
    }
}

/// The sum of the present values, or `None` when none is present.
pub open spec fn present_sum(values: Seq<Option<u64>>) -> Option<nat>
    decreases values.len(),
{
    if values.len() == 0 {
        None
    } else {
        match (present_sum(values.drop_last()), values.last()) {
            (Some(a), Some(b)) => Some(a + b as nat),
            (Some(a), None) => Some(a),
            (None, Some(b)) => Some(b as nat),
            (None, None) => None,
        }
    }
}

pub open spec fn present_total(values: Seq<Option<u64>>) -> nat {
    match present_sum(values) {
        Some(s) => s,
        None => 0,
    }
}

proof fn lemma_present_sum_step(values: Seq<Option<u64>>, i: int)
    requires
        0 <= i < values.len(),
    ensures
        present_sum(values.subrange(0, i + 1)) == match (
            present_sum(values.subrange(0, i)),
            values[i],
        ) {
            (Some(a), Some(b)) => Some(a + b as nat),
            (Some(a), None) => Some(a),
            (None, Some(b)) => Some(b as nat),
            (None, None) => None::<nat>,
        },
{
    assert(values.subrange(0, i + 1).drop_last() =~= values.subrange(0, i));
}

proof fn lemma_present_total_mono(values: Seq<Option<u64>>, i: int)
    requires
        0 <= i <= values.len(),
    ensures
        present_total(values.subrange(0, i)) <= present_total(values),
    decreases values.len() - i,
{
    if i < values.len() {
        lemma_present_sum_step(values, i);
        lemma_present_total_mono(values, i + 1);
    } else {
        assert(values.subrange(0, i) =~= values);
    }
}

/// Sums the known values without discarding them when another entry has
/// none; `None` when no value is known.
pub fn sum_present(values: &[Option<u64>]) -> (r: Option<u64>)
    requires
        present_total(values@) <= u64::MAX,
    ensures
        match r {
            Some(s) => present_sum(values@) == Some(s as nat),
            None => present_sum(values@) is None,
        },
{
    let mut acc: Option<u64> = None;
    let mut i: usize = 0;
    assert(values@.subrange(0, 0) =~= Seq::<Option<u64>>::empty());
    while i < values.len()
        invariant
            i <= values@.len(),
            present_total(values@) <= u64::MAX,
            match acc {
                Some(s) => present_sum(values@.subrange(0, i as int)) == Some(s as nat),
                None => present_sum(values@.subrange(0, i as int)) is None,
            },
        decreases values.len() - i,
    {
        proof {
            lemma_present_sum_step(values@, i as int);
            lemma_present_total_mono(values@, i + 1);
        }
        acc = match (acc, values[i]) {
            (Some(a), Some(b)) => Some(a + b),
            (Some(a), None) => Some(a),
            (None, Some(b)) => Some(b),
            (None, None) => None,
        };
        i += 1;
    }
    assert(values@.subrange(0, values@.len() as int) =~= values@);
    acc
}

pub open spec fn requests(r: UsageAggregate) -> u64 {
    r.request_count
}

pub open spec fn tokens(r: UsageAggregate) -> u64 {
    r.total_tokens
}

pub open spec fn failures(r: UsageAggregate) -> u64 {
    r.failed_count
}

pub open spec fn unknown_usage(r: UsageAggregate) -> u64 {
    r.unknown_usage_count
}

pub open spec fn unknown_cost(r: UsageAggregate) -> u64 {
    r.unknown_cost_count
}

pub open spec fn costs(rows: Seq<UsageAggregate>) -> Seq<Option<u64>> {
    rows.map_values(|r: UsageAggregate| r.cost_estimate_micro_dollars)
}

/// All totals of the rows fit in 64 bits.
pub open spec fn totals_fit(rows: Seq<UsageAggregate>) -> bool {
    &&& sum_of(rows, |r: UsageAggregate| requests(r)) <= u64::MAX
    &&& sum_of(rows, |r: UsageAggregate| tokens(r)) <= u64::MAX
    &&& sum_of(rows, |r: UsageAggregate| failures(r)) <= u64::MAX
    &&& sum_of(rows, |r: UsageAggregate| unknown_usage(r)) <= u64::MAX
    &&& sum_of(rows, |r: UsageAggregate| unknown_cost(r)) <= u64::MAX
    &&& present_total(costs(rows)) <= u64::MAX
}

pub open spec fn error_status_of(failed: u64, requests: u64) -> UsageStatus {
    if failed == 0 {
        UsageStatus::Known
    } else if failed == requests {
        UsageStatus::Unknown
    } else {
        UsageStatus::Partial
    }
}

/// The error status says how many requests failed: `Known` when none did,
/// `Unknown` when every one of them did (and there was at least one),
/// `Partial` when some but not all did.
pub proof fn law_error_status_counts_failures(failed: u64, requests: u64)
    ensures
        failed == 0 ==> error_status_of(failed, requests) == UsageStatus::Known,
        failed > 0 && failed == requests ==> error_status_of(failed, requests) == UsageStatus::Unknown,
        0 < failed < requests ==> error_status_of(failed, requests) == UsageStatus::Partial,
        error_status_of(failed, requests) == UsageStatus::Partial ==> failed > 0 && failed != requests,
{
}

proof fn lemma_sum_failures_is_requests(rows: Seq<UsageAggregate>)
    requires
        forall|k: int| 0 <= k < rows.len() ==> (#[trigger] rows[k]).failed_count == rows[k].request_count,
    ensures
        sum_of(rows, |x: UsageAggregate| failures(x)) == sum_of(rows, |x: UsageAggregate| requests(x)),
    decreases rows.len(),
{
    if rows.len() > 0 {
        let pre = rows.drop_last();
        assert forall|k: int| 0 <= k < pre.len() implies (#[trigger] pre[k]).failed_count
            == pre[k].request_count by {
            assert(pre[k] == rows[k]);
        }
        lemma_sum_failures_is_requests(pre);
        assert(rows.last() == rows[rows.len() - 1]);
    }
}

/// When every request of every model failed, and there was at least one,
/// the folded error status is `Unknown`.
pub proof fn law_all_failed_is_unknown(rows: Seq<UsageAggregate>)
    requires
        forall|k: int| 0 <= k < rows.len() ==> (#[trigger] rows[k]).failed_count == rows[k].request_count,
        0 < sum_of(rows, |x: UsageAggregate| requests(x)) <= u64::MAX,
    ensures
        error_status_of(
            sum_of(rows, |x: UsageAggregate| failures(x)) as u64,
            sum_of(rows, |x: UsageAggregate| requests(x)) as u64,
        ) == UsageStatus::Unknown,
{
    lemma_sum_failures_is_requests(rows);
}

proof fn lemma_sum_step(rows: Seq<UsageAggregate>, f: spec_fn(UsageAggregate) -> u64, i: int)
    requires
        0 <= i < rows.len(),
    ensures
        sum_of(rows.subrange(0, i + 1), f) == sum_of(rows.subrange(0, i), f) + f(rows[i]) as nat,
{
    assert(rows.subrange(0, i + 1).drop_last() =~= rows.subrange(0, i));
}

proof fn lemma_sum_mono(rows: Seq<UsageAggregate>, f: spec_fn(UsageAggregate) -> u64, i: int)
    requires
        0 <= i <= rows.len(),
    ensures
        sum_of(rows.subrange(0, i), f) <= sum_of(rows, f),
    decreases rows.len() - i,
{
    if i < rows.len() {
        lemma_sum_step(rows, f, i);
        lemma_sum_mono(rows, f, i + 1);
    } else {
        assert(rows.subrange(0, i) =~= rows);
    }
}

fn sum_field(rows: &[UsageAggregate], Ghost(f): Ghost<spec_fn(UsageAggregate) -> u64>, field: impl Fn(&UsageAggregate) -> u64) -> (r: u64)
    requires
        sum_of(rows@, f) <= u64::MAX,
        forall|x: UsageAggregate| #[trigger] call_requires(field, (&x,)),
        forall|x: UsageAggregate, v: u64| call_ensures(field, (&x,), v) ==> v == f(x),
    ensures
        r == sum_of(rows@, f),
{
    let mut acc: u64 = 0;
    let mut i: usize = 0;
    assert(rows@.subrange(0, 0) =~= Seq::<UsageAggregate>::empty());
    while i < rows.len()
        invariant
            i <= rows@.len(),
            sum_of(rows@, f) <= u64::MAX,
            acc == sum_of(rows@.subrange(0, i as int), f),
            forall|x: UsageAggregate| #[trigger] call_requires(field, (&x,)),
            forall|x: UsageAggregate, v: u64| call_ensures(field, (&x,), v) ==> v == f(x),
        decreases rows.len() - i,
    {
        proof {
            lemma_sum_step(rows@, f, i as int);
            lemma_sum_mono(rows@, f, i + 1);
        }
        let v = field(&rows[i]);
        acc = acc + v;
        i += 1;
    }
    assert(rows@.subrange(0, rows@.len() as int) =~= rows@);
    acc
}

/// Folds per-model aggregates into the totals a runtime displays.
pub fn fold(rows: &[UsageAggregate]) -> (r: RuntimeUsageTotals)
    requires
        totals_fit(rows@),
    ensures
        r.request_count == sum_of(rows@, |x: UsageAggregate| requests(x)),
        r.total_tokens == sum_of(rows@, |x: UsageAggregate| tokens(x)),
        r.failed_count == sum_of(rows@, |x: UsageAggregate| failures(x)),
        r.unknown_usage_count == sum_of(rows@, |x: UsageAggregate| unknown_usage(x)),
        r.unknown_cost_count == sum_of(rows@, |x: UsageAggregate| unknown_cost(x)),
        match r.cost_estimate_micro_dollars {
            Some(c) => present_sum(costs(rows@)) == Some(c as nat),
            None => present_sum(costs(rows@)) is None,
        },
        r.usage_status == status_of(r.request_count, r.unknown_usage_count),
        r.cost_status == status_of(r.request_count, r.unknown_cost_count),
        r.error_status == error_status_of(r.failed_count, r.request_count),
        r.failed_count == 0 ==> r.error_status == UsageStatus::Known,
        r.failed_count > 0 && r.failed_count == r.request_count ==> r.error_status
            == UsageStatus::Unknown,
        0 < r.failed_count < r.request_count ==> r.error_status == UsageStatus::Partial,
{
    let request_count = sum_field(
        rows,
        Ghost(|x: UsageAggregate| requests(x)),
        (|x: &UsageAggregate| -> (v: u64)
            ensures
                v == requests(*x),
            { x.request_count }),
    );
    let total_tokens = sum_field(
        rows,
        Ghost(|x: UsageAggregate| tokens(x)),
        (|x: &UsageAggregate| -> (v: u64)
            ensures
                v == tokens(*x),
            { x.total_tokens }),
    );
    let failed_count = sum_field(
        rows,
        Ghost(|x: UsageAggregate| failures(x)),
        (|x: &UsageAggregate| -> (v: u64)
            ensures
                v == failures(*x),
            { x.failed_count }),
    );
    let unknown_usage_count = sum_field(
        rows,
        Ghost(|x: UsageAggregate| unknown_usage(x)),
        (|x: &UsageAggregate| -> (v: u64)
            ensures
                v == unknown_usage(*x),
            { x.unknown_usage_count }),
    );
    let unknown_cost_count = sum_field(
        rows,
        Ghost(|x: UsageAggregate| unknown_cost(x)),
        (|x: &UsageAggregate| -> (v: u64)
            ensures
                v == unknown_cost(*x),
            { x.unknown_cost_count }),
    );
    let mut cost_values: Vec<Option<u64>> = Vec::new();
    let mut i: usize = 0;
    while i < rows.len()
        invariant
            i <= rows@.len(),
            cost_values@ == costs(rows@).subrange(0, i as int),
        decreases rows.len() - i,
    {
        cost_values.push(rows[i].cost_estimate_micro_dollars);
        i += 1;
        assert(cost_values@ =~= costs(rows@).subrange(0, i as int));
    }
    assert(cost_values@ =~= costs(rows@));
    let cost = sum_present(cost_values.as_slice());
    RuntimeUsageTotals {
        request_count,
        total_tokens,
        cost_estimate_micro_dollars: cost,
        usage_status: usage_status(request_count, unknown_usage_count),
        cost_status: usage_status(request_count, unknown_cost_count),
        error_status: if failed_count == 0 {
            UsageStatus::Known
        } else if failed_count == request_count {
            UsageStatus::Unknown
        } else {
            UsageStatus::Partial
        },
        failed_count,
        unknown_usage_count,
        unknown_cost_count,
    }
}

// ---------------------------------------------------------------------------
// Recording context
// ---------------------------------------------------------------------------
/// Who and what a usage event belongs to.
#[derive(Clone, Debug, PartialEq, Eq)]
pub struct UsageContext {
    pub repo_id: Option<String>,
    pub session_id: Option<String>,
    pub thread_id: Option<String>,
    pub agent_run_id: Option<String>,
    pub run_id: Option<String>,
    /// Runtime turn identity; scopes current-turn usage queries.
    pub turn_id: Option<String>,
    /// Stable identity of the provider event; replaying it is a no-op.
    pub event_id: Option<String>,
    pub provider: String,
    pub model: String,
    pub request_kind: String,
    pub intent: Option<String>,
    pub agent_name: Option<String>,
}

fn copy_opt(o: &Option<String>) -> (r: Option<String>)
    ensures
        r == *o,
{
    match o {
        Some(s) => Some(s.clone()),
        None => None,
    }
}

/// `c` and `d` agree on every field but the turn and event ids.
pub open spec fn same_but_ids(c: UsageContext, d: UsageContext) -> bool {
    &&& c.repo_id == d.repo_id
    &&& c.session_id == d.session_id
    &&& c.thread_id == d.thread_id
    &&& c.agent_run_id == d.agent_run_id
    &&& c.run_id == d.run_id
    &&& c.provider == d.provider
    &&& c.model == d.model
    &&& c.request_kind == d.request_kind
    &&& c.intent == d.intent
    &&& c.agent_name == d.agent_name
}

impl UsageContext {
    /// Binds the context to a durable runtime turn: the turn id, and the
    /// event id `runtime-turn:<turn>` shared by retries of that turn.
    pub fn for_runtime_turn(&self, runtime_turn_id: &str) -> (r: Self)
        ensures
            same_but_ids(r, *self),
            opt_view(r.turn_id) == Some(runtime_turn_id@),
            opt_view(r.event_id) == Some("runtime-turn:"@ + runtime_turn_id@),
    {
        UsageContext {
            repo_id: copy_opt(&self.repo_id),
            session_id: copy_opt(&self.session_id),
            thread_id: copy_opt(&self.thread_id),
            agent_run_id: copy_opt(&self.agent_run_id),
            run_id: copy_opt(&self.run_id),
            turn_id: Some(String::from_str(runtime_turn_id)),
            event_id: Some(concat("runtime-turn:", runtime_turn_id)),
            provider: self.provider.clone(),
            model: self.model.clone(),
            request_kind: self.request_kind.clone(),
            intent: copy_opt(&self.intent),
            agent_name: copy_opt(&self.agent_name),
        }
    }

    /// Binds a cancellation to the active model request's event identity:
    /// `runtime-turn:<turn>:model-turn:<n>`.
    pub fn for_runtime_turn_cancellation(&self, runtime_turn_id: &str, model_turn: usize) -> (r:
        Self)
        ensures
            same_but_ids(r, *self),
            opt_view(r.turn_id) == Some(runtime_turn_id@),
            opt_view(r.event_id) == Some(
                "runtime-turn:"@ + runtime_turn_id@ + ":model-turn:"@ + dec(model_turn as nat),
            ),
    {
        let mut context = self.for_runtime_turn(runtime_turn_id);
        let n = dec_vec(model_turn as u64);
        let ns = string_of(&n);
        let event = match &context.event_id {
            Some(e) => {
                let mut s = concat(e.as_str(), ":model-turn:");
                s.append(ns.as_str());
                Some(s)
            },
            None => None,
        };
        context.event_id = event;
        context
    }
}

/// An event id is only idempotent within a session: a context with an event
/// id and no non-blank session id is refused.
pub fn validate_idempotency_context(context: &UsageContext) -> (r: Result<(), String>)
    ensures
        r is Err <==> context.event_id is Some && match context.session_id {
            Some(s) => trim(s@).len() == 0,
            None => true,
        },
        r matches Err(e) ==> e@ == "usage event_id requires a non-empty session_id for idempotency"@,
{
    if context.event_id.is_some() {
        let blank = match &context.session_id {
            Some(s) => trim_str(s.as_str()).len() == 0,
            None => true,
        };
        if blank {
            return Err(
                String::from_str("usage event_id requires a non-empty session_id for idempotency"),
            );
        }
    }
    Ok(())
}

/// A count as a signed 64-bit column value, clamped to `i64::MAX`.
pub fn u64_to_i64_value(value: u64) -> (r: i64)
    ensures
        r == if value <= i64::MAX as u64 {
            value as i64
        } else {
            i64::MAX
        },
{
    if value <= i64::MAX as u64 {
        value as i64
    } else {
        i64::MAX
    }
}

/// A flag as a 0/1 column value.
pub fn bool_to_i64_value(value: bool) -> (r: i64)
    ensures
        r == if value {
            1i64
        } else {
            0i64
        },
{
    if value {
        1
    } else {
        0
    }
}

} // verus!
