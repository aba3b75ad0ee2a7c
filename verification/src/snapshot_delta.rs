//! The projection deltas that bring a Code UI session snapshot up to date:
//! what changed between a checkpointed snapshot and the current one.
use vstd::prelude::*;

use crate::text::str_eq;

verus! {

/// One item of a snapshot list: its id and its JSON value, written as
/// canonical JSON text (equal values, equal texts).
#[derive(Debug, Clone)]
pub struct ProjectionItem {
    pub id: String,
    pub payload: String,
}

/// A session snapshot as its deltas read it: the status, controller and
/// plan-execution repair state as canonical JSON text, and the item lists.
#[derive(Debug, Clone)]
pub struct SnapshotPayloads {
    pub status: String,
    pub controller: String,
    pub plan_execution_repair: String,
    pub transcript: Vec<ProjectionItem>,
    pub interactions: Vec<ProjectionItem>,
    pub plans: Vec<ProjectionItem>,
    pub tasks: Vec<ProjectionItem>,
    pub tool_calls: Vec<ProjectionItem>,
    pub patchsets: Vec<ProjectionItem>,
}

/// What a delta carries: a JSON value, or the id of an interaction that
/// was cleared (sent as `{"interactionId": id}`).
#[derive(Debug, Clone)]
pub enum DeltaPayload {
    Value(String),
    InteractionCleared(String),
}

/// A projection delta event: the projection it updates, a summary, and
/// the payload.
#[derive(Debug, Clone)]
pub struct ProjectionDelta {
    pub projection: String,
    pub summary: String,
    pub payload: DeltaPayload,
}

/// The mathematical value of a delta payload.
pub enum PayloadView {
    Value(Seq<char>),
    InteractionCleared(Seq<char>),
}

/// The mathematical value of a delta.
pub struct DeltaView {
    pub projection: Seq<char>,
    pub summary: Seq<char>,
    pub payload: PayloadView,
}

/// The view of a delta.
pub open spec fn delta_view(d: ProjectionDelta) -> DeltaView {
    DeltaView {
        projection: d.projection@,
        summary: d.summary@,
        payload: match d.payload {
            DeltaPayload::Value(v) => PayloadView::Value(v@),
            DeltaPayload::InteractionCleared(id) => PayloadView::InteractionCleared(id@),
        },
    }
}

/// The views of deltas.
pub open spec fn deltas_view(s: Seq<ProjectionDelta>) -> Seq<DeltaView> {
    s.map_values(|d: ProjectionDelta| delta_view(d))
}

/// The payload of the last item of `items` with id `id`, if any.
pub open spec fn payload_of(items: Seq<ProjectionItem>, id: Seq<char>) -> Option<Seq<char>>
    decreases items.len(),
{
    if items.len() == 0 {
        None
    } else if items.last().id@ == id {
        Some(items.last().payload@)
    } else {
        payload_of(items.drop_last(), id)
    }
}

/// The deltas for the items of `current` whose value differs from the
/// previous value under their id (or that are new), in `current` order.
pub open spec fn changed_items(
    projection: Seq<char>,
    summary: Seq<char>,
    previous: Seq<ProjectionItem>,
    current: Seq<ProjectionItem>,
) -> Seq<DeltaView>
    decreases current.len(),
{
    if current.len() == 0 {
        Seq::empty()
    } else {
        let pre = changed_items(projection, summary, previous, current.drop_last());
        let it = current.last();
        if payload_of(previous, it.id@) == Some(it.payload@) {
            pre
        } else {
            pre.push(DeltaView { projection, summary, payload: PayloadView::Value(it.payload@) })
        }
    }
}

/// Whether an item of `items` has id `id`.
pub open spec fn has_id(items: Seq<ProjectionItem>, id: Seq<char>) -> bool {
    exists|i: int| 0 <= i < items.len() && (#[trigger] items[i]).id@ == id
}

/// The `interaction_cleared` deltas of the previous interactions that the
/// current snapshot no longer has, in previous order.
pub open spec fn cleared_interactions(previous: Seq<ProjectionItem>, current: Seq<ProjectionItem>) -> Seq<DeltaView>
    decreases previous.len(),
{
    if previous.len() == 0 {
        Seq::empty()
    } else {
        let pre = cleared_interactions(previous.drop_last(), current);
        let it = previous.last();
        if has_id(current, it.id@) {
            pre
        } else {
            pre.push(
                DeltaView {
                    projection: "interaction_cleared"@,
                    summary: "interaction cleared"@,
                    payload: PayloadView::InteractionCleared(it.id@),
                },
            )
        }
    }
}

/// A delta of a whole value, when it changed.
pub open spec fn value_delta(projection: Seq<char>, summary: Seq<char>, previous: Seq<char>, current: Seq<char>) -> Seq<
    DeltaView,
> {
    if previous == current {
        Seq::empty()
    } else {
        seq![DeltaView { projection, summary, payload: PayloadView::Value(current) }]
    }
}

/// The deltas from `prev` to `cur`: status, controller and repair state
/// when changed; changed transcript entries and interactions; cleared
/// interactions; then changed plans, tasks, tool calls and patchsets.
pub open spec fn snapshot_deltas(prev: SnapshotPayloads, cur: SnapshotPayloads) -> Seq<DeltaView> {
    value_delta("status"@, "session status changed"@, prev.status@, cur.status@)
        + value_delta("controller"@, "controller state changed"@, prev.controller@, cur.controller@)
        + value_delta(
        "plan_execution_repair"@,
        "plan execution repair changed"@,
        prev.plan_execution_repair@,
        cur.plan_execution_repair@,
    ) + changed_items("transcript_upsert"@, "transcript entry changed"@, prev.transcript@, cur.transcript@)
        + changed_items("interaction_upsert"@, "interaction changed"@, prev.interactions@, cur.interactions@)
        + cleared_interactions(prev.interactions@, cur.interactions@) + changed_items(
        "plan_upsert"@,
        "plan changed"@,
        prev.plans@,
        cur.plans@,
    ) + changed_items("task_upsert"@, "task changed"@, prev.tasks@, cur.tasks@) + changed_items(
        "tool_call_upsert"@,
        "tool call changed"@,
        prev.tool_calls@,
        cur.tool_calls@,
    ) + changed_items("patchset_upsert"@, "patchset changed"@, prev.patchsets@, cur.patchsets@)
}

fn payload_of_exec<'a>(items: &'a Vec<ProjectionItem>, id: &str) -> (r: Option<&'a String>)
    ensures
        match r {
            Some(p) => payload_of(items@, id@) == Some(p@),
            None => payload_of(items@, id@) is None,
        },
{
    let mut i: usize = items.len();
    assert(items@.subrange(0, i as int) =~= items@);
    while i > 0
        invariant
            i <= items@.len(),
            payload_of(items@, id@) == payload_of(items@.subrange(0, i as int), id@),
        decreases i,
    {
        let ghost pre = items@.subrange(0, i as int);
        assert(pre.drop_last() =~= items@.subrange(0, i - 1));
        assert(pre.last() == items@[i - 1]);
        if str_eq(items[i - 1].id.as_str(), id) {
            return Some(&items[i - 1].payload);
        }
        i -= 1;
    }
    None
}

fn push_value_delta(deltas: &mut Vec<ProjectionDelta>, projection: &str, summary: &str, payload: String)
    ensures
        deltas_view(final(deltas)@) == deltas_view(old(deltas)@).push(
            DeltaView { projection: projection@, summary: summary@, payload: PayloadView::Value(payload@) },
        ),
{
    let ghost before = deltas_view(deltas@);
    deltas.push(
        ProjectionDelta {
            projection: String::from_str(projection),
            summary: String::from_str(summary),
            payload: DeltaPayload::Value(payload),
        },
    );
    assert(deltas_view(deltas@) =~= before.push(delta_view(deltas@.last())));
}

fn append_value_delta(deltas: &mut Vec<ProjectionDelta>, projection: &str, summary: &str, previous: &String, current: &String)
    ensures
        deltas_view(final(deltas)@) == deltas_view(old(deltas)@) + value_delta(
            projection@,
            summary@,
            previous@,
            current@,
        ),
{
    if str_eq(previous.as_str(), current.as_str()) {
        assert(deltas_view(deltas@) =~= deltas_view(deltas@) + Seq::<DeltaView>::empty());
    } else {
        let ghost before = deltas_view(deltas@);
        push_value_delta(deltas, projection, summary, current.clone());
        assert(deltas_view(deltas@) =~= before + value_delta(projection@, summary@, previous@, current@));
    }
}

/// Appends the deltas of the items of `current` whose value differs from
/// the previous value under their id.
pub fn append_changed_projection_items(
    deltas: &mut Vec<ProjectionDelta>,
    projection: &str,
    summary: &str,
    previous: &Vec<ProjectionItem>,
    current: &Vec<ProjectionItem>,
)
    ensures
        deltas_view(final(deltas)@) == deltas_view(old(deltas)@) + changed_items(
            projection@,
            summary@,
            previous@,
            current@,
        ),
{
    let ghost start = deltas_view(deltas@);
    let mut i: usize = 0;
    assert(current@.subrange(0, 0) =~= Seq::<ProjectionItem>::empty());
    assert(start + changed_items(projection@, summary@, previous@, current@.subrange(0, 0)) =~= start);
    while i < current.len()
        invariant
            i <= current@.len(),
            deltas_view(deltas@) == start + changed_items(
                projection@,
                summary@,
                previous@,
                current@.subrange(0, i as int),
            ),
        decreases current.len() - i,
    {
        let ghost before = deltas_view(deltas@);
        let ghost pre = current@.subrange(0, i + 1);
        assert(pre.drop_last() =~= current@.subrange(0, i as int));
        assert(pre.last() == current@[i as int]);
        let same = match payload_of_exec(previous, current[i].id.as_str()) {
            Some(p) => str_eq(p.as_str(), current[i].payload.as_str()),
            None => false,
        };
        if !same {
            push_value_delta(deltas, projection, summary, current[i].payload.clone());
        }
        assert(deltas_view(deltas@) =~= start + changed_items(projection@, summary@, previous@, pre));
        i += 1;
    }
    assert(current@.subrange(0, current@.len() as int) =~= current@);
}

fn has_id_exec(items: &Vec<ProjectionItem>, id: &str) -> (r: bool)
    ensures
        r == has_id(items@, id@),
{
    let mut i: usize = 0;
    while i < items.len()
        invariant
            i <= items@.len(),
            forall|j: int| 0 <= j < i ==> (#[trigger] items@[j]).id@ != id@,
        decreases items.len() - i,
    {
        if str_eq(items[i].id.as_str(), id) {
            assert(items@[i as int].id@ == id@);
            return true;
        }
        i += 1;
    }
    false
}

fn append_cleared_interactions(
    deltas: &mut Vec<ProjectionDelta>,
    previous: &Vec<ProjectionItem>,
    current: &Vec<ProjectionItem>,
)
    ensures
        deltas_view(final(deltas)@) == deltas_view(old(deltas)@) + cleared_interactions(previous@, current@),
{
    let ghost start = deltas_view(deltas@);
    let mut i: usize = 0;
    assert(previous@.subrange(0, 0) =~= Seq::<ProjectionItem>::empty());
    assert(start + cleared_interactions(previous@.subrange(0, 0), current@) =~= start);
    while i < previous.len()
        invariant
            i <= previous@.len(),
            deltas_view(deltas@) == start + cleared_interactions(previous@.subrange(0, i as int), current@),
        decreases previous.len() - i,
    {
        let ghost before = deltas_view(deltas@);
        let ghost pre = previous@.subrange(0, i + 1);
        assert(pre.drop_last() =~= previous@.subrange(0, i as int));
        assert(pre.last() == previous@[i as int]);
        if !has_id_exec(current, previous[i].id.as_str()) {
            deltas.push(
                ProjectionDelta {
                    projection: String::from_str("interaction_cleared"),
                    summary: String::from_str("interaction cleared"),
                    payload: DeltaPayload::InteractionCleared(previous[i].id.clone()),
                },
            );
            assert(deltas_view(deltas@) =~= before.push(delta_view(deltas@.last())));
        }
        assert(deltas_view(deltas@) =~= start + cleared_interactions(pre, current@));
        i += 1;
    }
    assert(previous@.subrange(0, previous@.len() as int) =~= previous@);
}

/// The projection deltas from the checkpointed snapshot `previous` to
/// `current`.
pub fn code_ui_projection_deltas(previous: &SnapshotPayloads, current: &SnapshotPayloads) -> (r: Vec<ProjectionDelta>)
    ensures
        deltas_view(r@) == snapshot_deltas(*previous, *current),
{
    let mut deltas: Vec<ProjectionDelta> = Vec::new();
    assert(deltas_view(deltas@) =~= Seq::<DeltaView>::empty());
    append_value_delta(&mut deltas, "status", "session status changed", &previous.status, &current.status);
    append_value_delta(&mut deltas, "controller", "controller state changed", &previous.controller, &current.controller);
    append_value_delta(
        &mut deltas,
        "plan_execution_repair",
        "plan execution repair changed",
        &previous.plan_execution_repair,
        &current.plan_execution_repair,
    );
    append_changed_projection_items(
        &mut deltas,
        "transcript_upsert",
        "transcript entry changed",
        &previous.transcript,
        &current.transcript,
    );
    append_changed_projection_items(
        &mut deltas,
        "interaction_upsert",
        "interaction changed",
        &previous.interactions,
        &current.interactions,
    );
    append_cleared_interactions(&mut deltas, &previous.interactions, &current.interactions);
    append_changed_projection_items(&mut deltas, "plan_upsert", "plan changed", &previous.plans, &current.plans);
    append_changed_projection_items(&mut deltas, "task_upsert", "task changed", &previous.tasks, &current.tasks);
    append_changed_projection_items(
        &mut deltas,
        "tool_call_upsert",
        "tool call changed",
        &previous.tool_calls,
        &current.tool_calls,
    );
    append_changed_projection_items(
        &mut deltas,
        "patchset_upsert",
        "patchset changed",
        &previous.patchsets,
        &current.patchsets,
    );
    assert(deltas_view(deltas@) =~= snapshot_deltas(*previous, *current));
    deltas
}

/// Whether no two items of `items` share an id.
pub open spec fn ids_unique(items: Seq<ProjectionItem>) -> bool {
    forall|i: int, j: int| 0 <= i < j < items.len() ==> (#[trigger] items[i]).id@ != (#[trigger] items[j]).id@
}

proof fn lemma_payload_of_member(items: Seq<ProjectionItem>, k: int)
    requires
        ids_unique(items),
        0 <= k < items.len(),
    ensures
        payload_of(items, items[k].id@) == Some(items[k].payload@),
    decreases items.len(),
{
    if k < items.len() - 1 {
        let init = items.drop_last();
        assert(items[k].id@ != items[items.len() - 1].id@);
        assert(init[k] == items[k]);
        assert forall|i: int, j: int| 0 <= i < j < init.len() implies (#[trigger] init[i]).id@ != (#[trigger] init[j]).id@ by {
            assert(init[i] == items[i] && init[j] == items[j]);
        }
        lemma_payload_of_member(init, k);
    }
}

proof fn lemma_unchanged_items(projection: Seq<char>, summary: Seq<char>, items: Seq<ProjectionItem>, n: int)
    requires
        ids_unique(items),
        0 <= n <= items.len(),
    ensures
        changed_items(projection, summary, items, items.subrange(0, n)) == Seq::<DeltaView>::empty(),
    decreases n,
{
    if n > 0 {
        let pre = items.subrange(0, n);
        assert(pre.drop_last() =~= items.subrange(0, n - 1));
        assert(pre.last() == items[n - 1]);
        lemma_unchanged_items(projection, summary, items, n - 1);
        lemma_payload_of_member(items, n - 1);
    }
}

proof fn lemma_nothing_cleared(items: Seq<ProjectionItem>, n: int)
    requires
        0 <= n <= items.len(),
    ensures
        cleared_interactions(items.subrange(0, n), items) == Seq::<DeltaView>::empty(),
    decreases n,
{
    if n > 0 {
        let pre = items.subrange(0, n);
        assert(pre.drop_last() =~= items.subrange(0, n - 1));
        assert(pre.last() == items[n - 1]);
        assert(has_id(items, items[n - 1].id@));
        lemma_nothing_cleared(items, n - 1);
    }
}

/// An unchanged snapshot (no list repeating an id) needs no delta: every
/// status is the same and every item keeps its value.
pub proof fn law_unchanged_snapshot_has_no_deltas(s: SnapshotPayloads)
    requires
        ids_unique(s.transcript@),
        ids_unique(s.interactions@),
        ids_unique(s.plans@),
        ids_unique(s.tasks@),
        ids_unique(s.tool_calls@),
        ids_unique(s.patchsets@),
    ensures
        snapshot_deltas(s, s) == Seq::<DeltaView>::empty(),
{
    assert(s.transcript@.subrange(0, s.transcript@.len() as int) =~= s.transcript@);
    assert(s.interactions@.subrange(0, s.interactions@.len() as int) =~= s.interactions@);
    assert(s.plans@.subrange(0, s.plans@.len() as int) =~= s.plans@);
    assert(s.tasks@.subrange(0, s.tasks@.len() as int) =~= s.tasks@);
    assert(s.tool_calls@.subrange(0, s.tool_calls@.len() as int) =~= s.tool_calls@);
    assert(s.patchsets@.subrange(0, s.patchsets@.len() as int) =~= s.patchsets@);
    lemma_unchanged_items("transcript_upsert"@, "transcript entry changed"@, s.transcript@, s.transcript@.len() as int);
    lemma_unchanged_items("interaction_upsert"@, "interaction changed"@, s.interactions@, s.interactions@.len() as int);
    lemma_nothing_cleared(s.interactions@, s.interactions@.len() as int);
    lemma_unchanged_items("plan_upsert"@, "plan changed"@, s.plans@, s.plans@.len() as int);
    lemma_unchanged_items("task_upsert"@, "task changed"@, s.tasks@, s.tasks@.len() as int);
    lemma_unchanged_items("tool_call_upsert"@, "tool call changed"@, s.tool_calls@, s.tool_calls@.len() as int);
    lemma_unchanged_items("patchset_upsert"@, "patchset changed"@, s.patchsets@, s.patchsets@.len() as int);
    assert(snapshot_deltas(s, s) =~= Seq::<DeltaView>::empty());
}

} // verus!
