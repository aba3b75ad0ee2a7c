//! Building a thread graph from a thread projection: the index rows grouped
//! per parent in time order, the intents in ordinal order, and the lines of
//! each intent with its plans, tasks, runs and patchsets.
use vstd::prelude::*;
use vstd::multiset::*;

use crate::graph::{short_id, GraphLine, GraphNodeKind};
use crate::seqs::{insert_sorted, insertion_sort, lemma_insert_at};
use crate::order::{
    lemma_str_lt_total,
    lemma_str_lt_transitive, str_less, str_lt,
};
use crate::ids::{i64_string, int_text, uuid_string, uuid_text};
use crate::scheduler::{PlanHeadRef, SchedulerState};
use crate::text::{concat, concat3, opt_view, str_eq, string_views};
use crate::thread_graph::{
    bool_string, bool_text, copy_opt, is_some_of, line_view, lines_view, listed, listed_exec, one_pair,
    patchset_line, patchset_lines, push_task_subgraph, run_line, run_lines, short, task_line,
    task_subgraph, value_of, values_under, values_under_exec,
    DetailView, GraphObjectDetails, LineView, SubgraphIndex, SubgraphIndexView, ThreadGraph,
};

verus! {

// ---------------------------------------------------------------------------
// Time-ordered values
// ---------------------------------------------------------------------------

/// A value with the time it is ordered by.
pub type Timed = (i64, Seq<char>);

/// `a` comes strictly before `b`: earlier, or as early with a smaller value.
pub open spec fn timed_lt(a: Timed, b: Timed) -> bool {
    a.0 < b.0 || (a.0 == b.0 && str_lt(a.1, b.1))
}

/// `a` comes before `b` or is `b`.
pub open spec fn timed_le(a: Timed, b: Timed) -> bool {
    a == b || timed_lt(a, b)
}

/// Whether `s` is in time order.
pub open spec fn time_sorted(s: Seq<Timed>) -> bool {
    forall|i: int, j: int| 0 <= i < j < s.len() ==> timed_le(#[trigger] s[i], #[trigger] s[j])
}

/// The views of timed values.
pub open spec fn timed_views(v: Seq<(i64, String)>) -> Seq<Timed> {
    v.map_values(|e: (i64, String)| (e.0, e.1@))
}

/// The order of timed values, as a function.
pub open spec fn timed_order() -> spec_fn(Timed, Timed) -> bool {
    |a: Timed, b: Timed| timed_le(a, b)
}

proof fn lemma_timed_total(a: Timed, b: Timed)
    ensures
        timed_le(a, b) || timed_lt(b, a),
{
    lemma_str_lt_total(a.1, b.1);
}

proof fn lemma_timed_le_trans(a: Timed, b: Timed, c: Timed)
    requires
        timed_le(a, b),
        timed_le(b, c),
    ensures
        timed_le(a, c),
{
    if a != b && b != c {
        if a.0 == b.0 && b.0 == c.0 {
            lemma_str_lt_transitive(a.1, b.1, c.1);
        }
    }
}

fn timed_le_exec(a: &(i64, String), b: &(i64, String)) -> (r: bool)
    ensures
        r == timed_le((a.0, a.1@), (b.0, b.1@)),
{
    if a.0 != b.0 {
        a.0 < b.0
    } else if str_eq(a.1.as_str(), b.1.as_str()) {
        true
    } else {
        str_less(a.1.as_str(), b.1.as_str())
    }
}

/// `values` in time order (ties by value).
pub fn sort_timed(values: &Vec<(i64, String)>) -> (r: Vec<(i64, String)>)
    ensures
        timed_views(r@) == insertion_sort(timed_views(values@), timed_order()),
        time_sorted(timed_views(r@)),
        timed_views(r@).to_multiset() == timed_views(values@).to_multiset(),
{
    broadcast use vstd::seq_lib::to_multiset_insert;

    let mut out: Vec<(i64, String)> = Vec::new();
    let mut i: usize = 0;
    assert(timed_views(values@).subrange(0, 0) =~= Seq::<Timed>::empty());
    assert(timed_views(out@) =~= Seq::<Timed>::empty());
    while i < values.len()
        invariant
            i <= values.len(),
            time_sorted(timed_views(out@)),
            timed_views(out@) == insertion_sort(timed_views(values@).subrange(0, i as int), timed_order()),
            timed_views(out@).to_multiset() == timed_views(values@).subrange(0, i as int).to_multiset(),
        decreases values.len() - i,
    {
        let x = (values[i].0, values[i].1.clone());
        let ghost xv: Timed = (x.0, x.1@);
        assert(xv == timed_views(values@)[i as int]);
        let ghost s = timed_views(out@);
        let mut p: usize = 0;
        while p < out.len() && timed_le_exec(&out[p], &x)
            invariant
                p <= out.len(),
                xv == (x.0, x.1@),
                s == timed_views(out@),
                time_sorted(s),
                forall|k: int| 0 <= k < p ==> timed_le(#[trigger] s[k], xv),
            decreases out.len() - p,
        {
            assert(s[p as int] == (out@[p as int].0, out@[p as int].1@));
            p += 1;
        }
        proof {
            if p < out.len() {
                lemma_timed_total(s[p as int], xv);
            }
            assert forall|k: int| p <= k < s.len() implies timed_lt(xv, #[trigger] s[k]) by {
                lemma_timed_total(s[p as int], xv);
                if k > p {
                    lemma_timed_total(s[k], xv);
                    if timed_le(s[k], xv) {
                        lemma_timed_le_trans(s[p as int], s[k], xv);
                    }
                }
            }
        }
        proof {
            lemma_insert_at(s, xv, timed_order(), p as int);
        }
        out.insert(p, x);
        proof {
            let t = timed_views(out@);
            assert(t =~= s.insert(p as int, xv));
            assert(timed_views(values@).subrange(0, i + 1).drop_last() =~= timed_views(values@).subrange(0, i as int));
            assert forall|a: int, b: int| 0 <= a < b < t.len() implies timed_le(#[trigger] t[a], #[trigger] t[b]) by {
                if b < p {
                    assert(t[a] == s[a] && t[b] == s[b]);
                } else if b == p {
                    assert(t[a] == s[a]);
                } else if a == p {
                    assert(t[b] == s[b - 1]);
                } else if a < p {
                    assert(t[a] == s[a] && t[b] == s[b - 1]);
                    lemma_timed_le_trans(s[a], xv, s[b - 1]);
                } else {
                    assert(t[a] == s[a - 1] && t[b] == s[b - 1]);
                }
            }
            assert(timed_views(values@).subrange(0, i + 1) =~= timed_views(values@).subrange(0, i as int).push(xv));
            vstd::seq_lib::to_multiset_build(timed_views(values@).subrange(0, i as int), xv);
            vstd::seq_lib::to_multiset_insert(s, p as int, xv);
            assert(t.to_multiset() == s.to_multiset().insert(xv));
        }
        i += 1;
    }
    assert(timed_views(values@).subrange(0, values.len() as int) =~= timed_views(values@));
    out
}

/// `s` with every value equal to the one before it dropped (`dedup`).
pub open spec fn dedup_adjacent(s: Seq<Seq<char>>) -> Seq<Seq<char>>
    decreases s.len(),
{
    if s.len() <= 1 {
        s
    } else if s.last() == s[s.len() - 2] {
        dedup_adjacent(s.drop_last())
    } else {
        dedup_adjacent(s.drop_last()).push(s.last())
    }
}

proof fn lemma_dedup_last(s: Seq<Seq<char>>)
    requires
        s.len() > 0,
    ensures
        dedup_adjacent(s).len() > 0,
        dedup_adjacent(s).last() == s.last(),
    decreases s.len(),
{
    if s.len() > 1 && s.last() == s[s.len() - 2] {
        lemma_dedup_last(s.drop_last());
    }
}

/// The values of `s`, in order.
pub open spec fn values_of_timed(s: Seq<Timed>) -> Seq<Seq<char>> {
    s.map_values(|e: Timed| e.1)
}

fn dedup_values(sorted: &Vec<(i64, String)>) -> (r: Vec<String>)
    ensures
        string_views(r@) == dedup_adjacent(values_of_timed(timed_views(sorted@))),
{
    let ghost all = values_of_timed(timed_views(sorted@));
    let mut out: Vec<String> = Vec::new();
    let mut i: usize = 0;
    while i < sorted.len()
        invariant
            i <= sorted.len(),
            all == values_of_timed(timed_views(sorted@)),
            string_views(out@) == dedup_adjacent(all.subrange(0, i as int)),
        decreases sorted.len() - i,
    {
        let ghost pre = all.subrange(0, i as int);
        let ghost cur = all.subrange(0, i + 1);
        assert(cur.drop_last() =~= pre);
        assert(cur.last() == sorted@[i as int].1@);
        let same = i > 0 && str_eq(sorted[i].1.as_str(), sorted[i - 1].1.as_str());
        proof {
            if i > 0 {
                assert(cur[cur.len() - 2] == sorted@[i - 1].1@);
                lemma_dedup_last(pre);
                assert(pre.last() == sorted@[i - 1].1@);
            }
        }
        if !same {
            out.push(sorted[i].1.clone());
            assert(string_views(out@) =~= dedup_adjacent(pre).push(cur.last()));
        }
        i += 1;
    }
    assert(all.subrange(0, sorted.len() as int) =~= all);
    out
}

/// One index row: a parent id, a child id, the time it is ordered by, and
/// whether it is the parent's latest row.
#[derive(Debug, Clone)]
pub struct IndexRow {
    pub parent: String,
    pub child: String,
    pub sort: i64,
    pub is_latest: bool,
}

/// The timed children of `parent` among `rows`, in row order.
pub open spec fn children_of(rows: Seq<IndexRow>, parent: Seq<char>) -> Seq<Timed>
    decreases rows.len(),
{
    if rows.len() == 0 {
        Seq::empty()
    } else if rows.last().parent@ == parent {
        children_of(rows.drop_last(), parent).push((rows.last().sort, rows.last().child@))
    } else {
        children_of(rows.drop_last(), parent)
    }
}

/// The children of `parent` among `rows` as the graph lists them: in time
/// order (ties by id), with a child equal to the one before it dropped.
pub open spec fn grouped(rows: Seq<IndexRow>, parent: Seq<char>) -> Seq<Seq<char>> {
    dedup_adjacent(values_of_timed(insertion_sort(children_of(rows, parent), timed_order())))
}

fn children_exec(rows: &Vec<IndexRow>, parent: &str) -> (r: Vec<(i64, String)>)
    ensures
        timed_views(r@) == children_of(rows@, parent@),
{
    let mut out: Vec<(i64, String)> = Vec::new();
    let mut i: usize = 0;
    while i < rows.len()
        invariant
            i <= rows.len(),
            out@.len() == timed_views(out@).len(),
            timed_views(out@) == children_of(rows@.subrange(0, i as int), parent@),
        decreases rows.len() - i,
    {
        assert(rows@.subrange(0, i + 1).drop_last() =~= rows@.subrange(0, i as int));
        assert(rows@.subrange(0, i + 1).last() == rows@[i as int]);
        if str_eq(rows[i].parent.as_str(), parent) {
            out.push((rows[i].sort, rows[i].child.clone()));
            assert(timed_views(out@) =~= children_of(rows@.subrange(0, i as int), parent@).push(
                (rows@[i as int].sort, rows@[i as int].child@),
            ));
        }
        i += 1;
    }
    assert(rows@.subrange(0, rows.len() as int) =~= rows@);
    out
}

/// The children of `parent`, in time order with adjacent repeats dropped
/// (one entry of `group_values_by_key`).
pub fn grouped_children_of(rows: &Vec<IndexRow>, parent: &str) -> (r: Vec<String>)
    ensures
        string_views(r@) == grouped(rows@, parent@),
{
    let children = children_exec(rows, parent);
    let sorted = sort_timed(&children);
    dedup_values(&sorted)
}

fn has_group(groups: &Vec<(String, Vec<String>)>, k: &str) -> (r: bool)
    ensures
        r == exists|i: int| 0 <= i < groups@.len() && (#[trigger] groups@[i]).0@ == k@,
{
    let mut i: usize = 0;
    while i < groups.len()
        invariant
            i <= groups.len(),
            forall|j: int| 0 <= j < i ==> (#[trigger] groups@[j]).0@ != k@,
        decreases groups.len() - i,
    {
        if str_eq(groups[i].0.as_str(), k) {
            assert(groups@[i as int].0@ == k@);
            return true;
        }
        i += 1;
    }
    false
}

proof fn lemma_children_absent(rows: Seq<IndexRow>, k: Seq<char>)
    requires
        forall|i: int| 0 <= i < rows.len() ==> (#[trigger] rows[i]).parent@ != k,
    ensures
        children_of(rows, k) == Seq::<Timed>::empty(),
    decreases rows.len(),
{
    if rows.len() > 0 {
        assert(rows.last() == rows[rows.len() - 1]);
        lemma_children_absent(rows.drop_last(), k);
    }
}

/// The rows grouped by parent (`group_values_by_key`): for every parent,
/// its children in time order with adjacent repeats dropped; any other id
/// has none.
pub fn group_rows(rows: &Vec<IndexRow>) -> (r: Vec<(String, Vec<String>)>)
    ensures
        forall|k: Seq<char>| #[trigger] values_under(r@, k) == grouped(rows@, k),
{
    let mut groups: Vec<(String, Vec<String>)> = Vec::new();
    let mut i: usize = 0;
    while i < rows.len()
        invariant
            i <= rows.len(),
            forall|a: int, b: int|
                #![trigger groups@[a], groups@[b]]
                0 <= a < b < groups@.len() ==> groups@[a].0@ != groups@[b].0@,
            forall|a: int|
                0 <= a < groups@.len() ==> string_views((#[trigger] groups@[a]).1@) == grouped(
                    rows@,
                    groups@[a].0@,
                ),
            forall|j: int|
                0 <= j < i ==> exists|a: int| 0 <= a < groups@.len() && (#[trigger] groups@[a]).0@ == (#[trigger] rows@[j]).parent@,
        decreases rows.len() - i,
    {
        let parent = rows[i].parent.as_str();
        if !has_group(&groups, parent) {
            let vals = grouped_children_of(rows, parent);
            let ghost before = groups@;
            groups.push((rows[i].parent.clone(), vals));
            proof {
                let n = before.len() as int;
                assert(groups@[n].0@ == rows@[i as int].parent@);
                assert forall|j: int|
                    0 <= j < i + 1 implies exists|a: int| 0 <= a < groups@.len() && (#[trigger] groups@[a]).0@ == (#[trigger] rows@[j]).parent@ by {
                    if j == i {
                        assert(groups@[n].0@ == rows@[j].parent@);
                    } else {
                        let a = choose|a: int| 0 <= a < before.len() && (#[trigger] before[a]).0@ == rows@[j].parent@;
                        assert(groups@[a] == before[a]);
                    }
                }
                assert forall|a: int, b: int|
                    #![trigger groups@[a], groups@[b]]
                    0 <= a < b < groups@.len() implies groups@[a].0@ != groups@[b].0@ by {
                    if b == n {
                        assert(groups@[a] == before[a]);
                    } else {
                        assert(groups@[a] == before[a] && groups@[b] == before[b]);
                    }
                }
                assert forall|a: int|
                    0 <= a < groups@.len() implies string_views((#[trigger] groups@[a]).1@) == grouped(
                    rows@,
                    groups@[a].0@,
                ) by {
                    if a < n {
                        assert(groups@[a] == before[a]);
                    }
                }
            }
        } else {
            proof {
                let a = choose|a: int| 0 <= a < groups@.len() && (#[trigger] groups@[a]).0@ == parent@;
                assert(groups@[a].0@ == rows@[i as int].parent@);
            }
        }
        i += 1;
    }
    proof {
        assert forall|k: Seq<char>| #[trigger] values_under(groups@, k) == grouped(rows@, k) by {
            lemma_values_under_unique(groups@, k);
            if exists|a: int| 0 <= a < groups@.len() && (#[trigger] groups@[a]).0@ == k {
                let a = choose|a: int| 0 <= a < groups@.len() && (#[trigger] groups@[a]).0@ == k;
                assert(values_under(groups@, k) == string_views(groups@[a].1@));
            } else {
                assert forall|j: int| 0 <= j < rows@.len() implies (#[trigger] rows@[j]).parent@ != k by {
                    let a = choose|a: int| 0 <= a < groups@.len() && (#[trigger] groups@[a]).0@ == rows@[j].parent@;
                }
                lemma_children_absent(rows@, k);
                assert(values_of_timed(Seq::<Timed>::empty()) =~= Seq::<Seq<char>>::empty());
            }
        }
    }
    groups
}

proof fn lemma_values_under_unique(groups: Seq<(String, Vec<String>)>, k: Seq<char>)
    requires
        forall|a: int, b: int|
            #![trigger groups[a], groups[b]]
            0 <= a < b < groups.len() ==> groups[a].0@ != groups[b].0@,
    ensures
        forall|a: int|
            0 <= a < groups.len() && (#[trigger] groups[a]).0@ == k ==> values_under(groups, k)
                == string_views(groups[a].1@),
        (forall|a: int| 0 <= a < groups.len() ==> (#[trigger] groups[a]).0@ != k) ==> values_under(
            groups,
            k,
        ) == Seq::<Seq<char>>::empty(),
    decreases groups.len(),
{
    if groups.len() > 0 {
        let init = groups.drop_last();
        assert forall|a: int, b: int|
            #![trigger init[a], init[b]]
            0 <= a < b < init.len() implies init[a].0@ != init[b].0@ by {
            assert(init[a] == groups[a] && init[b] == groups[b]);
        }
        lemma_values_under_unique(init, k);
        assert forall|a: int|
            0 <= a < groups.len() && (#[trigger] groups[a]).0@ == k implies values_under(groups, k)
                == string_views(groups[a].1@) by {
            if a < groups.len() - 1 {
                assert(init[a] == groups[a]);
                assert(groups.last() == groups[groups.len() - 1]);
            }
        }
        if forall|a: int| 0 <= a < groups.len() ==> (#[trigger] groups[a]).0@ != k {
            assert forall|a: int| 0 <= a < init.len() implies (#[trigger] init[a]).0@ != k by {
                assert(init[a] == groups[a]);
            }
            assert(groups.last() == groups[groups.len() - 1]);
        }
    }
}

// ---------------------------------------------------------------------------
// Projections and their index rows
// ---------------------------------------------------------------------------

/// An event row of a run: the run, the event's kind, and whether it is the
/// run's latest event.
#[derive(Debug, Clone)]
pub struct RunEventRow {
    pub run_id: String,
    pub event_kind: String,
    pub is_latest: bool,
}

/// The index rows a thread graph is built from. Each `IndexRow` names a
/// parent, a child and the time the child was linked: intent → plan,
/// intent → task, plan → task, task → run (marking the task's latest run)
/// and run → patchset (ordered by patchset sequence, marking the run's
/// latest patchset).
#[derive(Debug, Clone)]
pub struct ProjectionIndexRows {
    pub intent_plans: Vec<IndexRow>,
    pub intent_tasks: Vec<IndexRow>,
    pub plan_tasks: Vec<IndexRow>,
    pub task_runs: Vec<IndexRow>,
    pub run_events: Vec<RunEventRow>,
    pub run_patchsets: Vec<IndexRow>,
}

/// One intent linked into a thread.
#[derive(Debug, Clone)]
pub struct ThreadIntentRef {
    pub intent_id: u128,
    pub ordinal: i64,
    pub is_head: bool,
    /// When the intent was linked, in milliseconds since the Unix epoch.
    pub linked_at_ms: i64,
    /// The name of the reason the intent was linked (`Seed`, ...).
    pub link_reason: String,
}

/// What the thread graph reads of a thread projection.
#[derive(Debug, Clone)]
pub struct ThreadProjection {
    pub thread_id: u128,
    pub title: Option<String>,
    pub current_intent_id: Option<u128>,
    pub latest_intent_id: Option<u128>,
    pub intents: Vec<ThreadIntentRef>,
    /// Last update, in milliseconds since the Unix epoch.
    pub updated_at_ms: i64,
    pub version: i64,
}

/// A thread projection with its scheduler state and the name of its
/// freshness (`Fresh`, ...).
#[derive(Debug, Clone)]
pub struct ThreadBundle {
    pub thread: ThreadProjection,
    pub scheduler: SchedulerState,
    pub freshness: String,
}

/// Whether a latest row of `rows` has child `c`.
pub open spec fn latest_child(rows: Seq<IndexRow>, c: Seq<char>) -> bool {
    exists|i: int| 0 <= i < rows.len() && (#[trigger] rows[i]).is_latest && rows[i].child@ == c
}

/// Whether a latest row among the first `n` of `rows` has child `c`.
pub open spec fn latest_child_before(rows: Seq<IndexRow>, n: int, c: Seq<char>) -> bool {
    exists|k: int| 0 <= k < n && (#[trigger] rows[k]).is_latest && rows[k].child@ == c
}

/// The children of the latest rows of `rows`.
fn latest_children(rows: &Vec<IndexRow>) -> (r: Vec<String>)
    ensures
        forall|c: Seq<char>| #[trigger] listed(r@, c) == latest_child(rows@, c),
{
    let mut out: Vec<String> = Vec::new();
    let mut i: usize = 0;
    while i < rows.len()
        invariant
            i <= rows.len(),
            forall|j: int| 0 <= j < out@.len() ==> latest_child_before(rows@, i as int, (#[trigger] out@[j])@),
            forall|k: int| 0 <= k < i && (#[trigger] rows@[k]).is_latest ==> listed(out@, rows@[k].child@),
        decreases rows.len() - i,
    {
        let ghost before = out@;
        if rows[i].is_latest {
            out.push(rows[i].child.clone());
        }
        proof {
            let n = before.len() as int;
            assert forall|k: int| 0 <= k < i + 1 && (#[trigger] rows@[k]).is_latest implies listed(
                out@,
                rows@[k].child@,
            ) by {
                if k < i {
                    let j = choose|j: int| 0 <= j < before.len() && (#[trigger] before[j])@ == rows@[k].child@;
                    assert(out@[j] == before[j]);
                } else {
                    assert(out@[n]@ == rows@[k].child@);
                }
            }
            assert forall|j: int| 0 <= j < out@.len() implies latest_child_before(
                rows@,
                i + 1,
                (#[trigger] out@[j])@,
            ) by {
                if j < n {
                    assert(out@[j] == before[j]);
                    assert(latest_child_before(rows@, i as int, before[j]@));
                    let k = choose|k: int| 0 <= k < i && (#[trigger] rows@[k]).is_latest && rows@[k].child@ == before[j]@;
                    assert(rows@[k].is_latest && rows@[k].child@ == out@[j]@);
                } else {
                    assert(rows@[i as int].is_latest && rows@[i as int].child@ == out@[j]@);
                }
            }
        }
        i += 1;
    }
    proof {
        assert forall|c: Seq<char>| #[trigger] listed(out@, c) == latest_child(rows@, c) by {
            if listed(out@, c) {
                let j = choose|j: int| 0 <= j < out@.len() && (#[trigger] out@[j])@ == c;
                assert(latest_child_before(rows@, i as int, out@[j]@));
                let k = choose|k: int| 0 <= k < i && (#[trigger] rows@[k]).is_latest && rows@[k].child@ == out@[j]@;
            }
            if latest_child(rows@, c) {
                let k = choose|k: int| 0 <= k < rows@.len() && (#[trigger] rows@[k]).is_latest && rows@[k].child@ == c;
            }
        }
    }
    out
}

/// The kind of the last latest event of `run` among `events`, if any.
pub open spec fn latest_event_of(events: Seq<RunEventRow>, run: Seq<char>) -> Option<Seq<char>>
    decreases events.len(),
{
    if events.len() == 0 {
        None
    } else if events.last().is_latest && events.last().run_id@ == run {
        Some(events.last().event_kind@)
    } else {
        latest_event_of(events.drop_last(), run)
    }
}

/// The latest events as (run, kind) pairs, later rows after earlier ones.
fn latest_events(events: &Vec<RunEventRow>) -> (r: Vec<(String, String)>)
    ensures
        forall|run: Seq<char>| #[trigger] value_of(r@, run) == latest_event_of(events@, run),
{
    let mut out: Vec<(String, String)> = Vec::new();
    let mut i: usize = 0;
    while i < events.len()
        invariant
            i <= events.len(),
            forall|run: Seq<char>|
                #[trigger] value_of(out@, run) == latest_event_of(events@.subrange(0, i as int), run),
        decreases events.len() - i,
    {
        let ghost before = out@;
        let ghost pre = events@.subrange(0, i + 1);
        assert(pre.drop_last() =~= events@.subrange(0, i as int));
        assert(pre.last() == events@[i as int]);
        if events[i].is_latest {
            out.push((events[i].run_id.clone(), events[i].event_kind.clone()));
            assert(out@.drop_last() =~= before);
        }
        assert forall|run: Seq<char>| #[trigger] value_of(out@, run) == latest_event_of(pre, run) by {
            assert(value_of(before, run) == latest_event_of(events@.subrange(0, i as int), run));
        }
        i += 1;
    }
    assert(events@.subrange(0, events.len() as int) =~= events@);
    out
}

/// Whether one of `heads` names plan `plan`.
pub open spec fn plan_listed(heads: Seq<PlanHeadRef>, plan: Seq<char>) -> bool {
    exists|i: int| 0 <= i < heads.len() && uuid_text((#[trigger] heads[i]).plan_id) == plan
}

fn plan_texts(heads: &Vec<PlanHeadRef>) -> (r: Vec<String>)
    ensures
        forall|c: Seq<char>| #[trigger] listed(r@, c) == plan_listed(heads@, c),
{
    let mut out: Vec<String> = Vec::new();
    let mut i: usize = 0;
    while i < heads.len()
        invariant
            i <= heads.len(),
            out@.len() == i,
            forall|j: int| 0 <= j < i ==> (#[trigger] out@[j])@ == uuid_text(heads@[j].plan_id),
        decreases heads.len() - i,
    {
        out.push(uuid_string(heads[i].plan_id));
        i += 1;
    }
    proof {
        assert forall|c: Seq<char>| #[trigger] listed(out@, c) == plan_listed(heads@, c) by {
            if listed(out@, c) {
                let j = choose|j: int| 0 <= j < out@.len() && (#[trigger] out@[j])@ == c;
                assert(uuid_text(heads@[j].plan_id) == c);
            }
            if plan_listed(heads@, c) {
                let j = choose|j: int| 0 <= j < heads@.len() && uuid_text((#[trigger] heads@[j]).plan_id) == c;
                assert(out@[j]@ == c);
            }
        }
    }
    out
}

proof fn lemma_listed_push(v: Seq<String>, x: String)
    ensures
        forall|t: Seq<char>| #[trigger] listed(v.push(x), t) == (listed(v, t) || x@ == t),
{
    assert forall|t: Seq<char>| #[trigger] listed(v.push(x), t) == (listed(v, t) || x@ == t) by {
        let w = v.push(x);
        if listed(w, t) {
            let j = choose|j: int| 0 <= j < w.len() && (#[trigger] w[j])@ == t;
            if j < v.len() {
                assert(v[j] == w[j]);
            }
        }
        if listed(v, t) {
            let j = choose|j: int| 0 <= j < v.len() && (#[trigger] v[j])@ == t;
            assert(w[j] == v[j]);
        }
        if x@ == t {
            assert(w[v.len() as int] == x);
        }
    }
}

/// An intent of the thread with the text of when it was linked.
pub struct IntentItem {
    pub intent_id: u128,
    pub ordinal: i64,
    pub is_head: bool,
    pub link_reason: Seq<char>,
    pub linked_at: Seq<char>,
}

/// The intents of a thread with their link times as text, in list order.
pub open spec fn intent_items(intents: Seq<ThreadIntentRef>, linked_at: Seq<Seq<char>>) -> Seq<IntentItem> {
    Seq::new(
        intents.len(),
        |i: int|
            IntentItem {
                intent_id: intents[i].intent_id,
                ordinal: intents[i].ordinal,
                is_head: intents[i].is_head,
                link_reason: intents[i].link_reason@,
                linked_at: linked_at[i],
            },
    )
}

/// Intents by ordinal.
pub open spec fn ordinal_order() -> spec_fn(IntentItem, IntentItem) -> bool {
    |a: IntentItem, b: IntentItem| a.ordinal <= b.ordinal
}

/// The items at the positions `order`.
pub open spec fn items_at(items: Seq<IntentItem>, order: Seq<usize>) -> Seq<IntentItem> {
    order.map_values(|j: usize| items[j as int])
}

/// The positions of the intents in ordinal order, equal ordinals keeping
/// their list order (`sort_by_key`).
fn sort_intents(intents: &Vec<ThreadIntentRef>, Ghost(items): Ghost<Seq<IntentItem>>) -> (order: Vec<usize>)
    requires
        items.len() == intents@.len(),
        forall|i: int| 0 <= i < items.len() ==> (#[trigger] items[i]).ordinal == intents@[i].ordinal,
    ensures
        forall|k: int| 0 <= k < order@.len() ==> (#[trigger] order@[k]) < intents@.len(),
        items_at(items, order@) == insertion_sort(items, ordinal_order()),
{
    let mut order: Vec<usize> = Vec::new();
    let mut i: usize = 0;
    assert(items_at(items, order@) =~= insertion_sort(items.subrange(0, 0), ordinal_order()));
    while i < intents.len()
        invariant
            i <= intents@.len(),
            items.len() == intents@.len(),
            forall|i: int| 0 <= i < items.len() ==> (#[trigger] items[i]).ordinal == intents@[i].ordinal,
            forall|k: int| 0 <= k < order@.len() ==> (#[trigger] order@[k]) < i,
            items_at(items, order@) == insertion_sort(items.subrange(0, i as int), ordinal_order()),
        decreases intents.len() - i,
    {
        let ghost s = items_at(items, order@);
        let ghost x = items[i as int];
        let ord = intents[i].ordinal;
        let mut p: usize = 0;
        while p < order.len() && intents[order[p]].ordinal <= ord
            invariant
                p <= order@.len(),
                i < intents@.len(),
                items.len() == intents@.len(),
                forall|i: int| 0 <= i < items.len() ==> (#[trigger] items[i]).ordinal == intents@[i].ordinal,
                forall|k: int| 0 <= k < order@.len() ==> (#[trigger] order@[k]) < i,
                s == items_at(items, order@),
                x == items[i as int],
                ord == intents@[i as int].ordinal,
                forall|k: int| 0 <= k < p ==> (ordinal_order())(#[trigger] s[k], x),
            decreases order@.len() - p,
        {
            assert(s[p as int] == items[order@[p as int] as int]);
            p += 1;
        }
        proof {
            if p < order@.len() {
                assert(s[p as int] == items[order@[p as int] as int]);
            }
            lemma_insert_at(s, x, ordinal_order(), p as int);
        }
        order.insert(p, i);
        proof {
            assert(items_at(items, order@) =~= s.insert(p as int, x));
            assert(items.subrange(0, i + 1).drop_last() =~= items.subrange(0, i as int));
            assert(items.subrange(0, i + 1).last() == x);
        }
        i += 1;
    }
    assert(items.subrange(0, intents.len() as int) =~= items);
    order
}

// ---------------------------------------------------------------------------
// The lines of a projection
// ---------------------------------------------------------------------------

/// The text of an optional UUID.
pub open spec fn uuid_opt(o: Option<u128>) -> Option<Seq<char>> {
    match o {
        Some(x) => Some(uuid_text(x)),
        None => None,
    }
}

/// What the task subgraphs of a projection read: the index rows grouped and
/// marked as the graph shows them, the scheduler's active task and run, and
/// the loaded object details.
pub open spec fn projection_index(b: ThreadBundle, rows: ProjectionIndexRows, d: GraphObjectDetails) -> SubgraphIndexView {
    SubgraphIndexView {
        runs_of: |t: Seq<char>| grouped(rows.task_runs@, t),
        patchsets_of: |r: Seq<char>| grouped(rows.run_patchsets@, r),
        latest_run: |r: Seq<char>| latest_child(rows.task_runs@, r),
        latest_event: |r: Seq<char>| latest_event_of(rows.run_events@, r),
        latest_patchset: |p: Seq<char>| latest_child(rows.run_patchsets@, p),
        active_task: uuid_opt(b.scheduler.active_task_id),
        active_run: uuid_opt(b.scheduler.active_run_id),
        object: |k: GraphNodeKind, id: Seq<char>| d.lookup(k, id),
    }
}

/// The line of intent `it`: labelled by ordinal and short id, tagged with
/// its link reason, then `head`, `current` and `latest` where they hold.
pub open spec fn intent_line(b: ThreadBundle, ix: SubgraphIndexView, it: IntentItem) -> LineView {
    let id = uuid_text(it.intent_id);
    LineView {
        depth: 0,
        kind: GraphNodeKind::Intent,
        id: id,
        label: "#"@ + int_text(it.ordinal as int) + " "@ + short(id),
        tags: seq![it.link_reason] + (if it.is_head {
            seq!["head"@]
        } else {
            Seq::empty()
        }) + (if b.thread.current_intent_id == Some(it.intent_id) {
            seq!["current"@]
        } else {
            Seq::empty()
        }) + (if b.thread.latest_intent_id == Some(it.intent_id) {
            seq!["latest"@]
        } else {
            Seq::empty()
        }),
        detail: seq![
            ("intent_id"@, id),
            ("ordinal"@, int_text(it.ordinal as int)),
            ("link_reason"@, it.link_reason),
            ("is_head"@, bool_text(it.is_head)),
            ("linked_at"@, it.linked_at),
        ],
        object: (ix.object)(GraphNodeKind::Intent, id),
    }
}

/// The line of plan `plan`, tagged `selected` and `head` where the
/// scheduler lists it so.
pub open spec fn plan_line(b: ThreadBundle, ix: SubgraphIndexView, plan: Seq<char>) -> LineView {
    let selected = plan_listed(b.scheduler.selected_plan_ids@, plan);
    let head = plan_listed(b.scheduler.current_plan_heads@, plan);
    LineView {
        depth: 1,
        kind: GraphNodeKind::Plan,
        id: plan,
        label: short(plan),
        tags: (if selected {
            seq!["selected"@]
        } else {
            Seq::empty()
        }) + (if head {
            seq!["head"@]
        } else {
            Seq::empty()
        }),
        detail: seq![("plan_id"@, plan), ("selected"@, bool_text(selected)), ("plan_head"@, bool_text(head))],
        object: (ix.object)(GraphNodeKind::Plan, plan),
    }
}

/// The subgraphs of `tasks` at `depth`, one after another.
pub open spec fn task_sections(ix: SubgraphIndexView, tasks: Seq<Seq<char>>, depth: int) -> Seq<LineView>
    decreases tasks.len(),
{
    if tasks.len() == 0 {
        Seq::empty()
    } else {
        task_sections(ix, tasks.drop_last(), depth) + task_subgraph(ix, tasks.last(), depth)
    }
}

/// Whether one of `plans` lists task `t`.
pub open spec fn shown_under_plans(rows: ProjectionIndexRows, plans: Seq<Seq<char>>, t: Seq<char>) -> bool
    decreases plans.len(),
{
    if plans.len() == 0 {
        false
    } else {
        shown_under_plans(rows, plans.drop_last(), t) || grouped(rows.plan_tasks@, plans.last()).contains(t)
    }
}

/// The lines of `plans`: each plan, then the subgraphs of its tasks at
/// depth 2.
pub open spec fn plan_sections(
    b: ThreadBundle,
    rows: ProjectionIndexRows,
    ix: SubgraphIndexView,
    plans: Seq<Seq<char>>,
) -> Seq<LineView>
    decreases plans.len(),
{
    if plans.len() == 0 {
        Seq::empty()
    } else {
        plan_sections(b, rows, ix, plans.drop_last()) + seq![plan_line(b, ix, plans.last())]
            + task_sections(ix, grouped(rows.plan_tasks@, plans.last()), 2)
    }
}

/// The subgraphs at depth 1 of those of `tasks` that are neither `shown`
/// nor listed earlier in `tasks`.
pub open spec fn loose_task_sections(
    ix: SubgraphIndexView,
    tasks: Seq<Seq<char>>,
    shown: spec_fn(Seq<char>) -> bool,
) -> Seq<LineView>
    decreases tasks.len(),
{
    if tasks.len() == 0 {
        Seq::empty()
    } else {
        let t = tasks.last();
        let pre = tasks.drop_last();
        loose_task_sections(ix, pre, shown) + (if shown(t) || pre.contains(t) {
            Seq::empty()
        } else {
            task_subgraph(ix, t, 1)
        })
    }
}

/// The lines of intent `it`: the intent, its plans with their tasks, then
/// its own tasks that no plan of it showed.
pub open spec fn intent_section(
    b: ThreadBundle,
    rows: ProjectionIndexRows,
    ix: SubgraphIndexView,
    it: IntentItem,
) -> Seq<LineView> {
    let id = uuid_text(it.intent_id);
    let plans = grouped(rows.intent_plans@, id);
    seq![intent_line(b, ix, it)] + plan_sections(b, rows, ix, plans) + loose_task_sections(
        ix,
        grouped(rows.intent_tasks@, id),
        |t: Seq<char>| shown_under_plans(rows, plans, t),
    )
}

/// The sections of `items`, one after another.
pub open spec fn intent_sections(
    b: ThreadBundle,
    rows: ProjectionIndexRows,
    ix: SubgraphIndexView,
    items: Seq<IntentItem>,
) -> Seq<LineView>
    decreases items.len(),
{
    if items.len() == 0 {
        Seq::empty()
    } else {
        intent_sections(b, rows, ix, items.drop_last()) + intent_section(b, rows, ix, items.last())
    }
}

/// The lines of the thread graph of a projection: the sections of its
/// intents in ordinal order, where `linked_at` holds the text of when each
/// intent (in list order) was linked.
pub open spec fn projection_lines(
    b: ThreadBundle,
    rows: ProjectionIndexRows,
    d: GraphObjectDetails,
    linked_at: Seq<Seq<char>>,
) -> Seq<LineView> {
    intent_sections(
        b,
        rows,
        projection_index(b, rows, d),
        insertion_sort(intent_items(b.thread.intents@, linked_at), ordinal_order()),
    )
}

proof fn lemma_prefix_contains(s: Seq<Seq<char>>, i: int)
    requires
        0 <= i < s.len(),
    ensures
        forall|t: Seq<char>|
            #[trigger] s.subrange(0, i + 1).contains(t) == (s.subrange(0, i).contains(t) || s[i] == t),
{
    assert forall|t: Seq<char>|
        #[trigger] s.subrange(0, i + 1).contains(t) == (s.subrange(0, i).contains(t) || s[i] == t) by {
        let a = s.subrange(0, i + 1);
        let p = s.subrange(0, i);
        if a.contains(t) {
            let k = choose|k: int| 0 <= k < a.len() && a[k] == t;
            if k < i {
                assert(p[k] == t);
            }
        }
        if p.contains(t) {
            let k = choose|k: int| 0 <= k < p.len() && p[k] == t;
            assert(a[k] == t);
        }
        if s[i] == t {
            assert(a[i] == t);
        }
    }
}

fn push_task_sections(
    graph_rows: &mut Vec<GraphLine>,
    tasks: &Vec<String>,
    depth: usize,
    ix: &SubgraphIndex,
    displayed: &mut Vec<String>,
)
    requires
        depth + 2 <= usize::MAX,
    ensures
        lines_view(final(graph_rows)@) == lines_view(old(graph_rows)@) + task_sections(
            ix@,
            string_views(tasks@),
            depth as int,
        ),
        forall|t: Seq<char>|
            #[trigger] listed(final(displayed)@, t) == (listed(old(displayed)@, t) || string_views(tasks@).contains(t)),
{
    let ghost start = lines_view(graph_rows@);
    let ghost d0 = displayed@;
    let ghost tv = string_views(tasks@);
    let mut i: usize = 0;
    assert(tv.subrange(0, 0) =~= Seq::<Seq<char>>::empty());
    assert(start + task_sections(ix@, tv.subrange(0, 0), depth as int) =~= start);
    while i < tasks.len()
        invariant
            i <= tasks.len(),
            depth + 2 <= usize::MAX,
            tv == string_views(tasks@),
            lines_view(graph_rows@) == start + task_sections(ix@, tv.subrange(0, i as int), depth as int),
            forall|t: Seq<char>| #[trigger] listed(displayed@, t) == (listed(d0, t) || tv.subrange(0, i as int).contains(t)),
        decreases tasks.len() - i,
    {
        let ghost before = lines_view(graph_rows@);
        let ghost dbefore = displayed@;
        proof {
            assert(tv.subrange(0, i + 1).drop_last() =~= tv.subrange(0, i as int));
            assert(tv.subrange(0, i + 1).last() == tv[i as int]);
            assert(tv[i as int] == tasks@[i as int]@);
            lemma_prefix_contains(tv, i as int);
        }
        displayed.push(tasks[i].clone());
        push_task_subgraph(graph_rows, tasks[i].as_str(), depth, ix);
        proof {
            lemma_listed_push(dbefore, tasks@[i as int]);
            assert(lines_view(graph_rows@) =~= start + task_sections(ix@, tv.subrange(0, i + 1), depth as int));
        }
        i += 1;
    }
    assert(tv.subrange(0, tasks.len() as int) =~= tv);
}

fn push_loose_tasks(
    graph_rows: &mut Vec<GraphLine>,
    tasks: &Vec<String>,
    ix: &SubgraphIndex,
    displayed: &mut Vec<String>,
    Ghost(shown): Ghost<spec_fn(Seq<char>) -> bool>,
)
    requires
        forall|t: Seq<char>| #[trigger] listed(old(displayed)@, t) == shown(t),
    ensures
        lines_view(final(graph_rows)@) == lines_view(old(graph_rows)@) + loose_task_sections(
            ix@,
            string_views(tasks@),
            shown,
        ),
{
    let ghost start = lines_view(graph_rows@);
    let ghost tv = string_views(tasks@);
    let mut i: usize = 0;
    assert(tv.subrange(0, 0) =~= Seq::<Seq<char>>::empty());
    assert(start + loose_task_sections(ix@, tv.subrange(0, 0), shown) =~= start);
    while i < tasks.len()
        invariant
            i <= tasks.len(),
            tv == string_views(tasks@),
            lines_view(graph_rows@) == start + loose_task_sections(ix@, tv.subrange(0, i as int), shown),
            forall|t: Seq<char>| #[trigger] listed(displayed@, t) == (shown(t) || tv.subrange(0, i as int).contains(t)),
        decreases tasks.len() - i,
    {
        let ghost before = lines_view(graph_rows@);
        let ghost dbefore = displayed@;
        let ghost t = tv[i as int];
        proof {
            assert(tv.subrange(0, i + 1).drop_last() =~= tv.subrange(0, i as int));
            assert(tv.subrange(0, i + 1).last() == t);
            assert(t == tasks@[i as int]@);
            lemma_prefix_contains(tv, i as int);
        }
        let seen = listed_exec(displayed, tasks[i].as_str());
        if !seen {
            displayed.push(tasks[i].clone());
            push_task_subgraph(graph_rows, tasks[i].as_str(), 1, ix);
            proof {
                lemma_listed_push(dbefore, tasks@[i as int]);
            }
        }
        proof {
            assert(lines_view(graph_rows@) =~= start + loose_task_sections(ix@, tv.subrange(0, i + 1), shown));
        }
        i += 1;
    }
    assert(tv.subrange(0, tasks.len() as int) =~= tv);
}

/// The index rows grouped by parent as the graph lists them, and the text
/// of the scheduler's selected plans and plan heads.
struct ProjectionGroups {
    plans_by_intent: Vec<(String, Vec<String>)>,
    tasks_by_intent: Vec<(String, Vec<String>)>,
    tasks_by_plan: Vec<(String, Vec<String>)>,
    selected: Vec<String>,
    heads: Vec<String>,
}

spec fn groups_match(g: ProjectionGroups, b: ThreadBundle, rows: ProjectionIndexRows) -> bool {
    &&& forall|k: Seq<char>| #[trigger] values_under(g.plans_by_intent@, k) == grouped(rows.intent_plans@, k)
    &&& forall|k: Seq<char>| #[trigger] values_under(g.tasks_by_intent@, k) == grouped(rows.intent_tasks@, k)
    &&& forall|k: Seq<char>| #[trigger] values_under(g.tasks_by_plan@, k) == grouped(rows.plan_tasks@, k)
    &&& forall|c: Seq<char>| #[trigger] listed(g.selected@, c) == plan_listed(b.scheduler.selected_plan_ids@, c)
    &&& forall|c: Seq<char>| #[trigger] listed(g.heads@, c) == plan_listed(b.scheduler.current_plan_heads@, c)
}

fn push_plan_sections(
    graph_rows: &mut Vec<GraphLine>,
    plans: &Vec<String>,
    g: &ProjectionGroups,
    ix: &SubgraphIndex,
    displayed: &mut Vec<String>,
    Ghost(b): Ghost<ThreadBundle>,
    Ghost(rows): Ghost<ProjectionIndexRows>,
)
    requires
        groups_match(*g, b, rows),
    ensures
        lines_view(final(graph_rows)@) == lines_view(old(graph_rows)@) + plan_sections(
            b,
            rows,
            ix@,
            string_views(plans@),
        ),
        forall|t: Seq<char>|
            #[trigger] listed(final(displayed)@, t) == (listed(old(displayed)@, t) || shown_under_plans(
                rows,
                string_views(plans@),
                t,
            )),
{
    proof {
        reveal_strlit("selected");
        reveal_strlit("head");
    }
    let ghost start = lines_view(graph_rows@);
    let ghost d0 = displayed@;
    let ghost pv = string_views(plans@);
    let mut i: usize = 0;
    assert(pv.subrange(0, 0) =~= Seq::<Seq<char>>::empty());
    assert(start + plan_sections(b, rows, ix@, pv.subrange(0, 0)) =~= start);
    while i < plans.len()
        invariant
            i <= plans.len(),
            groups_match(*g, b, rows),
            pv == string_views(plans@),
            lines_view(graph_rows@) == start + plan_sections(b, rows, ix@, pv.subrange(0, i as int)),
            forall|t: Seq<char>|
                #[trigger] listed(displayed@, t) == (listed(d0, t) || shown_under_plans(rows, pv.subrange(0, i as int), t)),
        decreases plans.len() - i,
    {
        let plan = plans[i].as_str();
        let ghost p = pv[i as int];
        let ghost before = lines_view(graph_rows@);
        proof {
            assert(pv.subrange(0, i + 1).drop_last() =~= pv.subrange(0, i as int));
            assert(pv.subrange(0, i + 1).last() == p);
            assert(p == plan@);
        }
        let selected = listed_exec(&g.selected, plan);
        let head = listed_exec(&g.heads, plan);
        let mut tags: Vec<String> = Vec::new();
        if selected {
            tags.push(String::from_str("selected"));
        }
        if head {
            tags.push(String::from_str("head"));
        }
        let mut detail: Vec<(String, String)> = Vec::new();
        detail.push(one_pair("plan_id", String::from_str(plan)));
        detail.push(one_pair("selected", bool_string(selected)));
        detail.push(one_pair("plan_head", bool_string(head)));
        let line = GraphLine {
            depth: 1,
            kind: GraphNodeKind::Plan,
            id: String::from_str(plan),
            label: short_id(plan),
            tags,
            detail,
            object: ix.object_details.get(GraphNodeKind::Plan, plan),
        };
        graph_rows.push(line);
        proof {
            let l = lines_view(graph_rows@).last();
            assert(l.tags =~= plan_line(b, ix@, p).tags);
            assert(l.detail =~= plan_line(b, ix@, p).detail);
            assert(l == plan_line(b, ix@, p));
            assert(lines_view(graph_rows@) =~= before.push(plan_line(b, ix@, p)));
        }
        let tasks = values_under_exec(&g.tasks_by_plan, plan);
        push_task_sections(graph_rows, &tasks, 2, ix, displayed);
        proof {
            assert(lines_view(graph_rows@) =~= start + plan_sections(b, rows, ix@, pv.subrange(0, i + 1)));
        }
        i += 1;
    }
    assert(pv.subrange(0, plans.len() as int) =~= pv);
}

fn same_id(o: Option<u128>, id: u128) -> (r: bool)
    ensures
        r == (o == Some(id)),
{
    match o {
        Some(x) => x == id,
        None => false,
    }
}

fn push_intent_section(
    graph_rows: &mut Vec<GraphLine>,
    intent: &ThreadIntentRef,
    linked_at: &String,
    current: Option<u128>,
    latest: Option<u128>,
    g: &ProjectionGroups,
    ix: &SubgraphIndex,
    Ghost(b): Ghost<ThreadBundle>,
    Ghost(rows): Ghost<ProjectionIndexRows>,
)
    requires
        groups_match(*g, b, rows),
        current == b.thread.current_intent_id,
        latest == b.thread.latest_intent_id,
    ensures
        lines_view(final(graph_rows)@) == lines_view(old(graph_rows)@) + intent_section(
            b,
            rows,
            ix@,
            IntentItem {
                intent_id: intent.intent_id,
                ordinal: intent.ordinal,
                is_head: intent.is_head,
                link_reason: intent.link_reason@,
                linked_at: linked_at@,
            },
        ),
{
    proof {
        reveal_strlit("head");
        reveal_strlit("current");
        reveal_strlit("latest");
    }
    let ghost it = IntentItem {
        intent_id: intent.intent_id,
        ordinal: intent.ordinal,
        is_head: intent.is_head,
        link_reason: intent.link_reason@,
        linked_at: linked_at@,
    };
    let ghost start = lines_view(graph_rows@);
    let id = uuid_string(intent.intent_id);
    let mut tags: Vec<String> = Vec::new();
    tags.push(intent.link_reason.clone());
    if intent.is_head {
        tags.push(String::from_str("head"));
    }
    if same_id(current, intent.intent_id) {
        tags.push(String::from_str("current"));
    }
    if same_id(latest, intent.intent_id) {
        tags.push(String::from_str("latest"));
    }
    let ordinal = i64_string(intent.ordinal);
    let short_text = short_id(id.as_str());
    let head_text = concat3("#", ordinal.as_str(), " ");
    let label = concat(head_text.as_str(), short_text.as_str());
    let mut detail: Vec<(String, String)> = Vec::new();
    detail.push(one_pair("intent_id", id.clone()));
    detail.push(one_pair("ordinal", ordinal));
    detail.push(one_pair("link_reason", intent.link_reason.clone()));
    detail.push(one_pair("is_head", bool_string(intent.is_head)));
    detail.push(one_pair("linked_at", linked_at.clone()));
    let line = GraphLine {
        depth: 0,
        kind: GraphNodeKind::Intent,
        id: id.clone(),
        label,
        tags,
        detail,
        object: ix.object_details.get(GraphNodeKind::Intent, id.as_str()),
    };
    graph_rows.push(line);
    proof {
        let l = lines_view(graph_rows@).last();
        assert(l.tags =~= intent_line(b, ix@, it).tags);
        assert(l.detail =~= intent_line(b, ix@, it).detail);
        assert(l.label =~= intent_line(b, ix@, it).label);
        assert(l == intent_line(b, ix@, it));
        assert(lines_view(graph_rows@) =~= start.push(intent_line(b, ix@, it)));
    }
    let ghost mid = lines_view(graph_rows@);
    let plans = values_under_exec(&g.plans_by_intent, id.as_str());
    let mut displayed: Vec<String> = Vec::new();
    push_plan_sections(graph_rows, &plans, g, ix, &mut displayed, Ghost(b), Ghost(rows));
    let ghost shown = |t: Seq<char>| shown_under_plans(rows, string_views(plans@), t);
    let ghost mid2 = lines_view(graph_rows@);
    let tasks = values_under_exec(&g.tasks_by_intent, id.as_str());
    proof {
        assert forall|t: Seq<char>| #[trigger] listed(displayed@, t) == shown(t) by {
            assert(!listed(Seq::<String>::empty(), t));
        }
    }
    push_loose_tasks(graph_rows, &tasks, ix, &mut displayed, Ghost(shown));
    proof {
        assert(lines_view(graph_rows@) =~= start + intent_section(b, rows, ix@, it));
    }
}

/// Whether `g` is the thread graph of projection `b` with index rows `rows`
/// and object details `d`, where `linked_at` holds the text of when each
/// intent (in list order) was linked.
pub open spec fn graph_of_projection(
    g: ThreadGraph,
    b: ThreadBundle,
    rows: ProjectionIndexRows,
    d: GraphObjectDetails,
    linked_at: Seq<Seq<char>>,
) -> bool {
    &&& g.thread_id@ == uuid_text(b.thread.thread_id)
    &&& opt_view(g.title) == opt_view(b.thread.title)
    &&& g.freshness@ == b.freshness@
    &&& g.thread_version == b.thread.version
    &&& g.scheduler_version == b.scheduler.version
    &&& g.updated_at_ms == (if b.thread.updated_at_ms >= b.scheduler.updated_at {
        b.thread.updated_at_ms
    } else {
        b.scheduler.updated_at
    })
    &&& opt_view(g.selected_plan_id) == uuid_opt(b.scheduler.selected_plan_id)
    &&& opt_view(g.active_task_id) == uuid_opt(b.scheduler.active_task_id)
    &&& opt_view(g.active_run_id) == uuid_opt(b.scheduler.active_run_id)
    &&& g.code_ui_status is None
    &&& g.code_ui_transcript_len == 0
    &&& g.code_ui_pending_interactions == 0
    &&& lines_view(g.lines@) == projection_lines(b, rows, d, linked_at)
}

fn uuid_opt_string(o: Option<u128>) -> (r: Option<String>)
    ensures
        opt_view(r) == uuid_opt(o),
{
    match o {
        Some(x) => Some(uuid_string(x)),
        None => None,
    }
}

impl ThreadGraph {
    /// The thread graph of a projection, given the text of when each intent
    /// (in list order) was linked: each intent in ordinal order with its
    /// plans and their tasks, runs and patchsets, then its own tasks that no
    /// plan of it showed.
    pub fn from_projection_with_times(
        bundle: ThreadBundle,
        rows: ProjectionIndexRows,
        object_details: GraphObjectDetails,
        linked_at: &Vec<String>,
    ) -> (r: ThreadGraph)
        requires
            linked_at@.len() == bundle.thread.intents@.len(),
        ensures
            graph_of_projection(r, bundle, rows, object_details, string_views(linked_at@)),
    {
        let ghost b = bundle;
        let ghost d = object_details;
        let ix = SubgraphIndex {
            runs_by_task: group_rows(&rows.task_runs),
            patchsets_by_run: group_rows(&rows.run_patchsets),
            latest_runs: latest_children(&rows.task_runs),
            latest_run_events: latest_events(&rows.run_events),
            latest_patchsets: latest_children(&rows.run_patchsets),
            active_task_id: uuid_opt_string(bundle.scheduler.active_task_id),
            active_run_id: uuid_opt_string(bundle.scheduler.active_run_id),
            object_details,
        };
        proof {
            let v = projection_index(b, rows, d);
            assert(ix@.runs_of =~= v.runs_of);
            assert(ix@.patchsets_of =~= v.patchsets_of);
            assert(ix@.latest_run =~= v.latest_run);
            assert(ix@.latest_event =~= v.latest_event);
            assert(ix@.latest_patchset =~= v.latest_patchset);
            assert(ix@.object =~= v.object);
            assert(ix@ =~= v);
        }
        let g = ProjectionGroups {
            plans_by_intent: group_rows(&rows.intent_plans),
            tasks_by_intent: group_rows(&rows.intent_tasks),
            tasks_by_plan: group_rows(&rows.plan_tasks),
            selected: plan_texts(&bundle.scheduler.selected_plan_ids),
            heads: plan_texts(&bundle.scheduler.current_plan_heads),
        };
        let ghost items = intent_items(bundle.thread.intents@, string_views(linked_at@));
        let order = sort_intents(&bundle.thread.intents, Ghost(items));
        let ghost sorted = items_at(items, order@);
        let mut graph_rows: Vec<GraphLine> = Vec::new();
        let mut k: usize = 0;
        assert(sorted.subrange(0, 0) =~= Seq::<IntentItem>::empty());
        assert(lines_view(graph_rows@) =~= intent_sections(b, rows, ix@, sorted.subrange(0, 0)));
        while k < order.len()
            invariant
                k <= order@.len(),
                b == bundle,
                groups_match(g, b, rows),
                items == intent_items(bundle.thread.intents@, string_views(linked_at@)),
                linked_at@.len() == bundle.thread.intents@.len(),
                forall|j: int| 0 <= j < order@.len() ==> (#[trigger] order@[j]) < bundle.thread.intents@.len(),
                sorted == items_at(items, order@),
                lines_view(graph_rows@) == intent_sections(b, rows, ix@, sorted.subrange(0, k as int)),
            decreases order.len() - k,
        {
            let j = order[k];
            proof {
                assert(sorted.subrange(0, k + 1).drop_last() =~= sorted.subrange(0, k as int));
                assert(sorted.subrange(0, k + 1).last() == sorted[k as int]);
                assert(sorted[k as int] == items[j as int]);
                assert(string_views(linked_at@)[j as int] == linked_at@[j as int]@);
                assert(items[j as int] == IntentItem {
                    intent_id: bundle.thread.intents@[j as int].intent_id,
                    ordinal: bundle.thread.intents@[j as int].ordinal,
                    is_head: bundle.thread.intents@[j as int].is_head,
                    link_reason: bundle.thread.intents@[j as int].link_reason@,
                    linked_at: linked_at@[j as int]@,
                });
            }
            push_intent_section(
                &mut graph_rows,
                &bundle.thread.intents[j],
                &linked_at[j],
                bundle.thread.current_intent_id,
                bundle.thread.latest_intent_id,
                &g,
                &ix,
                Ghost(b),
                Ghost(rows),
            );
            k += 1;
        }
        proof {
            assert(sorted.subrange(0, order@.len() as int) =~= sorted);
        }
        let updated_at_ms = if bundle.thread.updated_at_ms >= bundle.scheduler.updated_at {
            bundle.thread.updated_at_ms
        } else {
            bundle.scheduler.updated_at
        };
        ThreadGraph {
            thread_id: uuid_string(bundle.thread.thread_id),
            title: copy_opt(&bundle.thread.title),
            freshness: bundle.freshness.clone(),
            thread_version: bundle.thread.version,
            scheduler_version: bundle.scheduler.version,
            updated_at_ms,
            selected_plan_id: uuid_opt_string(bundle.scheduler.selected_plan_id),
            active_task_id: uuid_opt_string(bundle.scheduler.active_task_id),
            active_run_id: uuid_opt_string(bundle.scheduler.active_run_id),
            code_ui_status: None,
            code_ui_transcript_len: 0,
            code_ui_pending_interactions: 0,
            lines: graph_rows,
        }
    }
}

/// The text chrono gives the instant `ms` milliseconds after the Unix epoch,
/// written with the strftime-style `pattern`, or none when chrono cannot
/// represent that instant.
pub uninterp spec fn utc_timestamp_text(ms: i64, pattern: Seq<char>) -> Option<Seq<char>>;

/// The pattern in which link times are shown: `YYYY-MM-DD HH:MM:SS UTC`.
pub open spec fn link_time_pattern() -> Seq<char> {
    "%Y-%m-%d %H:%M:%S UTC"@
}

/// Formats the instant `ms` milliseconds after the Unix epoch in the
/// link-time pattern with chrono (`chrono::DateTime::from_timestamp_millis`,
/// then `format(pattern)`). The contract claims only that the result is the
/// named text of `ms` and the pattern, and that it is some text within
/// `CHRONO_SAFE_MILLIS` of the epoch (`from_timestamp_millis` returns `None`
/// only past chrono's years -262,143 to 262,142); the calendar arithmetic
/// is chrono's and is not stated here. Only the
/// link-time pattern is admitted: chrono's `to_string` panics on a pattern
/// it cannot render, and that one it renders.
#[verifier::external_body]
fn format_timestamp(ms: i64, pattern: &str) -> (r: Option<String>)
    requires
        pattern@ == link_time_pattern(),
    ensures
        opt_view(r) == utc_timestamp_text(ms, pattern@),
        -CHRONO_SAFE_MILLIS <= ms <= CHRONO_SAFE_MILLIS ==> r is Some,
{
    match chrono::DateTime::from_timestamp_millis(ms) {
        Some(t) => Some(t.format(pattern).to_string()),
        None => None,
    }
}

/// Milliseconds from the epoch within which chrono represents every instant
/// (8·10¹² seconds, about 253,500 years; chrono's dates run from year
/// -262,143 to 262,142).
pub const CHRONO_SAFE_MILLIS: i64 = 8_000_000_000_000_000;

/// Whether every intent was linked within `CHRONO_SAFE_MILLIS` of the epoch.
pub open spec fn link_times_in_range(intents: Seq<ThreadIntentRef>) -> bool {
    forall|i: int|
        0 <= i < intents.len() ==> -CHRONO_SAFE_MILLIS <= (#[trigger] intents[i]).linked_at_ms
            <= CHRONO_SAFE_MILLIS
}

/// Whether chrono can represent the instant each intent was linked.
pub open spec fn link_times_known(intents: Seq<ThreadIntentRef>) -> bool {
    forall|i: int|
        0 <= i < intents.len() ==> utc_timestamp_text(
            (#[trigger] intents[i]).linked_at_ms,
            link_time_pattern(),
        ) is Some
}

/// The text of when each intent was linked.
pub open spec fn link_times(intents: Seq<ThreadIntentRef>) -> Seq<Seq<char>> {
    Seq::new(
        intents.len(),
        |i: int|
            match utc_timestamp_text(intents[i].linked_at_ms, link_time_pattern()) {
                Some(t) => t,
                None => Seq::empty(),
            },
    )
}

impl ThreadGraph {
    /// The thread graph of a projection, each intent's link time written as
    /// `YYYY-MM-DD HH:MM:SS UTC`. `None` when a link time lies outside the
    /// range of instants chrono represents, which no projection timestamp
    /// does.
    pub fn from_projection(
        bundle: ThreadBundle,
        rows: ProjectionIndexRows,
        object_details: GraphObjectDetails,
    ) -> (r: Option<ThreadGraph>)
        ensures
            r is Some <==> link_times_known(bundle.thread.intents@),
            link_times_in_range(bundle.thread.intents@) ==> r is Some,
            r matches Some(g) ==> graph_of_projection(
                g,
                bundle,
                rows,
                object_details,
                link_times(bundle.thread.intents@),
            ),
    {
        let mut texts: Vec<String> = Vec::new();
        let mut i: usize = 0;
        while i < bundle.thread.intents.len()
            invariant
                i <= bundle.thread.intents@.len(),
                texts@.len() == i,
                forall|j: int|
                    0 <= j < i ==> utc_timestamp_text(
                        (#[trigger] bundle.thread.intents@[j]).linked_at_ms,
                        link_time_pattern(),
                    ) == Some(texts@[j]@),
            decreases bundle.thread.intents.len() - i,
        {
            match format_timestamp(bundle.thread.intents[i].linked_at_ms, "%Y-%m-%d %H:%M:%S UTC") {
                Some(t) => texts.push(t),
                None => {
                    assert(utc_timestamp_text(
                        bundle.thread.intents@[i as int].linked_at_ms,
                        link_time_pattern(),
                    ) is None);
                    return None;
                },
            }
            i += 1;
        }
        assert(string_views(texts@) =~= link_times(bundle.thread.intents@));
        Some(ThreadGraph::from_projection_with_times(bundle, rows, object_details, &texts))
    }
}

// ---------------------------------------------------------------------------
// The objects a graph shows
// ---------------------------------------------------------------------------

/// Whether a row of `rows` has child `c`.
pub open spec fn has_child(rows: Seq<IndexRow>, c: Seq<char>) -> bool {
    exists|i: int| 0 <= i < rows.len() && (#[trigger] rows[i]).child@ == c
}

/// Whether one of `intents` has id `id`.
pub open spec fn intent_listed(intents: Seq<ThreadIntentRef>, id: Seq<char>) -> bool {
    exists|i: int| 0 <= i < intents.len() && uuid_text((#[trigger] intents[i]).intent_id) == id
}

/// Whether the object of node `(kind, id)` is shown with the graph of
/// projection `b` with rows `rows`: every intent of the thread and its
/// current and latest intent; the scheduler's selected plans, plan heads
/// and selected plan, its active task and active run; and every plan,
/// task, run and patchset the index rows link.
pub open spec fn object_ref(b: ThreadBundle, rows: ProjectionIndexRows, kind: GraphNodeKind, id: Seq<char>) -> bool {
    match kind {
        GraphNodeKind::Intent => intent_listed(b.thread.intents@, id) || uuid_opt(b.thread.current_intent_id)
            == Some(id) || uuid_opt(b.thread.latest_intent_id) == Some(id),
        GraphNodeKind::Plan => plan_listed(b.scheduler.selected_plan_ids@, id) || plan_listed(
            b.scheduler.current_plan_heads@,
            id,
        ) || uuid_opt(b.scheduler.selected_plan_id) == Some(id) || has_child(rows.intent_plans@, id),
        GraphNodeKind::Task => uuid_opt(b.scheduler.active_task_id) == Some(id) || has_child(rows.intent_tasks@, id)
            || has_child(rows.plan_tasks@, id),
        GraphNodeKind::Run => uuid_opt(b.scheduler.active_run_id) == Some(id) || has_child(rows.task_runs@, id),
        GraphNodeKind::Patchset => has_child(rows.run_patchsets@, id),
    }
}

/// Whether `refs` lists node `(kind, id)`.
pub open spec fn ref_listed(refs: Seq<(GraphNodeKind, String)>, kind: GraphNodeKind, id: Seq<char>) -> bool {
    exists|i: int| 0 <= i < refs.len() && (#[trigger] refs[i]).0 == kind && refs[i].1@ == id
}

/// Whether no node is listed twice in `refs`.
pub open spec fn refs_unique(refs: Seq<(GraphNodeKind, String)>) -> bool {
    forall|i: int, j: int|
        #![trigger refs[i], refs[j]]
        0 <= i < j < refs.len() ==> !(refs[i].0 == refs[j].0 && refs[i].1@ == refs[j].1@)
}

fn add_ref(refs: &mut Vec<(GraphNodeKind, String)>, kind: GraphNodeKind, id: String)
    requires
        refs_unique(old(refs)@),
    ensures
        refs_unique(final(refs)@),
        forall|k: GraphNodeKind, t: Seq<char>|
            #[trigger] ref_listed(final(refs)@, k, t) == (ref_listed(old(refs)@, k, t) || (k == kind && t == id@)),
{
    let ghost before = refs@;
    let mut i: usize = 0;
    while i < refs.len()
        invariant
            i <= refs@.len(),
            refs@ == before,
            refs_unique(before),
            forall|j: int| 0 <= j < i ==> !((#[trigger] refs@[j]).0 == kind && refs@[j].1@ == id@),
        decreases refs.len() - i,
    {
        if refs[i].0 == kind && str_eq(refs[i].1.as_str(), id.as_str()) {
            assert(ref_listed(before, kind, id@)) by {
                assert(before[i as int].0 == kind && before[i as int].1@ == id@);
            }
            return;
        }
        i += 1;
    }
    let ghost key = id@;
    refs.push((kind, id));
    proof {
        let n = before.len() as int;
        assert forall|a: int, c: int|
            #![trigger refs@[a], refs@[c]]
            0 <= a < c < refs@.len() implies !(refs@[a].0 == refs@[c].0 && refs@[a].1@ == refs@[c].1@) by {
            if c < n {
                assert(refs@[a] == before[a] && refs@[c] == before[c]);
            } else {
                assert(refs@[a] == before[a]);
            }
        }
        assert forall|k: GraphNodeKind, t: Seq<char>|
            #[trigger] ref_listed(refs@, k, t) == (ref_listed(before, k, t) || (k == kind && t == key)) by {
            if ref_listed(refs@, k, t) {
                let j = choose|j: int| 0 <= j < refs@.len() && (#[trigger] refs@[j]).0 == k && refs@[j].1@ == t;
                if j < n {
                    assert(before[j] == refs@[j]);
                }
            }
            if ref_listed(before, k, t) {
                let j = choose|j: int| 0 <= j < before.len() && (#[trigger] before[j]).0 == k && before[j].1@ == t;
                assert(refs@[j] == before[j]);
            }
            if k == kind && t == key {
                assert(refs@[n].0 == k && refs@[n].1@ == t);
            }
        }
    }
}

fn add_children(refs: &mut Vec<(GraphNodeKind, String)>, rows: &Vec<IndexRow>, kind: GraphNodeKind)
    requires
        refs_unique(old(refs)@),
    ensures
        refs_unique(final(refs)@),
        forall|k: GraphNodeKind, t: Seq<char>|
            #[trigger] ref_listed(final(refs)@, k, t) == (ref_listed(old(refs)@, k, t) || (k == kind && has_child(
                rows@,
                t,
            ))),
{
    let ghost r0 = refs@;
    let mut i: usize = 0;
    while i < rows.len()
        invariant
            i <= rows@.len(),
            refs_unique(refs@),
            forall|k: GraphNodeKind, t: Seq<char>|
                #[trigger] ref_listed(refs@, k, t) == (ref_listed(r0, k, t) || (k == kind && has_child(
                    rows@.subrange(0, i as int),
                    t,
                ))),
        decreases rows.len() - i,
    {
        let ghost mid = refs@;
        add_ref(refs, kind, rows[i].child.clone());
        proof {
            let a = rows@.subrange(0, i + 1);
            let p = rows@.subrange(0, i as int);
            assert forall|t: Seq<char>| #[trigger] has_child(a, t) == (has_child(p, t) || rows@[i as int].child@ == t) by {
                if has_child(a, t) {
                    let j = choose|j: int| 0 <= j < a.len() && (#[trigger] a[j]).child@ == t;
                    if j < i {
                        assert(p[j] == a[j]);
                    }
                }
                if has_child(p, t) {
                    let j = choose|j: int| 0 <= j < p.len() && (#[trigger] p[j]).child@ == t;
                    assert(a[j] == p[j]);
                }
                if rows@[i as int].child@ == t {
                    assert(a[i as int] == rows@[i as int]);
                }
            }
            assert forall|k: GraphNodeKind, t: Seq<char>|
                #[trigger] ref_listed(refs@, k, t) == (ref_listed(r0, k, t) || (k == kind && has_child(a, t))) by {
                assert(ref_listed(mid, k, t) == (ref_listed(r0, k, t) || (k == kind && has_child(p, t))));
            }
        }
        i += 1;
    }
    assert(rows@.subrange(0, rows@.len() as int) =~= rows@);
}

fn add_plan_heads(refs: &mut Vec<(GraphNodeKind, String)>, heads: &Vec<PlanHeadRef>)
    requires
        refs_unique(old(refs)@),
    ensures
        refs_unique(final(refs)@),
        forall|k: GraphNodeKind, t: Seq<char>|
            #[trigger] ref_listed(final(refs)@, k, t) == (ref_listed(old(refs)@, k, t) || (k == GraphNodeKind::Plan
                && plan_listed(heads@, t))),
{
    let ghost r0 = refs@;
    let mut i: usize = 0;
    while i < heads.len()
        invariant
            i <= heads@.len(),
            refs_unique(refs@),
            forall|k: GraphNodeKind, t: Seq<char>|
                #[trigger] ref_listed(refs@, k, t) == (ref_listed(r0, k, t) || (k == GraphNodeKind::Plan
                    && plan_listed(heads@.subrange(0, i as int), t))),
        decreases heads.len() - i,
    {
        let ghost mid = refs@;
        add_ref(refs, GraphNodeKind::Plan, uuid_string(heads[i].plan_id));
        proof {
            let a = heads@.subrange(0, i + 1);
            let p = heads@.subrange(0, i as int);
            assert forall|t: Seq<char>|
                #[trigger] plan_listed(a, t) == (plan_listed(p, t) || uuid_text(heads@[i as int].plan_id) == t) by {
                if plan_listed(a, t) {
                    let j = choose|j: int| 0 <= j < a.len() && uuid_text((#[trigger] a[j]).plan_id) == t;
                    if j < i {
                        assert(p[j] == a[j]);
                    }
                }
                if plan_listed(p, t) {
                    let j = choose|j: int| 0 <= j < p.len() && uuid_text((#[trigger] p[j]).plan_id) == t;
                    assert(a[j] == p[j]);
                }
                if uuid_text(heads@[i as int].plan_id) == t {
                    assert(a[i as int] == heads@[i as int]);
                }
            }
            assert forall|k: GraphNodeKind, t: Seq<char>|
                #[trigger] ref_listed(refs@, k, t) == (ref_listed(r0, k, t) || (k == GraphNodeKind::Plan
                    && plan_listed(a, t))) by {
                assert(ref_listed(mid, k, t) == (ref_listed(r0, k, t) || (k == GraphNodeKind::Plan && plan_listed(
                    p,
                    t,
                ))));
            }
        }
        i += 1;
    }
    assert(heads@.subrange(0, heads@.len() as int) =~= heads@);
}

fn add_intents(refs: &mut Vec<(GraphNodeKind, String)>, intents: &Vec<ThreadIntentRef>)
    requires
        refs_unique(old(refs)@),
    ensures
        refs_unique(final(refs)@),
        forall|k: GraphNodeKind, t: Seq<char>|
            #[trigger] ref_listed(final(refs)@, k, t) == (ref_listed(old(refs)@, k, t) || (k
                == GraphNodeKind::Intent && intent_listed(intents@, t))),
{
    let ghost r0 = refs@;
    let mut i: usize = 0;
    while i < intents.len()
        invariant
            i <= intents@.len(),
            refs_unique(refs@),
            forall|k: GraphNodeKind, t: Seq<char>|
                #[trigger] ref_listed(refs@, k, t) == (ref_listed(r0, k, t) || (k == GraphNodeKind::Intent
                    && intent_listed(intents@.subrange(0, i as int), t))),
        decreases intents.len() - i,
    {
        let ghost mid = refs@;
        add_ref(refs, GraphNodeKind::Intent, uuid_string(intents[i].intent_id));
        proof {
            let a = intents@.subrange(0, i + 1);
            let p = intents@.subrange(0, i as int);
            assert forall|t: Seq<char>|
                #[trigger] intent_listed(a, t) == (intent_listed(p, t) || uuid_text(intents@[i as int].intent_id)
                    == t) by {
                if intent_listed(a, t) {
                    let j = choose|j: int| 0 <= j < a.len() && uuid_text((#[trigger] a[j]).intent_id) == t;
                    if j < i {
                        assert(p[j] == a[j]);
                    }
                }
                if intent_listed(p, t) {
                    let j = choose|j: int| 0 <= j < p.len() && uuid_text((#[trigger] p[j]).intent_id) == t;
                    assert(a[j] == p[j]);
                }
                if uuid_text(intents@[i as int].intent_id) == t {
                    assert(a[i as int] == intents@[i as int]);
                }
            }
            assert forall|k: GraphNodeKind, t: Seq<char>|
                #[trigger] ref_listed(refs@, k, t) == (ref_listed(r0, k, t) || (k == GraphNodeKind::Intent
                    && intent_listed(a, t))) by {
                assert(ref_listed(mid, k, t) == (ref_listed(r0, k, t) || (k == GraphNodeKind::Intent
                    && intent_listed(p, t))));
            }
        }
        i += 1;
    }
    assert(intents@.subrange(0, intents@.len() as int) =~= intents@);
}

fn add_opt(refs: &mut Vec<(GraphNodeKind, String)>, kind: GraphNodeKind, o: Option<u128>)
    requires
        refs_unique(old(refs)@),
    ensures
        refs_unique(final(refs)@),
        forall|k: GraphNodeKind, t: Seq<char>|
            #[trigger] ref_listed(final(refs)@, k, t) == (ref_listed(old(refs)@, k, t) || (k == kind && uuid_opt(o)
                == Some(t))),
{
    match o {
        Some(x) => add_ref(refs, kind, uuid_string(x)),
        None => {},
    }
}

/// The nodes whose objects the graph of projection `bundle` with rows
/// `rows` shows, each once.
pub fn graph_object_refs(bundle: &ThreadBundle, rows: &ProjectionIndexRows) -> (r: Vec<(GraphNodeKind, String)>)
    ensures
        refs_unique(r@),
        forall|k: GraphNodeKind, t: Seq<char>| #[trigger] ref_listed(r@, k, t) == object_ref(*bundle, *rows, k, t),
{
    let mut refs: Vec<(GraphNodeKind, String)> = Vec::new();
    let ghost r0 = refs@;
    add_intents(&mut refs, &bundle.thread.intents);
    let ghost r1 = refs@;
    add_opt(&mut refs, GraphNodeKind::Intent, bundle.thread.current_intent_id);
    let ghost r2 = refs@;
    add_opt(&mut refs, GraphNodeKind::Intent, bundle.thread.latest_intent_id);
    let ghost r3 = refs@;
    add_plan_heads(&mut refs, &bundle.scheduler.selected_plan_ids);
    let ghost r4 = refs@;
    add_plan_heads(&mut refs, &bundle.scheduler.current_plan_heads);
    let ghost r5 = refs@;
    add_opt(&mut refs, GraphNodeKind::Plan, bundle.scheduler.selected_plan_id);
    let ghost r6 = refs@;
    add_opt(&mut refs, GraphNodeKind::Task, bundle.scheduler.active_task_id);
    let ghost r7 = refs@;
    add_opt(&mut refs, GraphNodeKind::Run, bundle.scheduler.active_run_id);
    let ghost r8 = refs@;
    add_children(&mut refs, &rows.intent_plans, GraphNodeKind::Plan);
    let ghost r9 = refs@;
    add_children(&mut refs, &rows.intent_tasks, GraphNodeKind::Task);
    let ghost r10 = refs@;
    add_children(&mut refs, &rows.plan_tasks, GraphNodeKind::Task);
    let ghost r11 = refs@;
    add_children(&mut refs, &rows.task_runs, GraphNodeKind::Run);
    let ghost r12 = refs@;
    add_children(&mut refs, &rows.run_patchsets, GraphNodeKind::Patchset);
    proof {
        assert forall|k: GraphNodeKind, t: Seq<char>| #[trigger] ref_listed(refs@, k, t) == object_ref(
            *bundle,
            *rows,
            k,
            t,
        ) by {
            assert(!ref_listed(r0, k, t));
            assert(ref_listed(r1, k, t) == (ref_listed(r0, k, t) || (k == GraphNodeKind::Intent && intent_listed(bundle.thread.intents@, t))));
            assert(ref_listed(r2, k, t) == (ref_listed(r1, k, t) || (k == GraphNodeKind::Intent && uuid_opt(bundle.thread.current_intent_id) == Some(t))));
            assert(ref_listed(r3, k, t) == (ref_listed(r2, k, t) || (k == GraphNodeKind::Intent && uuid_opt(bundle.thread.latest_intent_id) == Some(t))));
            assert(ref_listed(r4, k, t) == (ref_listed(r3, k, t) || (k == GraphNodeKind::Plan && plan_listed(bundle.scheduler.selected_plan_ids@, t))));
            assert(ref_listed(r5, k, t) == (ref_listed(r4, k, t) || (k == GraphNodeKind::Plan && plan_listed(bundle.scheduler.current_plan_heads@, t))));
            assert(ref_listed(r6, k, t) == (ref_listed(r5, k, t) || (k == GraphNodeKind::Plan && uuid_opt(bundle.scheduler.selected_plan_id) == Some(t))));
            assert(ref_listed(r7, k, t) == (ref_listed(r6, k, t) || (k == GraphNodeKind::Task && uuid_opt(bundle.scheduler.active_task_id) == Some(t))));
            assert(ref_listed(r8, k, t) == (ref_listed(r7, k, t) || (k == GraphNodeKind::Run && uuid_opt(bundle.scheduler.active_run_id) == Some(t))));
            assert(ref_listed(r9, k, t) == (ref_listed(r8, k, t) || (k == GraphNodeKind::Plan && has_child(rows.intent_plans@, t))));
            assert(ref_listed(r10, k, t) == (ref_listed(r9, k, t) || (k == GraphNodeKind::Task && has_child(rows.intent_tasks@, t))));
            assert(ref_listed(r11, k, t) == (ref_listed(r10, k, t) || (k == GraphNodeKind::Task && has_child(rows.plan_tasks@, t))));
            assert(ref_listed(r12, k, t) == (ref_listed(r11, k, t) || (k == GraphNodeKind::Run && has_child(rows.task_runs@, t))));
        }
    }
    refs
}

// ---------------------------------------------------------------------------
// Roots of the graph
// ---------------------------------------------------------------------------

/// Whether every line of `s` is below the top level and not an intent.
pub open spec fn below_roots(s: Seq<LineView>) -> bool {
    forall|i: int| 0 <= i < s.len() ==> (#[trigger] s[i]).depth >= 1 && s[i].kind != GraphNodeKind::Intent
}

/// Whether the lines of `s` at depth 0 are exactly its intent lines.
pub open spec fn roots_are_intents(s: Seq<LineView>) -> bool {
    forall|i: int| 0 <= i < s.len() ==> ((#[trigger] s[i]).depth == 0) == (s[i].kind == GraphNodeKind::Intent)
}

proof fn lemma_below_roots_concat(a: Seq<LineView>, b: Seq<LineView>)
    requires
        below_roots(a),
        below_roots(b),
    ensures
        below_roots(a + b),
{
    assert forall|i: int| 0 <= i < (a + b).len() implies (#[trigger] (a + b)[i]).depth >= 1 && (a + b)[i].kind
        != GraphNodeKind::Intent by {
        if i < a.len() {
            assert((a + b)[i] == a[i]);
        } else {
            assert((a + b)[i] == b[i - a.len()]);
        }
    }
}

proof fn lemma_patchsets_below_roots(ix: SubgraphIndexView, run: Seq<char>, ps: Seq<Seq<char>>, depth: int)
    requires
        depth >= 0,
    ensures
        below_roots(patchset_lines(ix, run, ps, depth)),
    decreases ps.len(),
{
    if ps.len() > 0 {
        lemma_patchsets_below_roots(ix, run, ps.drop_last(), depth);
        let pre = patchset_lines(ix, run, ps.drop_last(), depth);
        lemma_below_roots_concat(pre, seq![patchset_line(ix, run, ps.last(), depth)]);
        assert(pre.push(patchset_line(ix, run, ps.last(), depth)) =~= pre + seq![patchset_line(ix, run, ps.last(), depth)]);
    }
}

proof fn lemma_runs_below_roots(ix: SubgraphIndexView, task: Seq<char>, runs: Seq<Seq<char>>, depth: int)
    requires
        depth >= 0,
    ensures
        below_roots(run_lines(ix, task, runs, depth)),
    decreases runs.len(),
{
    if runs.len() > 0 {
        let r = runs.last();
        lemma_runs_below_roots(ix, task, runs.drop_last(), depth);
        let pre = run_lines(ix, task, runs.drop_last(), depth);
        let one = seq![run_line(ix, task, r, depth)];
        lemma_below_roots_concat(pre, one);
        assert(pre.push(run_line(ix, task, r, depth)) =~= pre + one);
        lemma_patchsets_below_roots(ix, r, (ix.patchsets_of)(r), depth);
        lemma_below_roots_concat(pre + one, patchset_lines(ix, r, (ix.patchsets_of)(r), depth));
    }
}

proof fn lemma_task_below_roots(ix: SubgraphIndexView, task: Seq<char>, depth: int)
    requires
        depth >= 1,
    ensures
        below_roots(task_subgraph(ix, task, depth)),
{
    lemma_runs_below_roots(ix, task, (ix.runs_of)(task), depth);
    lemma_below_roots_concat(seq![task_line(ix, task, depth)], run_lines(ix, task, (ix.runs_of)(task), depth));
}

proof fn lemma_tasks_below_roots(ix: SubgraphIndexView, tasks: Seq<Seq<char>>, depth: int)
    requires
        depth >= 1,
    ensures
        below_roots(task_sections(ix, tasks, depth)),
    decreases tasks.len(),
{
    if tasks.len() > 0 {
        lemma_tasks_below_roots(ix, tasks.drop_last(), depth);
        lemma_task_below_roots(ix, tasks.last(), depth);
        lemma_below_roots_concat(task_sections(ix, tasks.drop_last(), depth), task_subgraph(ix, tasks.last(), depth));
    }
}

proof fn lemma_plans_below_roots(b: ThreadBundle, rows: ProjectionIndexRows, ix: SubgraphIndexView, plans: Seq<Seq<char>>)
    ensures
        below_roots(plan_sections(b, rows, ix, plans)),
    decreases plans.len(),
{
    if plans.len() > 0 {
        let p = plans.last();
        lemma_plans_below_roots(b, rows, ix, plans.drop_last());
        let pre = plan_sections(b, rows, ix, plans.drop_last());
        let one = seq![plan_line(b, ix, p)];
        lemma_below_roots_concat(pre, one);
        lemma_tasks_below_roots(ix, grouped(rows.plan_tasks@, p), 2);
        lemma_below_roots_concat(pre + one, task_sections(ix, grouped(rows.plan_tasks@, p), 2));
    }
}

proof fn lemma_loose_below_roots(ix: SubgraphIndexView, tasks: Seq<Seq<char>>, shown: spec_fn(Seq<char>) -> bool)
    ensures
        below_roots(loose_task_sections(ix, tasks, shown)),
    decreases tasks.len(),
{
    if tasks.len() > 0 {
        let t = tasks.last();
        let pre = tasks.drop_last();
        lemma_loose_below_roots(ix, pre, shown);
        if shown(t) || pre.contains(t) {
            assert(loose_task_sections(ix, tasks, shown) =~= loose_task_sections(ix, pre, shown));
        } else {
            lemma_task_below_roots(ix, t, 1);
            lemma_below_roots_concat(loose_task_sections(ix, pre, shown), task_subgraph(ix, t, 1));
        }
    }
}

proof fn lemma_sections_roots(b: ThreadBundle, rows: ProjectionIndexRows, ix: SubgraphIndexView, items: Seq<IntentItem>)
    ensures
        roots_are_intents(intent_sections(b, rows, ix, items)),
    decreases items.len(),
{
    if items.len() > 0 {
        let it = items.last();
        let id = uuid_text(it.intent_id);
        let plans = grouped(rows.intent_plans@, id);
        let shown = |t: Seq<char>| shown_under_plans(rows, plans, t);
        lemma_sections_roots(b, rows, ix, items.drop_last());
        lemma_plans_below_roots(b, rows, ix, plans);
        lemma_loose_below_roots(ix, grouped(rows.intent_tasks@, id), shown);
        let rest = plan_sections(b, rows, ix, plans) + loose_task_sections(ix, grouped(rows.intent_tasks@, id), shown);
        lemma_below_roots_concat(plan_sections(b, rows, ix, plans), loose_task_sections(ix, grouped(rows.intent_tasks@, id), shown));
        let sec = intent_section(b, rows, ix, it);
        assert(sec =~= seq![intent_line(b, ix, it)] + rest);
        let pre = intent_sections(b, rows, ix, items.drop_last());
        let all = pre + sec;
        assert forall|i: int| 0 <= i < all.len() implies ((#[trigger] all[i]).depth == 0) == (all[i].kind
            == GraphNodeKind::Intent) by {
            if i < pre.len() {
                assert(all[i] == pre[i]);
            } else if i == pre.len() {
                assert(all[i] == intent_line(b, ix, it));
            } else {
                assert(all[i] == rest[i - pre.len() - 1]);
            }
        }
    }
}

/// In the graph of a projection, the top-level lines are exactly the
/// intent lines: plans, tasks, runs and patchsets always hang below one.
pub proof fn law_roots_are_intents(
    b: ThreadBundle,
    rows: ProjectionIndexRows,
    d: GraphObjectDetails,
    linked_at: Seq<Seq<char>>,
)
    ensures
        roots_are_intents(projection_lines(b, rows, d, linked_at)),
{
    lemma_sections_roots(
        b,
        rows,
        projection_index(b, rows, d),
        insertion_sort(intent_items(b.thread.intents@, linked_at), ordinal_order()),
    );
}

} // verus!
