//! The thread graph of a Libra thread and its Code UI wire projection: the
//! capped node list the browser receives, how the Code UI overlay is
//! recorded, and the task → run → patchset subgraph lines.
use vstd::prelude::*;
use vstd::set_lib::*;

use crate::codex::{status_wire_name, CodeUiSessionStatus};
use crate::graph::{
    as_ints, kind_name, law_graph_respects_node_cap, opt_str, select_code_ui_thread_graph_indices,
    selected_indices, short_id, GraphLine, GraphNodeKind, GraphObjectDetail,
};
use crate::text::{opt_view, str_eq, string_views};

verus! {

/// The graph of one thread: its identity and versions, the scheduler heads,
/// the Code UI overlay, and its lines in display order.
#[derive(Debug, Clone)]
pub struct ThreadGraph {
    pub thread_id: String,
    pub title: Option<String>,
    pub freshness: String,
    pub thread_version: i64,
    pub scheduler_version: i64,
    /// Last update of the thread or its scheduler, in milliseconds since
    /// the Unix epoch.
    pub updated_at_ms: i64,
    pub selected_plan_id: Option<String>,
    pub active_task_id: Option<String>,
    pub active_run_id: Option<String>,
    /// The Code UI session status folded from the session workflow log.
    pub code_ui_status: Option<String>,
    pub code_ui_transcript_len: usize,
    pub code_ui_pending_interactions: usize,
    pub lines: Vec<GraphLine>,
}

/// One node of the wire graph.
#[derive(Debug, Clone)]
pub struct CodeUiThreadGraphNode {
    pub depth: u32,
    pub kind: String,
    pub id: String,
    pub label: String,
    pub tags: Vec<String>,
}

/// The thread graph as the Code UI receives it.
#[derive(Debug, Clone)]
pub struct CodeUiThreadGraph {
    pub thread_id: String,
    pub title: Option<String>,
    pub selected_plan_id: Option<String>,
    pub active_task_id: Option<String>,
    pub active_run_id: Option<String>,
    pub nodes: Vec<CodeUiThreadGraphNode>,
    /// Whether lines were left out to respect the node cap.
    pub truncated: bool,
    pub omitted_node_count: u32,
    pub total_node_count: Option<u32>,
}

/// `n`, saturated to `u32`.
pub open spec fn sat_u32(n: int) -> u32 {
    if n > u32::MAX as int {
        u32::MAX
    } else {
        n as u32
    }
}

/// Whether `node` is the wire form of `line`.
pub open spec fn node_of(node: CodeUiThreadGraphNode, line: GraphLine) -> bool {
    &&& node.depth == sat_u32(line.depth as int)
    &&& node.kind@ == kind_name(line.kind)
    &&& node.id@ == line.id@
    &&& node.label@ == line.label@
    &&& string_views(node.tags@) == string_views(line.tags@)
}

/// Whether `nodes` are the wire forms of the lines at `idx`, where `idx`
/// lists the indices of `keep` in increasing order.
pub open spec fn listed_in_order(
    idx: Seq<int>,
    keep: Set<int>,
    nodes: Seq<CodeUiThreadGraphNode>,
    lines: Seq<GraphLine>,
) -> bool {
    &&& idx.len() == nodes.len()
    &&& (forall|a: int, b: int| 0 <= a < b < idx.len() ==> idx[a] < idx[b])
    &&& (forall|i: int| idx.contains(i) <==> keep.contains(i))
    &&& (forall|k: int|
        0 <= k < idx.len() ==> 0 <= idx[k] < lines.len() && node_of(#[trigger] nodes[k], lines[idx[k]]))
}

pub(crate) fn copy_opt(o: &Option<String>) -> (r: Option<String>)
    ensures
        opt_view(r) == opt_view(*o),
{
    match o {
        Some(s) => Some(s.clone()),
        None => None,
    }
}

fn copy_strings(v: &Vec<String>) -> (r: Vec<String>)
    ensures
        string_views(r@) == string_views(v@),
{
    let mut out: Vec<String> = Vec::new();
    let mut i: usize = 0;
    while i < v.len()
        invariant
            i <= v.len(),
            out@.len() == i,
            string_views(out@) == string_views(v@).subrange(0, i as int),
        decreases v.len() - i,
    {
        out.push(v[i].clone());
        i += 1;
        assert(string_views(out@) =~= string_views(v@).subrange(0, i as int));
    }
    assert(string_views(v@).subrange(0, v.len() as int) =~= string_views(v@));
    out
}

fn to_u32_saturating(n: usize) -> (r: u32)
    ensures
        r == sat_u32(n as int),
{
    if n > 4294967295usize {
        4294967295u32
    } else {
        n as u32
    }
}

impl ThreadGraph {
    /// The wire graph for the Code UI: the capped selection of lines (all
    /// of them up to the cap; beyond it the scheduler's heads first), in
    /// display order, with the count of lines left out.
    pub fn to_code_ui_thread_graph(&self) -> (r: CodeUiThreadGraph)
        ensures
            r.thread_id@ == self.thread_id@,
            opt_view(r.title) == opt_view(self.title),
            opt_view(r.selected_plan_id) == opt_view(self.selected_plan_id),
            opt_view(r.active_task_id) == opt_view(self.active_task_id),
            opt_view(r.active_run_id) == opt_view(self.active_run_id),
            ({
                let keep = selected_indices(
                    self.lines@,
                    opt_view(self.selected_plan_id),
                    opt_view(self.active_task_id),
                    opt_view(self.active_run_id),
                );
                &&& r.nodes@.len() == keep.len()
                &&& r.truncated == (keep.len() < self.lines@.len())
                &&& r.omitted_node_count == (if r.truncated {
                    sat_u32(self.lines@.len() - keep.len())
                } else {
                    0
                })
                &&& r.total_node_count == (if r.truncated {
                    Some(sat_u32(self.lines@.len() as int))
                } else {
                    None
                })
                &&& exists|idx: Seq<int>| #[trigger] listed_in_order(idx, keep, r.nodes@, self.lines@)
            }),
    {
        let sel = match &self.selected_plan_id {
            Some(s) => Some(s.as_str()),
            None => None,
        };
        let task = match &self.active_task_id {
            Some(s) => Some(s.as_str()),
            None => None,
        };
        let run = match &self.active_run_id {
            Some(s) => Some(s.as_str()),
            None => None,
        };
        let keep = select_code_ui_thread_graph_indices(self.lines.as_slice(), sel, task, run);
        let ghost keep_set = selected_indices(
            self.lines@,
            opt_view(self.selected_plan_id),
            opt_view(self.active_task_id),
            opt_view(self.active_run_id),
        );
        proof {
            assert(opt_str(sel) == opt_view(self.selected_plan_id));
            assert(opt_str(task) == opt_view(self.active_task_id));
            assert(opt_str(run) == opt_view(self.active_run_id));
            law_graph_respects_node_cap(
                self.lines@,
                opt_view(self.selected_plan_id),
                opt_view(self.active_task_id),
                opt_view(self.active_run_id),
            );
            assert forall|k: int| 0 <= k < keep@.len() implies 0 <= #[trigger] keep@[k] < self.lines@.len() by {
                assert(as_ints(keep@)[k] == keep@[k] as int);
                assert(as_ints(keep@).contains(keep@[k] as int));
            }
            assert(keep_set =~= as_ints(keep@).to_set());
            assert(as_ints(keep@).no_duplicates()) by {
                assert forall|a: int, b: int|
                    0 <= a < as_ints(keep@).len() && 0 <= b < as_ints(keep@).len() && a != b implies as_ints(
                    keep@,
                )[a] != as_ints(keep@)[b] by {
                    if a < b {
                        assert(keep@[a] < keep@[b]);
                    } else {
                        assert(keep@[b] < keep@[a]);
                    }
                }
            }
            as_ints(keep@).unique_seq_to_set();
        }
        let mut nodes: Vec<CodeUiThreadGraphNode> = Vec::new();
        let mut k: usize = 0;
        while k < keep.len()
            invariant
                k <= keep.len(),
                nodes@.len() == k,
                forall|j: int| 0 <= j < keep@.len() ==> 0 <= #[trigger] keep@[j] < self.lines@.len(),
                forall|j: int| 0 <= j < k ==> node_of(#[trigger] nodes@[j], self.lines@[keep@[j] as int]),
            decreases keep.len() - k,
        {
            let line = &self.lines[keep[k]];
            let node = CodeUiThreadGraphNode {
                depth: to_u32_saturating(line.depth),
                kind: String::from_str(line.kind.history_type()),
                id: line.id.clone(),
                label: line.label.clone(),
                tags: copy_strings(&line.tags),
            };
            nodes.push(node);
            k += 1;
        }
        let total = self.lines.len();
        let kept = keep.len();
        let truncated = kept < total;
        let r = CodeUiThreadGraph {
            thread_id: self.thread_id.clone(),
            title: copy_opt(&self.title),
            selected_plan_id: copy_opt(&self.selected_plan_id),
            active_task_id: copy_opt(&self.active_task_id),
            active_run_id: copy_opt(&self.active_run_id),
            nodes,
            truncated,
            omitted_node_count: if truncated {
                to_u32_saturating(total - kept)
            } else {
                0
            },
            total_node_count: if truncated {
                Some(to_u32_saturating(total))
            } else {
                None
            },
        };
        proof {
            let idx = as_ints(keep@);
            assert(idx.len() == r.nodes@.len());
            assert forall|i: int| idx.contains(i) <==> keep_set.contains(i) by {
                assert(keep_set.contains(i) <==> idx.to_set().contains(i));
            }
            assert forall|k2: int|
                0 <= k2 < idx.len() implies 0 <= idx[k2] < self.lines@.len() && node_of(
                #[trigger] r.nodes@[k2],
                self.lines@[idx[k2]],
            ) by {
                assert(idx[k2] == keep@[k2] as int);
            }
            assert(listed_in_order(idx, keep_set, r.nodes@, self.lines@));
        }
        r
    }

    /// The graph with the Code UI overlay recorded: the session status by
    /// its wire name, the transcript length and the pending interactions.
    pub fn with_code_ui_overlay(
        self,
        status: CodeUiSessionStatus,
        transcript_len: usize,
        pending_interactions: usize,
    ) -> (r: Self)
        ensures
            opt_view(r.code_ui_status) == Some(status_wire_name(status)),
            r.code_ui_transcript_len == transcript_len,
            r.code_ui_pending_interactions == pending_interactions,
            r.thread_id == self.thread_id,
            r.lines == self.lines,
    {
        let mut g = self;
        g.code_ui_status = Some(String::from_str(status.wire_name()));
        g.code_ui_transcript_len = transcript_len;
        g.code_ui_pending_interactions = pending_interactions;
        g
    }
}

// ---------------------------------------------------------------------------
// Object details and lines
// ---------------------------------------------------------------------------

/// The views of key/value pairs.
pub open spec fn pair_views(v: Seq<(String, String)>) -> Seq<(Seq<char>, Seq<char>)> {
    v.map_values(|e: (String, String)| (e.0@, e.1@))
}

/// The mathematical value of an object detail.
pub struct DetailView {
    pub object_type: Seq<char>,
    pub hash: Option<Seq<char>>,
    pub git_object_type: Option<Seq<char>>,
    pub summary: Seq<(Seq<char>, Seq<char>)>,
}

/// The view of an object detail.
pub open spec fn detail_view(d: GraphObjectDetail) -> DetailView {
    DetailView {
        object_type: d.object_type@,
        hash: opt_view(d.hash),
        git_object_type: opt_view(d.git_object_type),
        summary: pair_views(d.summary@),
    }
}

fn copy_pairs(v: &Vec<(String, String)>) -> (r: Vec<(String, String)>)
    ensures
        pair_views(r@) == pair_views(v@),
{
    let mut out: Vec<(String, String)> = Vec::new();
    let mut i: usize = 0;
    while i < v.len()
        invariant
            i <= v.len(),
            out@.len() == i,
            pair_views(out@) == pair_views(v@).subrange(0, i as int),
        decreases v.len() - i,
    {
        out.push((v[i].0.clone(), v[i].1.clone()));
        i += 1;
        assert(pair_views(out@) =~= pair_views(v@).subrange(0, i as int));
    }
    assert(pair_views(v@).subrange(0, v.len() as int) =~= pair_views(v@));
    out
}

fn copy_detail(d: &GraphObjectDetail) -> (r: GraphObjectDetail)
    ensures
        detail_view(r) == detail_view(*d),
{
    GraphObjectDetail {
        object_type: d.object_type.clone(),
        hash: copy_opt(&d.hash),
        git_object_type: copy_opt(&d.git_object_type),
        summary: copy_pairs(&d.summary),
    }
}

/// The loaded object details of graph nodes, by node kind and id.
#[derive(Debug, Clone)]
pub struct GraphObjectDetails {
    entries: Vec<(GraphNodeKind, String, GraphObjectDetail)>,
}

/// The detail recorded last for `(kind, id)`.
pub open spec fn detail_of(
    es: Seq<(GraphNodeKind, String, GraphObjectDetail)>,
    kind: GraphNodeKind,
    id: Seq<char>,
) -> Option<DetailView>
    decreases es.len(),
{
    if es.len() == 0 {
        None
    } else if es.last().0 == kind && es.last().1@ == id {
        Some(detail_view(es.last().2))
    } else {
        detail_of(es.drop_last(), kind, id)
    }
}

impl GraphObjectDetails {
    /// The details as a lookup from node to detail.
    pub closed spec fn lookup(&self, kind: GraphNodeKind, id: Seq<char>) -> Option<DetailView> {
        detail_of(self.entries@, kind, id)
    }

    /// No details.
    pub fn new() -> (r: Self)
        ensures
            forall|k: GraphNodeKind, id: Seq<char>| r.lookup(k, id) is None,
    {
        GraphObjectDetails { entries: Vec::new() }
    }

    /// Records the detail of node `(kind, id)`, replacing an earlier one.
    pub fn insert(&mut self, kind: GraphNodeKind, id: String, detail: GraphObjectDetail)
        ensures
            final(self).lookup(kind, id@) == Some(detail_view(detail)),
            forall|k: GraphNodeKind, j: Seq<char>|
                !(k == kind && j == id@) ==> #[trigger] final(self).lookup(k, j) == old(self).lookup(k, j),
    {
        let ghost old_entries = self.entries@;
        let ghost key = id@;
        self.entries.push((kind, id, detail));
        assert(self.entries@.drop_last() =~= old_entries);
        assert forall|k: GraphNodeKind, j: Seq<char>|
            !(k == kind && j == key) implies #[trigger] detail_of(self.entries@, k, j) == detail_of(old_entries, k, j) by {
        }
    }

    /// The detail of node `(kind, id)`, if one was recorded.
    pub fn get(&self, kind: GraphNodeKind, id: &str) -> (r: Option<GraphObjectDetail>)
        ensures
            match r {
                Some(d) => self.lookup(kind, id@) == Some(detail_view(d)),
                None => self.lookup(kind, id@) is None,
            },
    {
        let mut i: usize = self.entries.len();
        assert(self.entries@.subrange(0, i as int) =~= self.entries@);
        while i > 0
            invariant
                i <= self.entries@.len(),
                detail_of(self.entries@, kind, id@) == detail_of(self.entries@.subrange(0, i as int), kind, id@),
            decreases i,
        {
            let ghost pre = self.entries@.subrange(0, i as int);
            assert(pre.drop_last() =~= self.entries@.subrange(0, i - 1));
            assert(pre.last() == self.entries@[i - 1]);
            if self.entries[i - 1].0 == kind && str_eq(self.entries[i - 1].1.as_str(), id) {
                return Some(copy_detail(&self.entries[i - 1].2));
            }
            i -= 1;
        }
        None
    }
}

/// The mathematical value of a graph line.
pub struct LineView {
    pub depth: int,
    pub kind: GraphNodeKind,
    pub id: Seq<char>,
    pub label: Seq<char>,
    pub tags: Seq<Seq<char>>,
    pub detail: Seq<(Seq<char>, Seq<char>)>,
    pub object: Option<DetailView>,
}

/// The view of a graph line.
pub open spec fn line_view(l: GraphLine) -> LineView {
    LineView {
        depth: l.depth as int,
        kind: l.kind,
        id: l.id@,
        label: l.label@,
        tags: string_views(l.tags@),
        detail: pair_views(l.detail@),
        object: match l.object {
            Some(d) => Some(detail_view(d)),
            None => None,
        },
    }
}

/// The views of graph lines.
pub open spec fn lines_view(s: Seq<GraphLine>) -> Seq<LineView> {
    s.map_values(|l: GraphLine| line_view(l))
}

/// The first eight characters of an id.
pub open spec fn short(id: Seq<char>) -> Seq<char> {
    id.take(if id.len() < 8 { id.len() as int } else { 8 })
}

/// `true` or `false` as text.
pub open spec fn bool_text(b: bool) -> Seq<char> {
    if b {
        "true"@
    } else {
        "false"@
    }
}

pub(crate) fn bool_string(b: bool) -> (r: String)
    ensures
        r@ == bool_text(b),
{
    if b {
        String::from_str("true")
    } else {
        String::from_str("false")
    }
}

/// The values listed under `k` (the last entry with that key), or none.
pub open spec fn values_under(es: Seq<(String, Vec<String>)>, k: Seq<char>) -> Seq<Seq<char>>
    decreases es.len(),
{
    if es.len() == 0 {
        Seq::empty()
    } else if es.last().0@ == k {
        string_views(es.last().1@)
    } else {
        values_under(es.drop_last(), k)
    }
}

/// The value recorded last under `k`, if any.
pub open spec fn value_of(es: Seq<(String, String)>, k: Seq<char>) -> Option<Seq<char>>
    decreases es.len(),
{
    if es.len() == 0 {
        None
    } else if es.last().0@ == k {
        Some(es.last().1@)
    } else {
        value_of(es.drop_last(), k)
    }
}

/// Whether `k` is one of `s`.
pub open spec fn listed(s: Seq<String>, k: Seq<char>) -> bool {
    exists|i: int| 0 <= i < s.len() && (#[trigger] s[i])@ == k
}

pub(crate) fn values_under_exec(es: &Vec<(String, Vec<String>)>, k: &str) -> (r: Vec<String>)
    ensures
        string_views(r@) == values_under(es@, k@),
{
    let mut i: usize = es.len();
    assert(es@.subrange(0, i as int) =~= es@);
    while i > 0
        invariant
            i <= es@.len(),
            values_under(es@, k@) == values_under(es@.subrange(0, i as int), k@),
        decreases i,
    {
        let ghost pre = es@.subrange(0, i as int);
        assert(pre.drop_last() =~= es@.subrange(0, i - 1));
        assert(pre.last() == es@[i - 1]);
        if str_eq(es[i - 1].0.as_str(), k) {
            return copy_strings(&es[i - 1].1);
        }
        i -= 1;
    }
    Vec::new()
}

pub(crate) fn value_of_exec(es: &Vec<(String, String)>, k: &str) -> (r: Option<String>)
    ensures
        opt_view(r) == value_of(es@, k@),
{
    let mut i: usize = es.len();
    assert(es@.subrange(0, i as int) =~= es@);
    while i > 0
        invariant
            i <= es@.len(),
            value_of(es@, k@) == value_of(es@.subrange(0, i as int), k@),
        decreases i,
    {
        let ghost pre = es@.subrange(0, i as int);
        assert(pre.drop_last() =~= es@.subrange(0, i - 1));
        assert(pre.last() == es@[i - 1]);
        if str_eq(es[i - 1].0.as_str(), k) {
            return Some(es[i - 1].1.clone());
        }
        i -= 1;
    }
    None
}

pub(crate) fn listed_exec(s: &Vec<String>, k: &str) -> (r: bool)
    ensures
        r == listed(s@, k@),
{
    let mut i: usize = 0;
    while i < s.len()
        invariant
            i <= s.len(),
            forall|j: int| 0 <= j < i ==> (#[trigger] s@[j])@ != k@,
        decreases s.len() - i,
    {
        if str_eq(s[i].as_str(), k) {
            assert(s@[i as int]@ == k@);
            return true;
        }
        i += 1;
    }
    false
}

/// What the task subgraph reads: the runs of each task, the patchsets of
/// each run (both in display order), the latest runs, each run's latest
/// event, the latest patchsets, the active task and run, and the loaded
/// object details.
pub struct SubgraphIndex {
    pub runs_by_task: Vec<(String, Vec<String>)>,
    pub patchsets_by_run: Vec<(String, Vec<String>)>,
    pub latest_runs: Vec<String>,
    pub latest_run_events: Vec<(String, String)>,
    pub latest_patchsets: Vec<String>,
    pub active_task_id: Option<String>,
    pub active_run_id: Option<String>,
    pub object_details: GraphObjectDetails,
}

/// Whether `o` is present and equal to `k`.
pub open spec fn is_opt(o: Option<String>, k: Seq<char>) -> bool {
    o matches Some(v) && v@ == k
}

/// What the task subgraph reads, as mathematical functions: the runs of a
/// task and the patchsets of a run in display order, which runs and
/// patchsets are the latest, the latest event of a run, the active task and
/// run, and the object detail of a node.
#[verifier::ext_equal]
pub struct SubgraphIndexView {
    pub runs_of: spec_fn(Seq<char>) -> Seq<Seq<char>>,
    pub patchsets_of: spec_fn(Seq<char>) -> Seq<Seq<char>>,
    pub latest_run: spec_fn(Seq<char>) -> bool,
    pub latest_event: spec_fn(Seq<char>) -> Option<Seq<char>>,
    pub latest_patchset: spec_fn(Seq<char>) -> bool,
    pub active_task: Option<Seq<char>>,
    pub active_run: Option<Seq<char>>,
    pub object: spec_fn(GraphNodeKind, Seq<char>) -> Option<DetailView>,
}

impl View for SubgraphIndex {
    type V = SubgraphIndexView;

    open spec fn view(&self) -> SubgraphIndexView {
        SubgraphIndexView {
            runs_of: |t: Seq<char>| values_under(self.runs_by_task@, t),
            patchsets_of: |r: Seq<char>| values_under(self.patchsets_by_run@, r),
            latest_run: |r: Seq<char>| listed(self.latest_runs@, r),
            latest_event: |r: Seq<char>| value_of(self.latest_run_events@, r),
            latest_patchset: |p: Seq<char>| listed(self.latest_patchsets@, p),
            active_task: opt_view(self.active_task_id),
            active_run: opt_view(self.active_run_id),
            object: |k: GraphNodeKind, id: Seq<char>| self.object_details.lookup(k, id),
        }
    }
}

/// Whether `o` is present and equal to `k`.
pub open spec fn is_some_of(o: Option<Seq<char>>, k: Seq<char>) -> bool {
    o == Some(k)
}

/// The line of patchset `p` of run `run`.
pub open spec fn patchset_line(ix: SubgraphIndexView, run: Seq<char>, p: Seq<char>, depth: int) -> LineView {
    LineView {
        depth: depth + 2,
        kind: GraphNodeKind::Patchset,
        id: p,
        label: short(p),
        tags: if (ix.latest_patchset)(p) {
            seq!["latest"@]
        } else {
            Seq::empty()
        },
        detail: seq![("patchset_id"@, p), ("run_id"@, run)],
        object: (ix.object)(GraphNodeKind::Patchset, p),
    }
}

/// The lines of patchsets `ps` of run `run`.
pub open spec fn patchset_lines(ix: SubgraphIndexView, run: Seq<char>, ps: Seq<Seq<char>>, depth: int) -> Seq<LineView>
    decreases ps.len(),
{
    if ps.len() == 0 {
        Seq::empty()
    } else {
        patchset_lines(ix, run, ps.drop_last(), depth).push(patchset_line(ix, run, ps.last(), depth))
    }
}

/// The tags of run `run`: `latest`, `active`, then its latest event.
pub open spec fn run_tags(ix: SubgraphIndexView, run: Seq<char>) -> Seq<Seq<char>> {
    (if (ix.latest_run)(run) {
        seq!["latest"@]
    } else {
        Seq::empty()
    }) + (if is_some_of(ix.active_run, run) {
        seq!["active"@]
    } else {
        Seq::empty()
    }) + match (ix.latest_event)(run) {
        Some(e) => seq![e],
        None => Seq::empty(),
    }
}

/// The line of run `run` of task `task`.
pub open spec fn run_line(ix: SubgraphIndexView, task: Seq<char>, run: Seq<char>, depth: int) -> LineView {
    LineView {
        depth: depth + 1,
        kind: GraphNodeKind::Run,
        id: run,
        label: short(run),
        tags: run_tags(ix, run),
        detail: seq![
            ("run_id"@, run),
            ("task_id"@, task),
            ("latest_event"@, match (ix.latest_event)(run) {
                Some(e) => e,
                None => "unknown"@,
            }),
            ("active"@, bool_text(is_some_of(ix.active_run, run))),
        ],
        object: (ix.object)(GraphNodeKind::Run, run),
    }
}

/// The lines of runs `runs` of task `task`, each followed by its patchsets.
pub open spec fn run_lines(ix: SubgraphIndexView, task: Seq<char>, runs: Seq<Seq<char>>, depth: int) -> Seq<LineView>
    decreases runs.len(),
{
    if runs.len() == 0 {
        Seq::empty()
    } else {
        let r = runs.last();
        run_lines(ix, task, runs.drop_last(), depth).push(run_line(ix, task, r, depth)) + patchset_lines(
            ix,
            r,
            (ix.patchsets_of)(r),
            depth,
        )
    }
}

/// The line of task `task`.
pub open spec fn task_line(ix: SubgraphIndexView, task: Seq<char>, depth: int) -> LineView {
    LineView {
        depth,
        kind: GraphNodeKind::Task,
        id: task,
        label: short(task),
        tags: if is_some_of(ix.active_task, task) {
            seq!["active"@]
        } else {
            Seq::empty()
        },
        detail: seq![("task_id"@, task), ("active"@, bool_text(is_some_of(ix.active_task, task)))],
        object: (ix.object)(GraphNodeKind::Task, task),
    }
}

/// The subgraph of task `task` at `depth`: the task, then each of its runs
/// followed by the run's patchsets.
pub open spec fn task_subgraph(ix: SubgraphIndexView, task: Seq<char>, depth: int) -> Seq<LineView> {
    seq![task_line(ix, task, depth)] + run_lines(ix, task, (ix.runs_of)(task), depth)
}

pub(crate) fn one_pair(k: &str, v: String) -> (r: (String, String))
    ensures
        r.0@ == k@,
        r.1@ == v@,
{
    (String::from_str(k), v)
}

pub(crate) fn opt_is(o: &Option<String>, k: &str) -> (r: bool)
    ensures
        r == is_opt(*o, k@),
        r == is_some_of(opt_view(*o), k@),
{
    match o {
        Some(v) => str_eq(v.as_str(), k),
        None => false,
    }
}

/// Appends the subgraph of task `task_id` at `depth` to `graph_rows`.
pub fn push_task_subgraph(graph_rows: &mut Vec<GraphLine>, task_id: &str, depth: usize, ix: &SubgraphIndex)
    requires
        depth + 2 <= usize::MAX,
    ensures
        lines_view(final(graph_rows)@) == lines_view(old(graph_rows)@) + task_subgraph(
            ix@,
            task_id@,
            depth as int,
        ),
{
    proof {
        reveal_strlit("active");
        reveal_strlit("latest");
    }
    let ghost start = lines_view(graph_rows@);
    let active_task = opt_is(&ix.active_task_id, task_id);
    let mut task_tags: Vec<String> = Vec::new();
    if active_task {
        task_tags.push(String::from_str("active"));
    }
    let mut detail: Vec<(String, String)> = Vec::new();
    detail.push(one_pair("task_id", String::from_str(task_id)));
    detail.push(one_pair("active", bool_string(active_task)));
    let task_line_exec = GraphLine {
        depth,
        kind: GraphNodeKind::Task,
        id: String::from_str(task_id),
        label: short_id(task_id),
        tags: task_tags,
        detail,
        object: ix.object_details.get(GraphNodeKind::Task, task_id),
    };
    graph_rows.push(task_line_exec);
    proof {
        let l = lines_view(graph_rows@).last();
        assert(l.tags =~= task_line(ix@, task_id@, depth as int).tags);
        assert(l.detail =~= task_line(ix@, task_id@, depth as int).detail);
        assert(l == task_line(ix@, task_id@, depth as int));
        assert(lines_view(graph_rows@) =~= start.push(task_line(ix@, task_id@, depth as int)));
    }
    let runs = values_under_exec(&ix.runs_by_task, task_id);
    let ghost run_views = string_views(runs@);
    let mut i: usize = 0;
    assert(run_views.subrange(0, 0) =~= Seq::<Seq<char>>::empty());
    while i < runs.len()
        invariant
            i <= runs.len(),
            depth + 2 <= usize::MAX,
            run_views == string_views(runs@),
            run_views == values_under(ix.runs_by_task@, task_id@),
            lines_view(graph_rows@) == start + seq![task_line(ix@, task_id@, depth as int)] + run_lines(
                ix@,
                task_id@,
                run_views.subrange(0, i as int),
                depth as int,
            ),
        decreases runs.len() - i,
    {
        let run_id = runs[i].as_str();
        let ghost before = lines_view(graph_rows@);
        let ghost r = run_views[i as int];
        assert(r == run_id@);
        assert(run_views.subrange(0, i + 1).drop_last() =~= run_views.subrange(0, i as int));
        assert(run_views.subrange(0, i + 1).last() == r);
        let active_run = opt_is(&ix.active_run_id, run_id);
        let event = value_of_exec(&ix.latest_run_events, run_id);
        let mut tags: Vec<String> = Vec::new();
        if listed_exec(&ix.latest_runs, run_id) {
            tags.push(String::from_str("latest"));
        }
        if active_run {
            tags.push(String::from_str("active"));
        }
        let latest_event = match &event {
            Some(e) => {
                tags.push(e.clone());
                e.clone()
            },
            None => String::from_str("unknown"),
        };
        let mut detail: Vec<(String, String)> = Vec::new();
        detail.push(one_pair("run_id", String::from_str(run_id)));
        detail.push(one_pair("task_id", String::from_str(task_id)));
        detail.push(one_pair("latest_event", latest_event));
        detail.push(one_pair("active", bool_string(active_run)));
        let line = GraphLine {
            depth: depth + 1,
            kind: GraphNodeKind::Run,
            id: String::from_str(run_id),
            label: short_id(run_id),
            tags,
            detail,
            object: ix.object_details.get(GraphNodeKind::Run, run_id),
        };
        graph_rows.push(line);
        proof {
            let l = lines_view(graph_rows@).last();
            assert(l.tags =~= run_tags(ix@, r));
            assert(l.detail =~= run_line(ix@, task_id@, r, depth as int).detail);
            assert(l == run_line(ix@, task_id@, r, depth as int));
            assert(lines_view(graph_rows@) =~= before.push(run_line(ix@, task_id@, r, depth as int)));
        }
        let patchsets = values_under_exec(&ix.patchsets_by_run, run_id);
        let ghost ps_views = string_views(patchsets@);
        let ghost mid = lines_view(graph_rows@);
        let mut j: usize = 0;
        assert(ps_views.subrange(0, 0) =~= Seq::<Seq<char>>::empty());
        assert(mid + patchset_lines(ix@, r, ps_views.subrange(0, 0), depth as int) =~= mid);
        while j < patchsets.len()
            invariant
                j <= patchsets.len(),
                depth + 2 <= usize::MAX,
                r == run_id@,
                ps_views == string_views(patchsets@),
                lines_view(graph_rows@) == mid + patchset_lines(
                    ix@,
                    r,
                    ps_views.subrange(0, j as int),
                    depth as int,
                ),
            decreases patchsets.len() - j,
        {
            let patchset_id = patchsets[j].as_str();
            let ghost p = ps_views[j as int];
            let ghost prev = lines_view(graph_rows@);
            assert(p == patchset_id@);
            assert(ps_views.subrange(0, j + 1).drop_last() =~= ps_views.subrange(0, j as int));
            assert(ps_views.subrange(0, j + 1).last() == p);
            let mut ptags: Vec<String> = Vec::new();
            if listed_exec(&ix.latest_patchsets, patchset_id) {
                ptags.push(String::from_str("latest"));
            }
            let mut pdetail: Vec<(String, String)> = Vec::new();
            pdetail.push(one_pair("patchset_id", String::from_str(patchset_id)));
            pdetail.push(one_pair("run_id", String::from_str(run_id)));
            let pline = GraphLine {
                depth: depth + 2,
                kind: GraphNodeKind::Patchset,
                id: String::from_str(patchset_id),
                label: short_id(patchset_id),
                tags: ptags,
                detail: pdetail,
                object: ix.object_details.get(GraphNodeKind::Patchset, patchset_id),
            };
            graph_rows.push(pline);
            proof {
                let l = lines_view(graph_rows@).last();
                assert(l.tags =~= patchset_line(ix@, r, p, depth as int).tags);
                assert(l.detail =~= patchset_line(ix@, r, p, depth as int).detail);
                assert(l == patchset_line(ix@, r, p, depth as int));
                assert(lines_view(graph_rows@) =~= prev.push(patchset_line(ix@, r, p, depth as int)));
                assert(patchset_lines(ix@, r, ps_views.subrange(0, j + 1), depth as int) == patchset_lines(
                    ix@,
                    r,
                    ps_views.subrange(0, j as int),
                    depth as int,
                ).push(patchset_line(ix@, r, p, depth as int)));
                assert(lines_view(graph_rows@) =~= mid + patchset_lines(
                    ix@,
                    r,
                    ps_views.subrange(0, j + 1),
                    depth as int,
                ));
            }
            j += 1;
        }
        proof {
            assert(ps_views.subrange(0, patchsets.len() as int) =~= ps_views);
            assert(lines_view(graph_rows@) =~= start + seq![task_line(ix@, task_id@, depth as int)]
                + run_lines(ix@, task_id@, run_views.subrange(0, i + 1), depth as int));
        }
        i += 1;
    }
    assert(run_views.subrange(0, runs.len() as int) =~= run_views);
    assert(lines_view(graph_rows@) =~= start + task_subgraph(ix@, task_id@, depth as int));
}

} // verus!
