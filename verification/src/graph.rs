//! Thread-graph projection for the Code UI: node kinds, the capped node
//! selection that keeps the scheduler's active heads, and object details.
use vstd::prelude::*;
use vstd::set_lib::*;

use crate::text::{chars_of, concat, str_eq, string_of, string_of_range};

verus! {

/// Maximum nodes embedded in a Code UI thread graph.
pub const MAX_CODE_UI_THREAD_GRAPH_NODES: usize = 256;

/// Kinds of thread-graph nodes.
#[derive(Debug, Clone, Copy, PartialEq, Eq, Structural)]
pub enum GraphNodeKind {
    Intent,
    Plan,
    Task,
    Run,
    Patchset,
}

pub open spec fn kind_name(k: GraphNodeKind) -> Seq<char> {
    match k {
        GraphNodeKind::Intent => "intent"@,
        GraphNodeKind::Plan => "plan"@,
        GraphNodeKind::Task => "task"@,
        GraphNodeKind::Run => "run"@,
        GraphNodeKind::Patchset => "patchset"@,
    }
}

impl GraphNodeKind {
    /// The history object type of the node kind.
    pub fn history_type(self) -> (r: &'static str)
        ensures
            r@ == kind_name(self),
    {
        match self {
            GraphNodeKind::Intent => "intent",
            GraphNodeKind::Plan => "plan",
            GraphNodeKind::Task => "task",
            GraphNodeKind::Run => "run",
            GraphNodeKind::Patchset => "patchset",
        }
    }
}

/// One line of the rendered thread graph.
#[derive(Debug, Clone)]
pub struct GraphLine {
    pub depth: usize,
    pub kind: GraphNodeKind,
    pub id: String,
    pub label: String,
    pub tags: Vec<String>,
    /// Key/value detail shown for the node.
    pub detail: Vec<(String, String)>,
    /// The summary of the node's underlying object, when it was loaded.
    pub object: Option<GraphObjectDetail>,
}

/// Command-line arguments of `libra graph`: the canonical thread UUID to
/// inspect, and the repository to inspect instead of the current one.
#[derive(Debug, Clone)]
pub struct GraphArgs {
    pub thread_id: String,
    pub repo: Option<String>,
}

/// `value`, or its first `max_chars - 3` characters followed by `...` when
/// it is longer than `max_chars` characters.
pub open spec fn truncated(value: Seq<char>, max_chars: nat) -> Seq<char> {
    if value.len() <= max_chars {
        value
    } else {
        value.take(if max_chars >= 3 { max_chars - 3 } else { 0 }) + "..."@
    }
}

/// At most `max_chars` characters of `value`, marked with `...` when cut.
pub fn truncate_chars(value: &str, max_chars: usize) -> (r: String)
    ensures
        r@ == truncated(value@, max_chars as nat),
{
    let v = chars_of(value);
    if v.len() <= max_chars {
        return String::from_str(value);
    }
    let keep: usize = if max_chars >= 3 { max_chars - 3 } else { 0 };
    let head = string_of_range(&v, 0, keep);
    let r = concat(head.as_str(), "...");
    assert(v@.subrange(0, keep as int) =~= value@.take(keep as int));
    r
}

/// The first eight characters of an id.
pub fn short_id(id: &str) -> (r: String)
    ensures
        r@ == id@.take(if id@.len() < 8 { id@.len() as int } else { 8 }),
{
    let v = chars_of(id);
    let n: usize = if v.len() < 8 { v.len() } else { 8 };
    let r = string_of_range(&v, 0, n);
    assert(v@.subrange(0, n as int) =~= id@.take(n as int));
    r
}

/// The detail shown for a graph node's underlying object.
#[derive(Debug, Clone)]
pub struct GraphObjectDetail {
    pub object_type: String,
    pub hash: Option<String>,
    pub git_object_type: Option<String>,
    pub summary: Vec<(String, String)>,
}

impl GraphObjectDetail {
    /// The detail of an object that could not be loaded, and why.
    pub fn unavailable(kind: GraphNodeKind, reason: &str) -> (r: Self)
        ensures
            r.object_type@ == kind_name(kind),
            r.hash is None,
            r.git_object_type is None,
            r.summary@.len() == 2,
            r.summary@[0].0@ == "object_status"@ && r.summary@[0].1@ == "unavailable"@,
            r.summary@[1].0@ == "reason"@ && r.summary@[1].1@ == reason@,
    {
        let mut summary: Vec<(String, String)> = Vec::new();
        summary.push((String::from_str("object_status"), String::from_str("unavailable")));
        summary.push((String::from_str("reason"), String::from_str(reason)));
        GraphObjectDetail {
            object_type: String::from_str(kind.history_type()),
            hash: None,
            git_object_type: None,
            summary,
        }
    }
}

// ---------------------------------------------------------------------------
// Capped node selection
// ---------------------------------------------------------------------------
pub open spec fn opt_str(o: Option<&str>) -> Option<Seq<char>> {
    match o {
        Some(s) => Some(s@),
        None => None,
    }
}

/// A head tag: `head`, `selected`, `active` or `current`.
pub open spec fn head_tag(t: Seq<char>) -> bool {
    t == "head"@ || t == "selected"@ || t == "active"@ || t == "current"@
}

pub open spec fn has_head_tag(l: GraphLine) -> bool {
    exists|k: int| 0 <= k < l.tags@.len() && head_tag((#[trigger] l.tags@[k])@)
}

/// Selection class of a line: 0 for the selected plan or the active task or
/// run, 1 for other head-tagged lines, 2 for other patchsets, 3 otherwise.
pub open spec fn class_of(
    l: GraphLine,
    sel: Option<Seq<char>>,
    task: Option<Seq<char>>,
    run: Option<Seq<char>>,
) -> int {
    if sel == Some(l.id@) || task == Some(l.id@) || run == Some(l.id@) {
        0
    } else if has_head_tag(l) {
        1
    } else if l.kind == GraphNodeKind::Patchset {
        2
    } else {
        3
    }
}

/// Indices of the lines of class `c`, in order.
pub open spec fn class_indices(
    lines: Seq<GraphLine>,
    c: int,
    sel: Option<Seq<char>>,
    task: Option<Seq<char>>,
    run: Option<Seq<char>>,
) -> Seq<int>
    decreases lines.len(),
{
    if lines.len() == 0 {
        Seq::empty()
    } else {
        let p = class_indices(lines.drop_last(), c, sel, task, run);
        if class_of(lines.last(), sel, task, run) == c {
            p.push(lines.len() - 1)
        } else {
            p
        }
    }
}

/// `n - 1` down to `0`.
pub open spec fn newest_first(n: int) -> Seq<int> {
    Seq::new(n as nat, |i: int| n - 1 - i)
}

/// Selection priority: required heads, other tagged heads, patchsets
/// (newest first), then every line (newest first).
pub open spec fn candidates(
    lines: Seq<GraphLine>,
    sel: Option<Seq<char>>,
    task: Option<Seq<char>>,
    run: Option<Seq<char>>,
) -> Seq<int> {
    class_indices(lines, 0, sel, task, run) + class_indices(lines, 1, sel, task, run)
        + class_indices(lines, 2, sel, task, run).reverse() + newest_first(lines.len() as int)
}

/// The indices taken from `c` in order until `cap` distinct ones are kept.
pub open spec fn kept(c: Seq<int>, cap: nat) -> Set<int>
    decreases c.len(),
{
    if c.len() == 0 {
        Set::empty()
    } else {
        let s = kept(c.drop_last(), cap);
        if s.len() >= cap {
            s
        } else {
            s.insert(c.last())
        }
    }
}

/// The node indices a Code UI graph keeps: all of them up to the cap,
/// otherwise the first `cap` distinct candidates.
pub open spec fn selected_indices(
    lines: Seq<GraphLine>,
    sel: Option<Seq<char>>,
    task: Option<Seq<char>>,
    run: Option<Seq<char>>,
) -> Set<int> {
    if lines.len() <= MAX_CODE_UI_THREAD_GRAPH_NODES {
        set_int_range(0, lines.len() as int)
    } else {
        kept(candidates(lines, sel, task, run), MAX_CODE_UI_THREAD_GRAPH_NODES as nat)
    }
}

proof fn lemma_kept(c: Seq<int>, cap: nat)
    ensures
        kept(c, cap).finite(),
        kept(c, cap).len() <= cap,
        kept(c, cap).subset_of(c.to_set()),
        kept(c, cap).len() < cap ==> kept(c, cap) == c.to_set(),
    decreases c.len(),
{
    broadcast use vstd::seq_lib::seq_to_set_is_finite;
    if c.len() == 0 {
        assert(c.to_set() =~= Set::<int>::empty());
    } else {
        let p = c.drop_last();
        lemma_kept(p, cap);
        assert(c =~= p.push(c.last()));
        assert(c.to_set() =~= p.to_set().insert(c.last()));
        let s = kept(p, cap);
        if s.len() < cap {
            if s.contains(c.last()) {
                assert(s.insert(c.last()) =~= s);
            }
        }
    }
}

proof fn lemma_kept_mono(a: Seq<int>, b: Seq<int>, cap: nat)
    ensures
        kept(a, cap).subset_of(kept(a + b, cap)),
    decreases b.len(),
{
    if b.len() == 0 {
        assert(a + b =~= a);
    } else {
        lemma_kept_mono(a, b.drop_last(), cap);
        assert((a + b).drop_last() =~= a + b.drop_last());
    }
}

// ---------------------------------------------------------------------------
// Executable selection
// ---------------------------------------------------------------------------
pub open spec fn as_ints(s: Seq<usize>) -> Seq<int> {
    s.map_values(|x: usize| x as int)
}

pub open spec fn flag_set(flags: Seq<bool>) -> Set<int> {
    Set::new(|i: int| 0 <= i < flags.len() && flags[i])
}

proof fn lemma_flag_set_finite(flags: Seq<bool>)
    ensures
        flag_set(flags).finite(),
        flag_set(flags).subset_of(set_int_range(0, flags.len() as int)),
{
    lemma_int_range(0, flags.len() as int);
    lemma_len_subset(flag_set(flags), set_int_range(0, flags.len() as int));
}

fn is_head_tagged(l: &GraphLine) -> (r: bool)
    ensures
        r == has_head_tag(*l),
{
    let mut k: usize = 0;
    while k < l.tags.len()
        invariant
            k <= l.tags@.len(),
            forall|j: int| 0 <= j < k ==> !head_tag((#[trigger] l.tags@[j])@),
        decreases l.tags.len() - k,
    {
        let t = l.tags[k].as_str();
        if str_eq(t, "head") || str_eq(t, "selected") || str_eq(t, "active") || str_eq(
            t,
            "current",
        ) {
            assert(head_tag(l.tags@[k as int]@));
            return true;
        }
        k += 1;
    }
    false
}

fn is_id(o: Option<&str>, id: &String) -> (r: bool)
    ensures
        r == (opt_str(o) == Some(id@)),
{
    match o {
        Some(s) => str_eq(s, id.as_str()),
        None => false,
    }
}

fn line_class(
    l: &GraphLine,
    sel: Option<&str>,
    task: Option<&str>,
    run: Option<&str>,
) -> (r: u8)
    ensures
        r as int == class_of(*l, opt_str(sel), opt_str(task), opt_str(run)),
{
    if is_id(sel, &l.id) || is_id(task, &l.id) || is_id(run, &l.id) {
        0
    } else if is_head_tagged(l) {
        1
    } else if l.kind == GraphNodeKind::Patchset {
        2
    } else {
        3
    }
}

fn indices_of_class(
    lines: &[GraphLine],
    c: u8,
    sel: Option<&str>,
    task: Option<&str>,
    run: Option<&str>,
) -> (r: Vec<usize>)
    ensures
        as_ints(r@) == class_indices(
            lines@,
            c as int,
            opt_str(sel),
            opt_str(task),
            opt_str(run),
        ),
        forall|k: int| 0 <= k < r@.len() ==> r@[k] < lines@.len(),
{
    let mut r: Vec<usize> = Vec::new();
    let mut i: usize = 0;
    assert(lines@.subrange(0, 0) =~= Seq::<GraphLine>::empty());
    assert(as_ints(r@) =~= Seq::<int>::empty());
    while i < lines.len()
        invariant
            i <= lines@.len(),
            as_ints(r@) == class_indices(
                lines@.subrange(0, i as int),
                c as int,
                opt_str(sel),
                opt_str(task),
                opt_str(run),
            ),
            forall|k: int| 0 <= k < r@.len() ==> r@[k] < i,
        decreases lines.len() - i,
    {
        let ghost sub = lines@.subrange(0, i + 1);
        assert(sub.drop_last() =~= lines@.subrange(0, i as int));
        assert(sub.last() == lines@[i as int]);
        if line_class(&lines[i], sel, task, run) == c {
            let ghost before = r@;
            r.push(i);
            assert(as_ints(r@) =~= as_ints(before).push(
                i as int,
            ));
        }
        i += 1;
    }
    assert(lines@.subrange(0, lines@.len() as int) =~= lines@);
    r
}

/// Marks `i` kept unless the cap is reached.
fn keep_index(flags: &mut Vec<bool>, count: &mut usize, i: usize, Ghost(c): Ghost<Seq<int>>)
    requires
        i < old(flags)@.len(),
        flag_set(old(flags)@) == kept(c, MAX_CODE_UI_THREAD_GRAPH_NODES as nat),
        *old(count) as int == flag_set(old(flags)@).len(),
    ensures
        final(flags)@.len() == old(flags)@.len(),
        flag_set(final(flags)@) == kept(c.push(i as int), MAX_CODE_UI_THREAD_GRAPH_NODES as nat),
        *final(count) as int == flag_set(final(flags)@).len(),
{
    proof {
        lemma_kept(c, MAX_CODE_UI_THREAD_GRAPH_NODES as nat);
        assert(c.push(i as int).drop_last() =~= c);
    }
    if *count >= MAX_CODE_UI_THREAD_GRAPH_NODES {
        return;
    }
    if !flags[i] {
        let ghost before = flags@;
        flags.set(i, true);
        proof {
            lemma_flag_set_finite(before);
            assert(flag_set(flags@) =~= flag_set(before).insert(i as int));
        }
        *count = *count + 1;
    } else {
        assert(flag_set(flags@).insert(i as int) =~= flag_set(flags@));
    }
}

/// The node indices a Code UI graph keeps, in ascending order: every line up
/// to the cap, otherwise the required heads (selected plan, active task and
/// run), then the other head-tagged lines, then patchsets and then any
/// lines, newest first, until the cap is reached.
pub fn select_code_ui_thread_graph_indices(
    lines: &[GraphLine],
    selected_plan_id: Option<&str>,
    active_task_id: Option<&str>,
    active_run_id: Option<&str>,
) -> (r: Vec<usize>)
    ensures
        forall|i: int|
            #![trigger as_ints(r@).contains(i)]
            as_ints(r@).contains(i) <==> selected_indices(
                lines@,
                opt_str(selected_plan_id),
                opt_str(active_task_id),
                opt_str(active_run_id),
            ).contains(i),
        forall|a: int, b: int| 0 <= a < b < r@.len() ==> r@[a] < r@[b],
{
    let total = lines.len();
    let ghost sel = opt_str(selected_plan_id);
    let ghost task = opt_str(active_task_id);
    let ghost run = opt_str(active_run_id);
    let mut flags: Vec<bool> = Vec::new();
    let mut i: usize = 0;
    while i < total
        invariant
            i <= total == lines@.len(),
            flags@.len() == i,
            forall|k: int| 0 <= k < i ==> !flags@[k],
        decreases total - i,
    {
        flags.push(false);
        i += 1;
    }
    assert(flag_set(flags@) =~= Set::<int>::empty());
    let mut count: usize = 0;
    if total <= MAX_CODE_UI_THREAD_GRAPH_NODES {
        let mut r: Vec<usize> = Vec::new();
        let mut k: usize = 0;
        while k < total
            invariant
                k <= total == lines@.len(),
                r@.len() == k,
                forall|j: int| 0 <= j < k ==> r@[j] == j,
            decreases total - k,
        {
            r.push(k);
            k += 1;
        }
        proof {
            assert forall|x: int|
                #![trigger as_ints(r@).contains(x)]
                as_ints(r@).contains(x) <==> set_int_range(
                    0,
                    total as int,
                ).contains(x) by {
                if 0 <= x < total {
                    assert(as_ints(r@)[x] == x);
                }
            }
        }
        return r;
    }
    let req = indices_of_class(lines, 0, selected_plan_id, active_task_id, active_run_id);
    let tag = indices_of_class(lines, 1, selected_plan_id, active_task_id, active_run_id);
    let patch = indices_of_class(lines, 2, selected_plan_id, active_task_id, active_run_id);
    let ghost creq = class_indices(lines@, 0, sel, task, run);
    let ghost ctag = class_indices(lines@, 1, sel, task, run);
    let ghost cpatch = class_indices(lines@, 2, sel, task, run).reverse();
    let ghost cnew = newest_first(total as int);
    // Required heads.
    let mut k: usize = 0;
    assert(creq.subrange(0, 0) =~= Seq::<int>::empty());
    while k < req.len()
        invariant
            k <= req@.len(),
            total == lines@.len(),
            flags@.len() == total,
            as_ints(req@) == creq,
            forall|j: int| 0 <= j < req@.len() ==> req@[j] < total,
            flag_set(flags@) == kept(creq.subrange(0, k as int), MAX_CODE_UI_THREAD_GRAPH_NODES as nat),
            count as int == flag_set(flags@).len(),
        decreases req.len() - k,
    {
        assert(creq.subrange(0, k + 1) =~= creq.subrange(0, k as int).push(req@[k as int] as int));
        keep_index(&mut flags, &mut count, req[k], Ghost(creq.subrange(0, k as int)));
        k += 1;
    }
    assert(creq.subrange(0, req@.len() as int) =~= creq);
    // Other head-tagged lines.
    let ghost pre1 = creq;
    let mut k: usize = 0;
    assert(pre1 + ctag.subrange(0, 0) =~= pre1);
    while k < tag.len()
        invariant
            k <= tag@.len(),
            total == lines@.len(),
            flags@.len() == total,
            as_ints(tag@) == ctag,
            forall|j: int| 0 <= j < tag@.len() ==> tag@[j] < total,
            flag_set(flags@) == kept(pre1 + ctag.subrange(0, k as int), MAX_CODE_UI_THREAD_GRAPH_NODES as nat),
            count as int == flag_set(flags@).len(),
        decreases tag.len() - k,
    {
        assert(pre1 + ctag.subrange(0, k + 1) =~= (pre1 + ctag.subrange(0, k as int)).push(
            tag@[k as int] as int,
        ));
        keep_index(&mut flags, &mut count, tag[k], Ghost(pre1 + ctag.subrange(0, k as int)));
        k += 1;
    }
    assert(ctag.subrange(0, tag@.len() as int) =~= ctag);
    // Patchsets, newest first.
    let ghost pre2 = pre1 + ctag;
    let mut k: usize = 0;
    assert(pre2 + cpatch.subrange(0, 0) =~= pre2);
    while k < patch.len()
        invariant
            k <= patch@.len(),
            total == lines@.len(),
            flags@.len() == total,
            as_ints(patch@).reverse() == cpatch,
            forall|j: int| 0 <= j < patch@.len() ==> patch@[j] < total,
            flag_set(flags@) == kept(pre2 + cpatch.subrange(0, k as int), MAX_CODE_UI_THREAD_GRAPH_NODES as nat),
            count as int == flag_set(flags@).len(),
        decreases patch.len() - k,
    {
        let idx = patch[patch.len() - 1 - k];
        assert(cpatch[k as int] == idx as int);
        assert(pre2 + cpatch.subrange(0, k + 1) =~= (pre2 + cpatch.subrange(0, k as int)).push(
            idx as int,
        ));
        keep_index(&mut flags, &mut count, idx, Ghost(pre2 + cpatch.subrange(0, k as int)));
        k += 1;
    }
    assert(cpatch.subrange(0, patch@.len() as int) =~= cpatch);
    // Every line, newest first.
    let ghost pre3 = pre2 + cpatch;
    let mut k: usize = 0;
    assert(pre3 + cnew.subrange(0, 0) =~= pre3);
    while k < total
        invariant
            k <= total == lines@.len(),
            flags@.len() == total,
            cnew == newest_first(total as int),
            flag_set(flags@) == kept(pre3 + cnew.subrange(0, k as int), MAX_CODE_UI_THREAD_GRAPH_NODES as nat),
            count as int == flag_set(flags@).len(),
        decreases total - k,
    {
        let idx = total - 1 - k;
        assert(pre3 + cnew.subrange(0, k + 1) =~= (pre3 + cnew.subrange(0, k as int)).push(
            idx as int,
        ));
        keep_index(&mut flags, &mut count, idx, Ghost(pre3 + cnew.subrange(0, k as int)));
        k += 1;
    }
    assert(cnew.subrange(0, total as int) =~= cnew);
    assert(pre3 + cnew =~= candidates(lines@, sel, task, run));
    // Ascending list of the kept indices.
    let mut r: Vec<usize> = Vec::new();
    let mut j: usize = 0;
    while j < total
        invariant
            j <= total == flags@.len(),
            forall|a: int, b: int| 0 <= a < b < r@.len() ==> r@[a] < r@[b],
            forall|a: int| 0 <= a < r@.len() ==> r@[a] < j,
            forall|x: int|
                #![trigger as_ints(r@).contains(x)]
                as_ints(r@).contains(x) <==> (0 <= x < j && flags@[x]),
        decreases total - j,
    {
        if flags[j] {
            let ghost before = r@;
            r.push(j);
            proof {
                assert forall|x: int|
                    #![trigger as_ints(r@).contains(x)]
                    as_ints(r@).contains(x) <==> (0 <= x < j + 1
                        && flags@[x]) by {
                    let m = as_ints(r@);
                    let mb = as_ints(before);
                    assert(m =~= mb.push(j as int));
                    if x == j {
                        assert(m[before.len() as int] == x);
                    }
                    if mb.contains(x) {
                        let q = choose|q: int| 0 <= q < mb.len() && mb[q] == x;
                        assert(m[q] == x);
                    }
                    if m.contains(x) && x != j {
                        let q = choose|q: int| 0 <= q < m.len() && m[q] == x;
                        assert(mb[q] == x);
                    }
                }
            }
        } else {
            proof {
                assert forall|x: int|
                    #![trigger as_ints(r@).contains(x)]
                    as_ints(r@).contains(x) <==> (0 <= x < j + 1
                        && flags@[x]) by {}
            }
        }
        j += 1;
    }
    r
}

// ---------------------------------------------------------------------------
// What the selection promises
// ---------------------------------------------------------------------------
/// The Code UI graph never exceeds the node cap: it keeps every line up to
/// the cap and exactly the cap beyond it, and only indices of real lines.
pub proof fn law_graph_respects_node_cap(
    lines: Seq<GraphLine>,
    sel: Option<Seq<char>>,
    task: Option<Seq<char>>,
    run: Option<Seq<char>>,
)
    ensures
        selected_indices(lines, sel, task, run).finite(),
        selected_indices(lines, sel, task, run).len() == if lines.len()
            <= MAX_CODE_UI_THREAD_GRAPH_NODES {
            lines.len()
        } else {
            MAX_CODE_UI_THREAD_GRAPH_NODES as nat
        },
        forall|i: int| #[trigger]
            selected_indices(lines, sel, task, run).contains(i) ==> 0 <= i < lines.len(),
{
    broadcast use vstd::seq_lib::seq_to_set_is_finite;
    let n = lines.len() as int;
    lemma_int_range(0, n);
    if lines.len() > MAX_CODE_UI_THREAD_GRAPH_NODES {
        let cap = MAX_CODE_UI_THREAD_GRAPH_NODES as nat;
        let c = candidates(lines, sel, task, run);
        lemma_kept(c, cap);
        lemma_class_indices_range(lines, 0, sel, task, run);
        lemma_class_indices_range(lines, 1, sel, task, run);
        lemma_class_indices_range(lines, 2, sel, task, run);
        let req = class_indices(lines, 0, sel, task, run);
        let tag = class_indices(lines, 1, sel, task, run);
        let pat = class_indices(lines, 2, sel, task, run).reverse();
        let newest = newest_first(n);
        assert forall|i: int| c.to_set().contains(i) implies 0 <= i < n by {
            let q = choose|q: int| 0 <= q < c.len() && c[q] == i;
            if q < req.len() {
                assert(req[q] == i);
            } else if q < req.len() + tag.len() {
                assert(tag[q - req.len()] == i);
            } else if q < req.len() + tag.len() + pat.len() {
                let r = q - req.len() - tag.len();
                assert(pat[r] == i);
                assert(class_indices(lines, 2, sel, task, run)[pat.len() - 1 - r] == i);
            } else {
                assert(newest[q - req.len() - tag.len() - pat.len()] == i);
            }
        }
        // Every line is a candidate, so the cap is reached.
        assert forall|i: int| set_int_range(0, n).contains(i) implies c.to_set().contains(i) by {
            let q = req.len() + tag.len() + pat.len() + (n - 1 - i);
            assert(c[q] == newest[n - 1 - i]);
            assert(c[q] == i);
        }
        if kept(c, cap).len() < cap {
            lemma_len_subset(set_int_range(0, n), c.to_set());
        }
    }
}

proof fn lemma_class_indices_range(
    lines: Seq<GraphLine>,
    c: int,
    sel: Option<Seq<char>>,
    task: Option<Seq<char>>,
    run: Option<Seq<char>>,
)
    ensures
        forall|k: int|
            0 <= k < class_indices(lines, c, sel, task, run).len() ==> 0 <= #[trigger] class_indices(
                lines,
                c,
                sel,
                task,
                run,
            )[k] < lines.len(),
        forall|a: int, b: int|
            0 <= a < b < class_indices(lines, c, sel, task, run).len() ==> #[trigger] class_indices(
                lines,
                c,
                sel,
                task,
                run,
            )[a] < #[trigger] class_indices(lines, c, sel, task, run)[b],
    decreases lines.len(),
{
    if lines.len() > 0 {
        let p = class_indices(lines.drop_last(), c, sel, task, run);
        let s = class_indices(lines, c, sel, task, run);
        lemma_class_indices_range(lines.drop_last(), c, sel, task, run);
        if class_of(lines.last(), sel, task, run) == c {
            assert(s == p.push(lines.len() - 1));
            assert forall|k: int| 0 <= k < s.len() implies 0 <= #[trigger] s[k] < lines.len() by {
                if k < p.len() {
                    assert(s[k] == p[k]);
                }
            }
            assert forall|a: int, b: int| 0 <= a < b < s.len() implies #[trigger] s[a] < #[trigger] s[b] by {
                assert(s[a] == p[a]);
                if b < p.len() {
                    assert(s[b] == p[b]);
                }
            }
        }
    }
}

/// The scheduler's active heads survive the cap: when there are no more
/// required heads (selected plan, active task and run) than the cap allows,
/// every one of them is kept.
pub proof fn law_graph_keeps_required_heads(
    lines: Seq<GraphLine>,
    sel: Option<Seq<char>>,
    task: Option<Seq<char>>,
    run: Option<Seq<char>>,
    i: int,
)
    requires
        0 <= i < lines.len(),
        class_of(lines[i], sel, task, run) == 0,
        class_indices(lines, 0, sel, task, run).len() <= MAX_CODE_UI_THREAD_GRAPH_NODES,
    ensures
        selected_indices(lines, sel, task, run).contains(i),
{
    broadcast use vstd::seq_lib::seq_to_set_is_finite;
    if lines.len() > MAX_CODE_UI_THREAD_GRAPH_NODES {
        let cap = MAX_CODE_UI_THREAD_GRAPH_NODES as nat;
        let req = class_indices(lines, 0, sel, task, run);
        let rest = class_indices(lines, 1, sel, task, run) + class_indices(lines, 2, sel, task, run).reverse()
            + newest_first(lines.len() as int);
        lemma_class_member(lines, 0, sel, task, run, i);
        lemma_kept(req, cap);
        lemma_kept_mono(req, rest, cap);
        assert(candidates(lines, sel, task, run) =~= req + rest);
        req.unique_seq_to_set();
        if kept(req, cap).len() >= cap {
            lemma_len_subset(kept(req, cap), req.to_set());
            vstd::set_lib::lemma_subset_equality(kept(req, cap), req.to_set());
        }
        assert(req.to_set().contains(i));
    } else {
        lemma_int_range(0, lines.len() as int);
    }
}

proof fn lemma_class_member(
    lines: Seq<GraphLine>,
    c: int,
    sel: Option<Seq<char>>,
    task: Option<Seq<char>>,
    run: Option<Seq<char>>,
    i: int,
)
    requires
        0 <= i < lines.len(),
        class_of(lines[i], sel, task, run) == c,
    ensures
        class_indices(lines, c, sel, task, run).contains(i),
        class_indices(lines, c, sel, task, run).no_duplicates(),
    decreases lines.len(),
{
    lemma_class_indices_range(lines, c, sel, task, run);
    let s = class_indices(lines, c, sel, task, run);
    assert forall|a: int, b: int| 0 <= a < s.len() && 0 <= b < s.len() && a != b implies s[a]
        != s[b] by {
        if a < b {
            assert(s[a] < s[b]);
        } else {
            assert(s[b] < s[a]);
        }
    }
    if i == lines.len() - 1 {
        assert(s[s.len() - 1] == i);
    } else {
        lemma_class_member(lines.drop_last(), c, sel, task, run, i);
        let p = class_indices(lines.drop_last(), c, sel, task, run);
        let q = choose|q: int| 0 <= q < p.len() && p[q] == i;
        assert(s[q] == i);
    }
}

} // verus!
