//! The bounded rename-destination probe of `status`: its two budgets (every
//! enumerated entry, and every qualified destination), the classification
//! of blocked paths, and the collapse of untracked directory markers that
//! rename pairing consumed.
use vstd::prelude::*;

use crate::order::{chars_less, str_lt};
use crate::seqs::{insertion_sort, lemma_insert_at};
use crate::text::{chars_of, parse_u64, parse_u64_vec, split, split_vec, string_views, views};

verus! {

/// Cross-root enumeration budget: every entry taken from a directory counts.
pub const PROBE_MAX_ENUMERATED_ENTRIES: usize = 50_000;

/// Qualified-destination budget.
pub const PROBE_MAX_QUALIFIED_DESTINATIONS: usize = 10_000;

/// Why a path could not be inspected.
#[derive(Debug, Clone, Copy, PartialEq, Eq, Structural)]
pub enum IoBlockedReason {
    PermissionDenied,
    IoError,
}

impl IoBlockedReason {
    /// The reason of an I/O failure, given whether its kind is
    /// `PermissionDenied`.
    pub fn from_error(permission_denied: bool) -> (r: Self)
        ensures
            r == (if permission_denied {
                IoBlockedReason::PermissionDenied
            } else {
                IoBlockedReason::IoError
            }),
    {
        if permission_denied {
            IoBlockedReason::PermissionDenied
        } else {
            IoBlockedReason::IoError
        }
    }
}

/// The probe's budgets.
#[derive(Debug, Clone, Copy, PartialEq, Eq, Structural)]
pub struct ProbeLimits {
    pub max_enumerated_entries: usize,
    pub max_qualified_destinations: usize,
}

/// A budget override: a positive number lowers the default; anything else
/// keeps it.
pub open spec fn overridden(raw: Option<Seq<char>>, default: nat) -> nat {
    match raw {
        Some(t) => match parse_u64(t) {
            Some(v) => if v > 0 && v < default {
                v as nat
            } else {
                default
            },
            None => default,
        },
        None => default,
    }
}

fn override_value(raw: Option<&str>, default: usize) -> (r: usize)
    ensures
        r == overridden(
            match raw {
                Some(t) => Some(t@),
                None => None,
            },
            default as nat,
        ),
{
    match raw {
        None => default,
        Some(t) => {
            let v = chars_of(t);
            match parse_u64_vec(&v) {
                Some(n) => if n > 0 && n < default as u64 {
                    n as usize
                } else {
                    default
                },
                None => default,
            }
        },
    }
}

impl ProbeLimits {
    /// The default budgets.
    pub fn defaults() -> (r: Self)
        ensures
            r.max_enumerated_entries == PROBE_MAX_ENUMERATED_ENTRIES,
            r.max_qualified_destinations == PROBE_MAX_QUALIFIED_DESTINATIONS,
    {
        ProbeLimits {
            max_enumerated_entries: PROBE_MAX_ENUMERATED_ENTRIES,
            max_qualified_destinations: PROBE_MAX_QUALIFIED_DESTINATIONS,
        }
    }

    /// The budgets with test overrides (the enumeration and destination
    /// budget settings of a debug build), each only able to lower its
    /// default.
    pub fn effective(enumeration: Option<&str>, destinations: Option<&str>) -> (r: Self)
        ensures
            r.max_enumerated_entries == overridden(
                match enumeration {
                    Some(t) => Some(t@),
                    None => None,
                },
                PROBE_MAX_ENUMERATED_ENTRIES as nat,
            ),
            r.max_qualified_destinations == overridden(
                match destinations {
                    Some(t) => Some(t@),
                    None => None,
                },
                PROBE_MAX_QUALIFIED_DESTINATIONS as nat,
            ),
            r.max_enumerated_entries <= PROBE_MAX_ENUMERATED_ENTRIES,
            r.max_qualified_destinations <= PROBE_MAX_QUALIFIED_DESTINATIONS,
    {
        ProbeLimits {
            max_enumerated_entries: override_value(enumeration, PROBE_MAX_ENUMERATED_ENTRIES),
            max_qualified_destinations: override_value(
                destinations,
                PROBE_MAX_QUALIFIED_DESTINATIONS,
            ),
        }
    }
}

/// Which budget tripped.
#[derive(Debug, Clone, Copy, PartialEq, Eq, Structural)]
pub enum ProbeBudgetKind {
    Enumeration,
    Destination,
}

/// The probe's running budget: entries enumerated, destinations kept, and
/// the budget that tripped first (after which nothing more is taken).
#[derive(Debug, Clone, Copy)]
pub struct ProbeBudget {
    limits: ProbeLimits,
    enumerated: usize,
    kept: usize,
    truncated: Option<ProbeBudgetKind>,
}

impl ProbeBudget {
    #[verifier::type_invariant]
    spec fn within(self) -> bool {
        &&& self.kept <= self.limits.max_qualified_destinations
        &&& self.limits.max_enumerated_entries < usize::MAX
        &&& self.enumerated <= self.limits.max_enumerated_entries + 1
        &&& (self.truncated is None ==> self.enumerated <= self.limits.max_enumerated_entries)
    }

    /// Entries enumerated so far.
    pub closed spec fn enumerated_count(self) -> nat {
        self.enumerated as nat
    }

    /// Destinations kept so far.
    pub closed spec fn kept_count(self) -> nat {
        self.kept as nat
    }

    /// The budget that tripped, if any.
    pub closed spec fn tripped(self) -> Option<ProbeBudgetKind> {
        self.truncated
    }

    /// The limits the budget enforces.
    pub closed spec fn limits_of(self) -> ProbeLimits {
        self.limits
    }

    /// A fresh budget.
    pub fn new(limits: ProbeLimits) -> (r: Self)
        requires
            limits.max_enumerated_entries < usize::MAX,
        ensures
            r.enumerated_count() == 0,
            r.kept_count() == 0,
            r.tripped() is None,
            r.limits_of() == limits,
    {
        ProbeBudget { limits, enumerated: 0, kept: 0, truncated: None }
    }

    /// The budget that tripped first, if any.
    pub fn truncated(&self) -> (r: Option<ProbeBudgetKind>)
        ensures
            r == self.tripped(),
    {
        self.truncated
    }

    /// Charges one enumerated entry; `false` (and the enumeration budget
    /// recorded as tripped) once more entries were taken than allowed.
    pub fn charge_entry(&mut self) -> (r: bool)
        requires
            old(self).tripped() is None,
        ensures
            final(self).limits_of() == old(self).limits_of(),
            final(self).kept_count() == old(self).kept_count(),
            final(self).enumerated_count() == old(self).enumerated_count() + 1,
            r == (final(self).enumerated_count() <= old(self).limits_of().max_enumerated_entries),
            r ==> final(self).tripped() is None,
            !r ==> final(self).tripped() == Some(ProbeBudgetKind::Enumeration),
    {
        proof {
            use_type_invariant(&*self);
        }
        let n = self.enumerated + 1;
        if n > self.limits.max_enumerated_entries {
            *self = ProbeBudget {
                limits: self.limits,
                enumerated: n,
                kept: self.kept,
                truncated: Some(ProbeBudgetKind::Enumeration),
            };
            false
        } else {
            self.enumerated = n;
            true
        }
    }

    /// Keeps one qualified destination; `false` (and the destination budget
    /// recorded as tripped) when the budget is already full.
    pub fn admit_destination(&mut self) -> (r: bool)
        requires
            old(self).tripped() is None,
        ensures
            final(self).limits_of() == old(self).limits_of(),
            final(self).enumerated_count() == old(self).enumerated_count(),
            r == (old(self).kept_count() < old(self).limits_of().max_qualified_destinations),
            r ==> final(self).kept_count() == old(self).kept_count() + 1 && final(self).tripped() is None,
            !r ==> final(self).kept_count() == old(self).kept_count() && final(self).tripped() == Some(
                ProbeBudgetKind::Destination,
            ),
    {
        proof {
            use_type_invariant(&*self);
        }
        if self.kept >= self.limits.max_qualified_destinations {
            self.truncated = Some(ProbeBudgetKind::Destination);
            false
        } else {
            self.kept = self.kept + 1;
            true
        }
    }

    /// Destinations kept so far; never more than the destination budget.
    pub fn kept(&self) -> (r: usize)
        ensures
            r == self.kept_count(),
            r <= self.limits_of().max_qualified_destinations,
    {
        proof {
            use_type_invariant(self);
        }
        self.kept
    }
}

// ---------------------------------------------------------------------------
// Untracked directory markers
// ---------------------------------------------------------------------------

/// The pieces of `s` that are not empty, in order.
pub open spec fn drop_empty(s: Seq<Seq<char>>) -> Seq<Seq<char>>
    decreases s.len(),
{
    if s.len() == 0 {
        s
    } else if s.last().len() > 0 {
        drop_empty(s.drop_last()).push(s.last())
    } else {
        drop_empty(s.drop_last())
    }
}

/// The non-empty `/`-separated components of a workdir-relative path.
pub open spec fn components(p: Seq<char>) -> Seq<Seq<char>> {
    drop_empty(split(p, '/'))
}

/// Whether path `p` lies under (or is) `dir`, component-wise.
pub open spec fn under(p: Seq<char>, dir: Seq<char>) -> bool {
    components(dir).len() <= components(p).len() && components(p).take(
        components(dir).len() as int,
    ) == components(dir)
}

/// Whether `p` is one of `set`, as paths.
pub open spec fn path_in(set: Seq<String>, p: Seq<char>) -> bool {
    exists|i: int| 0 <= i < set.len() && components(#[trigger] set[i]@) == components(p)
}

/// Whether some destination lies under `dir`.
pub open spec fn has_candidate(destinations: Seq<String>, dir: Seq<char>) -> bool {
    exists|j: int| 0 <= j < destinations.len() && under((#[trigger] destinations[j])@, dir)
}

/// Whether some destination under `dir` was not consumed.
pub open spec fn has_unconsumed(destinations: Seq<String>, consumed: Seq<String>, dir: Seq<char>) -> bool {
    exists|j: int|
        0 <= j < destinations.len() && under((#[trigger] destinations[j])@, dir) && !path_in(
            consumed,
            destinations[j]@,
        )
}

/// Whether an untracked row survives the collapse: a plain row survives
/// unless rename pairing consumed it; a directory row (`dir/`) survives
/// unless the probe saw a candidate under it and every such candidate was
/// consumed.
pub open spec fn marker_kept(entry: Seq<char>, destinations: Seq<String>, consumed: Seq<String>) -> bool {
    if !(entry.len() > 0 && entry.last() == '/') {
        !path_in(consumed, entry)
    } else {
        has_unconsumed(destinations, consumed, entry) || !has_candidate(destinations, entry)
    }
}

fn copy_chars(v: &Vec<char>) -> (r: Vec<char>)
    ensures
        r@ == v@,
{
    let mut out: Vec<char> = Vec::new();
    let mut i: usize = 0;
    while i < v.len()
        invariant
            i <= v.len(),
            out@ == v@.subrange(0, i as int),
        decreases v.len() - i,
    {
        out.push(v[i]);
        i += 1;
        assert(out@ =~= v@.subrange(0, i as int));
    }
    assert(v@.subrange(0, v.len() as int) =~= v@);
    out
}

fn path_components(p: &str) -> (r: Vec<Vec<char>>)
    ensures
        views(r@) == components(p@),
{
    let v = chars_of(p);
    let pieces = split_vec(&v, '/');
    let mut out: Vec<Vec<char>> = Vec::new();
    let mut i: usize = 0;
    while i < pieces.len()
        invariant
            i <= pieces.len(),
            views(pieces@) == split(p@, '/'),
            views(out@) == drop_empty(views(pieces@).subrange(0, i as int)),
        decreases pieces.len() - i,
    {
        let ghost pre = views(pieces@).subrange(0, i as int);
        assert(views(pieces@).subrange(0, i + 1).drop_last() =~= pre);
        assert(views(pieces@).subrange(0, i + 1).last() == pieces@[i as int]@);
        if pieces[i].len() > 0 {
            let piece = copy_chars(&pieces[i]);
            out.push(piece);
            assert(views(out@) =~= drop_empty(pre).push(pieces@[i as int]@));
        }
        i += 1;
    }
    assert(views(pieces@).subrange(0, pieces.len() as int) =~= views(pieces@));
    out
}

fn same_components(a: &Vec<Vec<char>>, b: &Vec<Vec<char>>, n: usize) -> (r: bool)
    requires
        n <= a.len(),
        n <= b.len(),
    ensures
        r == (views(a@).take(n as int) == views(b@).take(n as int)),
{
    let mut i: usize = 0;
    while i < n
        invariant
            i <= n <= a.len(),
            n <= b.len(),
            views(a@).take(i as int) == views(b@).take(i as int),
        decreases n - i,
    {
        if !crate::text::seq_eq(&a[i], &b[i]) {
            assert(views(a@).take(n as int)[i as int] != views(b@).take(n as int)[i as int]);
            return false;
        }
        assert(views(a@).take(i + 1) =~= views(b@).take(i + 1));
        i += 1;
    }
    true
}

/// Whether path `p` lies under (or is) `dir`, component-wise
/// (`Path::starts_with`).
pub fn path_under(p: &str, dir: &str) -> (r: bool)
    ensures
        r == under(p@, dir@),
{
    let pc = path_components(p);
    let dc = path_components(dir);
    if dc.len() > pc.len() {
        return false;
    }
    let r = same_components(&pc, &dc, dc.len());
    assert(views(dc@).take(dc.len() as int) =~= views(dc@));
    r
}

fn path_listed(set: &Vec<String>, p: &str) -> (r: bool)
    ensures
        r == path_in(set@, p@),
{
    let pc = path_components(p);
    let mut i: usize = 0;
    while i < set.len()
        invariant
            i <= set.len(),
            views(pc@) == components(p@),
            forall|k: int| 0 <= k < i ==> components((#[trigger] set@[k])@) != components(p@),
        decreases set.len() - i,
    {
        let sc = path_components(set[i].as_str());
        if sc.len() == pc.len() && same_components(&sc, &pc, pc.len()) {
            assert(views(sc@).take(pc.len() as int) =~= views(sc@));
            assert(views(pc@).take(pc.len() as int) =~= views(pc@));
            assert(components(set@[i as int]@) == components(p@));
            return true;
        }
        proof {
            if sc.len() == pc.len() {
                assert(views(sc@).take(pc.len() as int) =~= views(sc@));
                assert(views(pc@).take(pc.len() as int) =~= views(pc@));
            } else {
                assert(views(sc@).len() != views(pc@).len());
            }
            assert(components(set@[i as int]@) != components(p@));
        }
        i += 1;
    }
    false
}

fn entry_kept(entry: &String, destinations: &Vec<String>, consumed: &Vec<String>) -> (r: bool)
    ensures
        r == marker_kept(entry@, destinations@, consumed@),
{
    let v = chars_of(entry.as_str());
    let is_dir = v.len() > 0 && v[v.len() - 1] == '/';
    if !is_dir {
        return !path_listed(consumed, entry.as_str());
    }
    let mut saw = false;
    let mut j: usize = 0;
    while j < destinations.len()
        invariant
            j <= destinations.len(),
            v@ == entry@,
            v@.len() > 0 && v@.last() == '/',
            saw == exists|k: int| 0 <= k < j && under((#[trigger] destinations@[k])@, entry@),
            forall|k: int|
                0 <= k < j && under((#[trigger] destinations@[k])@, entry@) ==> path_in(
                    consumed@,
                    destinations@[k]@,
                ),
        decreases destinations.len() - j,
    {
        if path_under(destinations[j].as_str(), entry.as_str()) {
            assert(under(destinations@[j as int]@, entry@));
            saw = true;
            if !path_listed(consumed, destinations[j].as_str()) {
                assert(has_unconsumed(destinations@, consumed@, entry@));
                return true;
            }
        }
        j += 1;
    }
    !saw
}

/// Removes the untracked rows that rename pairing consumed, but only after a
/// complete probe (no truncation, no blocked path): a plain row goes when it
/// was consumed as a destination; a `dir/` row goes when the probe saw
/// candidates under it and all of them were consumed. An incomplete probe
/// keeps every row.
pub fn collapse_untracked_markers(
    unstaged_new: &mut Vec<String>,
    destinations: &Vec<String>,
    consumed: &Vec<String>,
    probe_complete: bool,
)
    ensures
        !probe_complete ==> final(unstaged_new)@ == old(unstaged_new)@,
        probe_complete ==> final(unstaged_new)@ == old(unstaged_new)@.filter(
            |e: String| marker_kept(e@, destinations@, consumed@),
        ),
{
    if !probe_complete {
        return;
    }
    let mut rows: Vec<String> = Vec::new();
    std::mem::swap(&mut rows, unstaged_new);
    let kept = crate::seqs::filter_vec(
        rows,
        (|e: &String| -> (b: bool)
            ensures
                b == marker_kept(e@, destinations@, consumed@),
            { entry_kept(e, destinations, consumed) }),
        Ghost(|e: String| marker_kept(e@, destinations@, consumed@)),
    );
    *unstaged_new = kept;
}

// ---------------------------------------------------------------------------
// Probe roots
// ---------------------------------------------------------------------------

/// The depth root of a positive pathspec: the directory it cannot match
/// outside of, and whether it matches case-insensitively.
#[derive(Debug, Clone)]
pub struct DepthRoot {
    pub path: String,
    pub icase: bool,
}

/// What probe-root narrowing reads of a pathspec set: whether it is empty,
/// whether it has a positive spec, and the depth roots of its positive
/// specs.
#[derive(Debug, Clone)]
pub struct PathspecRoots {
    pub is_empty: bool,
    pub has_positive: bool,
    pub positive_depth_roots: Vec<DepthRoot>,
}

/// `a < b` as component lists: by the first differing component, a proper
/// prefix first (`Path`'s order).
pub open spec fn comps_lt(a: Seq<Seq<char>>, b: Seq<Seq<char>>) -> bool
    decreases a.len(),
{
    if a.len() == 0 {
        b.len() > 0
    } else if b.len() == 0 {
        false
    } else if a[0] != b[0] {
        str_lt(a[0], b[0])
    } else {
        comps_lt(a.drop_first(), b.drop_first())
    }
}

/// Paths in `Path`'s order: `a` does not come after `b`.
pub open spec fn path_order() -> spec_fn(Seq<char>, Seq<char>) -> bool {
    |a: Seq<char>, b: Seq<char>| !comps_lt(components(b), components(a))
}

/// `s` with each path equal (as a path) to the one before it dropped.
pub open spec fn dedup_paths(s: Seq<Seq<char>>) -> Seq<Seq<char>>
    decreases s.len(),
{
    if s.len() <= 1 {
        s
    } else if components(s.last()) == components(s[s.len() - 2]) {
        dedup_paths(s.drop_last())
    } else {
        dedup_paths(s.drop_last()).push(s.last())
    }
}

/// Whether `p` lies under one of `kept`.
pub open spec fn covered(kept: Seq<Seq<char>>, p: Seq<char>) -> bool {
    exists|k: int| 0 <= k < kept.len() && under(p, #[trigger] kept[k])
}

/// `s` with each path that lies under an earlier kept path dropped.
pub open spec fn drop_covered(s: Seq<Seq<char>>) -> Seq<Seq<char>>
    decreases s.len(),
{
    if s.len() == 0 {
        s
    } else {
        let pre = drop_covered(s.drop_last());
        if covered(pre, s.last()) {
            pre
        } else {
            pre.push(s.last())
        }
    }
}

/// The paths of depth roots.
pub open spec fn root_paths(roots: Seq<DepthRoot>) -> Seq<Seq<char>> {
    roots.map_values(|r: DepthRoot| r.path@)
}

/// The directories a rename probe walks: the whole repository (the empty
/// path) without a positive pathspec, when a root matches
/// case-insensitively, or when a root is the repository itself; else the
/// depth roots in path order, each once, without those under another root.
pub open spec fn probe_roots(spec: Option<PathspecRoots>) -> Seq<Seq<char>> {
    match spec {
        None => seq![Seq::empty()],
        Some(set) => if set.is_empty || !set.has_positive {
            seq![Seq::empty()]
        } else if exists|i: int|
            0 <= i < set.positive_depth_roots@.len() && (#[trigger] set.positive_depth_roots@[i]).icase {
            seq![Seq::empty()]
        } else {
            let r = dedup_paths(insertion_sort(root_paths(set.positive_depth_roots@), path_order()));
            if exists|j: int| 0 <= j < r.len() && (#[trigger] r[j]).len() == 0 {
                seq![Seq::empty()]
            } else {
                drop_covered(r)
            }
        },
    }
}

fn comps_less(a: &Vec<Vec<char>>, b: &Vec<Vec<char>>) -> (r: bool)
    ensures
        r == comps_lt(views(a@), views(b@)),
{
    let mut i: usize = 0;
    assert(views(a@).subrange(0, a@.len() as int) =~= views(a@));
    assert(views(b@).subrange(0, b@.len() as int) =~= views(b@));
    while i < a.len() && i < b.len()
        invariant
            i <= a@.len(),
            i <= b@.len(),
            comps_lt(views(a@), views(b@)) == comps_lt(
                views(a@).subrange(i as int, a@.len() as int),
                views(b@).subrange(i as int, b@.len() as int),
            ),
        decreases a.len() - i,
    {
        let ghost sa = views(a@).subrange(i as int, a@.len() as int);
        let ghost sb = views(b@).subrange(i as int, b@.len() as int);
        assert(sa[0] == a@[i as int]@ && sb[0] == b@[i as int]@);
        if !crate::text::seq_eq(&a[i], &b[i]) {
            return chars_less(&a[i], &b[i]);
        }
        assert(sa.drop_first() =~= views(a@).subrange(i + 1, a@.len() as int));
        assert(sb.drop_first() =~= views(b@).subrange(i + 1, b@.len() as int));
        i += 1;
    }
    i < b.len()
}

fn path_before(a: &str, b: &str) -> (r: bool)
    ensures
        r == comps_lt(components(a@), components(b@)),
{
    let ca = path_components(a);
    let cb = path_components(b);
    comps_less(&ca, &cb)
}

fn same_path(a: &str, b: &str) -> (r: bool)
    ensures
        r == (components(a@) == components(b@)),
{
    let ca = path_components(a);
    let cb = path_components(b);
    if ca.len() != cb.len() {
        assert(views(ca@).len() != views(cb@).len());
        return false;
    }
    let r = same_components(&ca, &cb, ca.len());
    assert(views(ca@).take(ca.len() as int) =~= views(ca@));
    assert(views(cb@).take(cb.len() as int) =~= views(cb@));
    r
}

fn sort_paths(paths: &Vec<String>) -> (r: Vec<String>)
    ensures
        string_views(r@) == insertion_sort(string_views(paths@), path_order()),
{
    let ghost items = string_views(paths@);
    let mut out: Vec<String> = Vec::new();
    let mut i: usize = 0;
    assert(string_views(out@) =~= insertion_sort(items.subrange(0, 0), path_order()));
    while i < paths.len()
        invariant
            i <= paths@.len(),
            items == string_views(paths@),
            string_views(out@) == insertion_sort(items.subrange(0, i as int), path_order()),
        decreases paths.len() - i,
    {
        let ghost s = string_views(out@);
        let ghost x = items[i as int];
        let mut p: usize = 0;
        while p < out.len() && !path_before(paths[i].as_str(), out[p].as_str())
            invariant
                p <= out@.len(),
                i < paths@.len(),
                items == string_views(paths@),
                s == string_views(out@),
                x == items[i as int],
                forall|k: int| 0 <= k < p ==> (path_order())(#[trigger] s[k], x),
            decreases out@.len() - p,
        {
            assert(s[p as int] == out@[p as int]@);
            p += 1;
        }
        proof {
            if p < out@.len() {
                assert(s[p as int] == out@[p as int]@);
            }
            lemma_insert_at(s, x, path_order(), p as int);
        }
        out.insert(p, paths[i].clone());
        proof {
            assert(string_views(out@) =~= s.insert(p as int, x));
            assert(items.subrange(0, i + 1).drop_last() =~= items.subrange(0, i as int));
            assert(items.subrange(0, i + 1).last() == x);
        }
        i += 1;
    }
    assert(items.subrange(0, paths.len() as int) =~= items);
    out
}

proof fn lemma_dedup_paths_last(s: Seq<Seq<char>>)
    requires
        s.len() > 0,
    ensures
        dedup_paths(s).len() > 0,
        components(dedup_paths(s).last()) == components(s.last()),
    decreases s.len(),
{
    if s.len() > 1 && components(s.last()) == components(s[s.len() - 2]) {
        lemma_dedup_paths_last(s.drop_last());
    }
}

#[verifier::rlimit(40)]
fn dedup_path_list(sorted: &Vec<String>) -> (r: Vec<String>)
    ensures
        string_views(r@) == dedup_paths(string_views(sorted@)),
{
    let ghost all = string_views(sorted@);
    let mut out: Vec<String> = Vec::new();
    let mut i: usize = 0;
    while i < sorted.len()
        invariant
            i <= sorted@.len(),
            all == string_views(sorted@),
            string_views(out@) == dedup_paths(all.subrange(0, i as int)),
        decreases sorted.len() - i,
    {
        let ghost pre = all.subrange(0, i as int);
        let ghost cur = all.subrange(0, i + 1);
        assert(cur.drop_last() =~= pre);
        assert(cur.last() == sorted@[i as int]@);
        let same = i > 0 && same_path(sorted[i].as_str(), sorted[i - 1].as_str());
        proof {
            if i > 0 {
                assert(cur[cur.len() - 2] == sorted@[i - 1]@);
                lemma_dedup_paths_last(pre);
                assert(pre.last() == sorted@[i - 1]@);
            }
        }
        if !same {
            out.push(sorted[i].clone());
            assert(string_views(out@) =~= dedup_paths(pre).push(cur.last()));
        }
        i += 1;
    }
    assert(all.subrange(0, sorted.len() as int) =~= all);
    out
}

fn covered_exec(kept: &Vec<String>, p: &str) -> (r: bool)
    ensures
        r == covered(string_views(kept@), p@),
{
    let ghost kv = string_views(kept@);
    let mut k: usize = 0;
    while k < kept.len()
        invariant
            k <= kept@.len(),
            kv == string_views(kept@),
            forall|j: int| 0 <= j < k ==> !under(p@, #[trigger] kv[j]),
        decreases kept.len() - k,
    {
        if path_under(p, kept[k].as_str()) {
            assert(under(p@, kv[k as int]));
            return true;
        }
        k += 1;
    }
    false
}

fn whole_repository() -> (r: Vec<String>)
    ensures
        string_views(r@) == seq![Seq::<char>::empty()],
{
    let mut r: Vec<String> = Vec::new();
    r.push(String::new());
    assert(string_views(r@) =~= seq![Seq::<char>::empty()]);
    r
}

/// The directories a rename probe walks for the pathspecs: the repository
/// itself (the empty path) unless the positive pathspecs narrow it safely
/// to depth roots, listed in path order without those under another.
pub fn pathspec_probe_roots(pathspecs: Option<&PathspecRoots>) -> (r: Vec<String>)
    ensures
        string_views(r@) == probe_roots(
            match pathspecs {
                Some(s) => Some(*s),
                None => None,
            },
        ),
{
    let set = match pathspecs {
        None => return whole_repository(),
        Some(set) => set,
    };
    if set.is_empty || !set.has_positive {
        return whole_repository();
    }
    let roots = &set.positive_depth_roots;
    let ghost rp = root_paths(roots@);
    let mut paths: Vec<String> = Vec::new();
    let mut i: usize = 0;
    while i < roots.len()
        invariant
            i <= roots@.len(),
            rp == root_paths(roots@),
            roots@ == set.positive_depth_roots@,
            pathspecs == Some(set),
            !set.is_empty && set.has_positive,
            paths@.len() == i,
            string_views(paths@) == rp.subrange(0, i as int),
            forall|j: int| 0 <= j < i ==> !(#[trigger] roots@[j]).icase,
        decreases roots.len() - i,
    {
        if roots[i].icase {
            assert(roots@[i as int].icase);
            return whole_repository();
        }
        paths.push(roots[i].path.clone());
        i += 1;
        assert(string_views(paths@) =~= rp.subrange(0, i as int));
    }
    assert(rp.subrange(0, roots@.len() as int) =~= rp);
    assert(string_views(paths@) == rp);
    let sorted = sort_paths(&paths);
    let unique = dedup_path_list(&sorted);
    let ghost uv = string_views(unique@);
    assert(uv == dedup_paths(insertion_sort(rp, path_order())));
    assert(!exists|i: int| 0 <= i < roots@.len() && (#[trigger] roots@[i]).icase);
    let mut j: usize = 0;
    while j < unique.len()
        invariant
            j <= unique@.len(),
            uv == string_views(unique@),
            uv == dedup_paths(insertion_sort(rp, path_order())),
            rp == root_paths(set.positive_depth_roots@),
            pathspecs == Some(set),
            !set.is_empty && set.has_positive,
            !exists|i: int| 0 <= i < set.positive_depth_roots@.len() && (#[trigger] set.positive_depth_roots@[i]).icase,
            forall|k: int| 0 <= k < j ==> (#[trigger] uv[k]).len() != 0,
        decreases unique.len() - j,
    {
        if unique[j].as_str().unicode_len() == 0 {
            assert(uv[j as int].len() == 0);
            return whole_repository();
        }
        j += 1;
    }
    let mut kept: Vec<String> = Vec::new();
    let mut k: usize = 0;
    assert(uv.subrange(0, 0) =~= Seq::<Seq<char>>::empty());
    assert(string_views(kept@) =~= drop_covered(uv.subrange(0, 0)));
    while k < unique.len()
        invariant
            k <= unique@.len(),
            uv == string_views(unique@),
            string_views(kept@) == drop_covered(uv.subrange(0, k as int)),
        decreases unique.len() - k,
    {
        let ghost pre = uv.subrange(0, k as int);
        assert(uv.subrange(0, k + 1).drop_last() =~= pre);
        assert(uv.subrange(0, k + 1).last() == unique@[k as int]@);
        if !covered_exec(&kept, unique[k].as_str()) {
            kept.push(unique[k].clone());
            assert(string_views(kept@) =~= drop_covered(pre).push(unique@[k as int]@));
        }
        k += 1;
    }
    assert(uv.subrange(0, unique@.len() as int) =~= uv);
    kept
}

// ---------------------------------------------------------------------------
// Probe outcome
// ---------------------------------------------------------------------------

/// A path the probe could not inspect, and why.
#[derive(Debug, Clone)]
pub struct IoBlockedEvent {
    pub path: String,
    pub reason: IoBlockedReason,
}

/// The view of a blocked-path event.
pub open spec fn event_view(e: IoBlockedEvent) -> (Seq<char>, IoBlockedReason) {
    (e.path@, e.reason)
}

/// The views of blocked-path events.
pub open spec fn events_view(v: Seq<IoBlockedEvent>) -> Seq<(Seq<char>, IoBlockedReason)> {
    v.map_values(|e: IoBlockedEvent| event_view(e))
}

/// Events in the `Path` order of their paths.
pub open spec fn event_order() -> spec_fn((Seq<char>, IoBlockedReason), (Seq<char>, IoBlockedReason)) -> bool {
    |a: (Seq<char>, IoBlockedReason), b: (Seq<char>, IoBlockedReason)| !comps_lt(components(b.0), components(a.0))
}

/// `s` with each event whose path equals (as a path) the one before it
/// dropped.
pub open spec fn dedup_events(s: Seq<(Seq<char>, IoBlockedReason)>) -> Seq<(Seq<char>, IoBlockedReason)>
    decreases s.len(),
{
    if s.len() <= 1 {
        s
    } else if components(s.last().0) == components(s[s.len() - 2].0) {
        dedup_events(s.drop_last())
    } else {
        dedup_events(s.drop_last()).push(s.last())
    }
}

fn sort_events(events: &Vec<IoBlockedEvent>) -> (r: Vec<IoBlockedEvent>)
    ensures
        events_view(r@) == insertion_sort(events_view(events@), event_order()),
{
    let ghost items = events_view(events@);
    let mut out: Vec<IoBlockedEvent> = Vec::new();
    let mut i: usize = 0;
    assert(events_view(out@) =~= insertion_sort(items.subrange(0, 0), event_order()));
    while i < events.len()
        invariant
            i <= events@.len(),
            items == events_view(events@),
            events_view(out@) == insertion_sort(items.subrange(0, i as int), event_order()),
        decreases events.len() - i,
    {
        let ghost s = events_view(out@);
        let ghost x = items[i as int];
        let mut p: usize = 0;
        while p < out.len() && !path_before(events[i].path.as_str(), out[p].path.as_str())
            invariant
                p <= out@.len(),
                i < events@.len(),
                items == events_view(events@),
                s == events_view(out@),
                x == items[i as int],
                forall|k: int| 0 <= k < p ==> (event_order())(#[trigger] s[k], x),
            decreases out@.len() - p,
        {
            assert(s[p as int] == event_view(out@[p as int]));
            p += 1;
        }
        proof {
            if p < out@.len() {
                assert(s[p as int] == event_view(out@[p as int]));
            }
            lemma_insert_at(s, x, event_order(), p as int);
        }
        let e = IoBlockedEvent { path: events[i].path.clone(), reason: events[i].reason };
        out.insert(p, e);
        proof {
            assert(events_view(out@) =~= s.insert(p as int, x));
            assert(items.subrange(0, i + 1).drop_last() =~= items.subrange(0, i as int));
            assert(items.subrange(0, i + 1).last() == x);
        }
        i += 1;
    }
    assert(items.subrange(0, events.len() as int) =~= items);
    out
}

proof fn lemma_dedup_events_last(s: Seq<(Seq<char>, IoBlockedReason)>)
    requires
        s.len() > 0,
    ensures
        dedup_events(s).len() > 0,
        components(dedup_events(s).last().0) == components(s.last().0),
    decreases s.len(),
{
    if s.len() > 1 && components(s.last().0) == components(s[s.len() - 2].0) {
        lemma_dedup_events_last(s.drop_last());
    }
}

#[verifier::rlimit(40)]
fn dedup_event_list(sorted: &Vec<IoBlockedEvent>) -> (r: Vec<IoBlockedEvent>)
    ensures
        events_view(r@) == dedup_events(events_view(sorted@)),
{
    let ghost all = events_view(sorted@);
    let mut out: Vec<IoBlockedEvent> = Vec::new();
    let mut i: usize = 0;
    while i < sorted.len()
        invariant
            i <= sorted@.len(),
            all == events_view(sorted@),
            events_view(out@) == dedup_events(all.subrange(0, i as int)),
        decreases sorted.len() - i,
    {
        let ghost pre = all.subrange(0, i as int);
        let ghost cur = all.subrange(0, i + 1);
        assert(cur.drop_last() =~= pre);
        assert(cur.last() == event_view(sorted@[i as int]));
        let same = i > 0 && same_path(sorted[i].path.as_str(), sorted[i - 1].path.as_str());
        proof {
            if i > 0 {
                assert(cur[cur.len() - 2] == event_view(sorted@[i - 1]));
                lemma_dedup_events_last(pre);
                assert(pre.last() == event_view(sorted@[i - 1]));
            }
        }
        if !same {
            out.push(IoBlockedEvent { path: sorted[i].path.clone(), reason: sorted[i].reason });
            assert(events_view(out@) =~= dedup_events(pre).push(cur.last()));
        }
        i += 1;
    }
    assert(all.subrange(0, sorted.len() as int) =~= all);
    out
}

/// The probe's final lists: the qualified destinations in path order, each
/// once, and the blocked-path events in path order, one per path (the first
/// recorded).
pub fn finish_probe_lists(destinations: &Vec<String>, io_blocked: &Vec<IoBlockedEvent>) -> (r: (
    Vec<String>,
    Vec<IoBlockedEvent>,
))
    ensures
        string_views(r.0@) == dedup_paths(insertion_sort(string_views(destinations@), path_order())),
        events_view(r.1@) == dedup_events(insertion_sort(events_view(io_blocked@), event_order())),
{
    let sorted = sort_paths(destinations);
    let dests = dedup_path_list(&sorted);
    let events = sort_events(io_blocked);
    let blocked = dedup_event_list(&events);
    (dests, blocked)
}

// ---------------------------------------------------------------------------
// The walk
// ---------------------------------------------------------------------------

/// What the probe finds at a path it inspects (its symlink metadata, and for
/// a file the destination filter's verdict, for a directory whether it is
/// pruned).
#[derive(Debug, Clone, Copy, PartialEq, Eq, Structural)]
pub enum ProbeEntryKind {
    /// The path is gone.
    Vanished,
    /// The path cannot be inspected.
    Blocked(IoBlockedReason),
    /// A file or a symbolic link, and whether it qualifies as a destination.
    FileOrLink { qualifies: bool },
    /// A directory, and whether it is pruned: ignored, or holding a nested
    /// repository (`.libra` or `.git`).
    Directory { pruned: bool },
    /// Anything else.
    Other,
}

/// The metadata directory names the walk never enters or inspects.
pub open spec fn reserved_name(name: Seq<char>) -> bool {
    name == ".libra"@ || name == ".git"@
}

/// Whether the walk skips an entry named `name` without inspecting it.
pub fn skips_name(name: &str) -> (r: bool)
    ensures
        r == reserved_name(name@),
{
    crate::text::str_eq(name, ".libra") || crate::text::str_eq(name, ".git")
}

/// The order in which a fully read directory's entries are visited: by
/// path, component-wise in byte order.
pub fn visit_order(entries: &Vec<String>) -> (r: Vec<String>)
    ensures
        string_views(r@) == insertion_sort(string_views(entries@), path_order()),
{
    sort_paths(entries)
}

/// The rename-destination walk in progress: the budget, the directories
/// still to read (a stack: the last one queued is read next, so the walk
/// goes depth first), and what it found so far.
pub struct ProbeWalk {
    budget: ProbeBudget,
    pending: Vec<String>,
    destinations: Vec<String>,
    io_blocked: Vec<IoBlockedEvent>,
}

impl ProbeWalk {
    pub closed spec fn budget_of(self) -> ProbeBudget {
        self.budget
    }

    /// The directories still to read; the last is read next.
    pub closed spec fn pending_of(self) -> Seq<Seq<char>> {
        string_views(self.pending@)
    }

    /// The qualified destinations found, in the order found.
    pub closed spec fn destinations_of(self) -> Seq<Seq<char>> {
        string_views(self.destinations@)
    }

    /// The paths that could not be inspected, in the order met.
    pub closed spec fn blocked_of(self) -> Seq<(Seq<char>, IoBlockedReason)> {
        events_view(self.io_blocked@)
    }

    /// Everything but the budget is unchanged from `w`.
    pub open spec fn found_same(self, w: ProbeWalk) -> bool {
        &&& self.pending_of() == w.pending_of()
        &&& self.destinations_of() == w.destinations_of()
        &&& self.blocked_of() == w.blocked_of()
    }

    /// A walk that has read nothing yet.
    pub fn new(limits: ProbeLimits) -> (r: Self)
        requires
            limits.max_enumerated_entries < usize::MAX,
        ensures
            r.budget_of().enumerated_count() == 0,
            r.budget_of().kept_count() == 0,
            r.budget_of().tripped() is None,
            r.budget_of().limits_of() == limits,
            r.pending_of() == Seq::<Seq<char>>::empty(),
            r.destinations_of() == Seq::<Seq<char>>::empty(),
            r.blocked_of() == Seq::<(Seq<char>, IoBlockedReason)>::empty(),
    {
        let r = ProbeWalk {
            budget: ProbeBudget::new(limits),
            pending: Vec::new(),
            destinations: Vec::new(),
            io_blocked: Vec::new(),
        };
        assert(r.pending_of() =~= Seq::<Seq<char>>::empty());
        assert(r.destinations_of() =~= Seq::<Seq<char>>::empty());
        assert(r.blocked_of() =~= Seq::<(Seq<char>, IoBlockedReason)>::empty());
        r
    }

    /// The budget that tripped, if any; once one has, the walk stops.
    pub fn truncated(&self) -> (r: Option<ProbeBudgetKind>)
        ensures
            r == self.budget_of().tripped(),
    {
        self.budget.truncated()
    }

    /// Records that `path` could not be inspected.
    pub fn record_blocked(&mut self, path: &str, reason: IoBlockedReason)
        ensures
            final(self).budget_of() == old(self).budget_of(),
            final(self).pending_of() == old(self).pending_of(),
            final(self).destinations_of() == old(self).destinations_of(),
            final(self).blocked_of() == old(self).blocked_of().push((path@, reason)),
    {
        self.io_blocked.push(IoBlockedEvent { path: String::from_str(path), reason });
        assert(self.blocked_of() =~= old(self).blocked_of().push((path@, reason)));
    }

    /// Keeps `path` as a destination when the destination budget allows;
    /// `false` (the budget tripped) otherwise.
    fn keep_destination(&mut self, path: &str) -> (r: bool)
        requires
            old(self).budget_of().tripped() is None,
        ensures
            final(self).pending_of() == old(self).pending_of(),
            final(self).blocked_of() == old(self).blocked_of(),
            final(self).budget_of().limits_of() == old(self).budget_of().limits_of(),
            final(self).budget_of().enumerated_count() == old(self).budget_of().enumerated_count(),
            r == (old(self).budget_of().kept_count() < old(self).budget_of().limits_of().max_qualified_destinations),
            r ==> final(self).budget_of().kept_count() == old(self).budget_of().kept_count() + 1
                && final(self).budget_of().tripped() is None
                && final(self).destinations_of() == old(self).destinations_of().push(path@),
            !r ==> final(self).budget_of().kept_count() == old(self).budget_of().kept_count()
                && final(self).budget_of().tripped() == Some(ProbeBudgetKind::Destination)
                && final(self).destinations_of() == old(self).destinations_of(),
    {
        if self.budget.admit_destination() {
            self.destinations.push(String::from_str(path));
            assert(self.destinations_of() =~= old(self).destinations_of().push(path@));
            true
        } else {
            false
        }
    }

    /// Charges one entry taken from a directory (or a root that is not a
    /// directory) to the enumeration budget; `false` (the budget tripped)
    /// once more entries were taken than allowed.
    pub fn charge_entry(&mut self) -> (r: bool)
        requires
            old(self).budget_of().tripped() is None,
        ensures
            final(self).found_same(*old(self)),
            final(self).budget_of().limits_of() == old(self).budget_of().limits_of(),
            final(self).budget_of().kept_count() == old(self).budget_of().kept_count(),
            final(self).budget_of().enumerated_count() == old(self).budget_of().enumerated_count() + 1,
            r == (final(self).budget_of().enumerated_count()
                <= old(self).budget_of().limits_of().max_enumerated_entries),
            r ==> final(self).budget_of().tripped() is None,
            !r ==> final(self).budget_of().tripped() == Some(ProbeBudgetKind::Enumeration),
    {
        self.budget.charge_entry()
    }

    /// Visits the root `root`, found to be `kind`: a gone root is passed
    /// over, an uninspectable one recorded, a directory queued for reading
    /// (a root is never pruned), and anything else charged as one entry and,
    /// when the filter qualifies it, kept as a destination (each step within
    /// its budget). A root that is not a directory is a candidate whatever
    /// its kind, so the caller gives the filter's verdict for it as
    /// `FileOrLink`; `Other` is charged and never kept.
    pub fn visit_root(&mut self, root: &str, kind: ProbeEntryKind)
        requires
            old(self).budget_of().tripped() is None,
        ensures
            final(self).budget_of().limits_of() == old(self).budget_of().limits_of(),
            match kind {
                ProbeEntryKind::Vanished => *final(self) == *old(self),
                ProbeEntryKind::Blocked(reason) => final(self).budget_of() == old(self).budget_of()
                    && final(self).pending_of() == old(self).pending_of()
                    && final(self).destinations_of() == old(self).destinations_of()
                    && final(self).blocked_of() == old(self).blocked_of().push((root@, reason)),
                ProbeEntryKind::Directory { .. } => final(self).budget_of() == old(self).budget_of()
                    && final(self).pending_of() == old(self).pending_of().push(root@)
                    && final(self).destinations_of() == old(self).destinations_of()
                    && final(self).blocked_of() == old(self).blocked_of(),
                _ => {
                    let charged = old(self).budget_of().enumerated_count() + 1;
                    let qualifies = kind matches ProbeEntryKind::FileOrLink { qualifies } && qualifies;
                    &&& final(self).pending_of() == old(self).pending_of()
                    &&& final(self).blocked_of() == old(self).blocked_of()
                    &&& final(self).budget_of().enumerated_count() == charged
                    &&& if charged > old(self).budget_of().limits_of().max_enumerated_entries {
                        final(self).budget_of().tripped() == Some(ProbeBudgetKind::Enumeration)
                            && final(self).destinations_of() == old(self).destinations_of()
                    } else if !qualifies {
                        final(self).budget_of().tripped() is None
                            && final(self).destinations_of() == old(self).destinations_of()
                    } else if old(self).budget_of().kept_count()
                        < old(self).budget_of().limits_of().max_qualified_destinations {
                        final(self).budget_of().tripped() is None
                            && final(self).destinations_of() == old(self).destinations_of().push(root@)
                    } else {
                        final(self).budget_of().tripped() == Some(ProbeBudgetKind::Destination)
                            && final(self).destinations_of() == old(self).destinations_of()
                    }
                },
            },
    {
        match kind {
            ProbeEntryKind::Vanished => {},
            ProbeEntryKind::Blocked(reason) => self.record_blocked(root, reason),
            ProbeEntryKind::Directory { .. } => {
                self.pending.push(String::from_str(root));
                assert(self.pending_of() =~= old(self).pending_of().push(root@));
            },
            ProbeEntryKind::FileOrLink { qualifies } => {
                if self.charge_entry() && qualifies {
                    self.keep_destination(root);
                }
            },
            ProbeEntryKind::Other => {
                self.charge_entry();
            },
        }
    }

    /// The next directory to read: the one queued last (depth first).
    pub fn next_directory(&mut self) -> (r: Option<String>)
        ensures
            final(self).budget_of() == old(self).budget_of(),
            final(self).destinations_of() == old(self).destinations_of(),
            final(self).blocked_of() == old(self).blocked_of(),
            old(self).pending_of().len() == 0 ==> r is None && final(self).pending_of()
                == old(self).pending_of(),
            old(self).pending_of().len() > 0 ==> (r matches Some(d) && d@ == old(self).pending_of().last()
                && final(self).pending_of() == old(self).pending_of().drop_last()),
    {
        let r = self.pending.pop();
        proof {
            if old(self).pending_of().len() > 0 {
                assert(self.pending_of() =~= old(self).pending_of().drop_last());
            } else {
                assert(self.pending_of() =~= old(self).pending_of());
            }
        }
        r
    }

    /// Visits the entry `path` (named `name`) of a directory, in visiting
    /// order, found to be `kind`: the metadata directories `.libra` and
    /// `.git` are passed over before anything is inspected; a gone entry or
    /// one of another kind is passed over; an uninspectable one is recorded;
    /// a file or link that qualifies is kept within the destination budget;
    /// a directory that is not pruned is queued.
    pub fn visit_entry(&mut self, path: &str, name: &str, kind: ProbeEntryKind)
        requires
            old(self).budget_of().tripped() is None,
        ensures
            final(self).budget_of().limits_of() == old(self).budget_of().limits_of(),
            final(self).budget_of().enumerated_count() == old(self).budget_of().enumerated_count(),
            if reserved_name(name@) {
                *final(self) == *old(self)
            } else {
                match kind {
                    ProbeEntryKind::Blocked(reason) => final(self).budget_of() == old(self).budget_of()
                        && final(self).pending_of() == old(self).pending_of()
                        && final(self).destinations_of() == old(self).destinations_of()
                        && final(self).blocked_of() == old(self).blocked_of().push((path@, reason)),
                    ProbeEntryKind::Directory { pruned } => final(self).budget_of() == old(self).budget_of()
                        && final(self).pending_of() == (if pruned {
                        old(self).pending_of()
                    } else {
                        old(self).pending_of().push(path@)
                    }) && final(self).destinations_of() == old(self).destinations_of()
                        && final(self).blocked_of() == old(self).blocked_of(),
                    ProbeEntryKind::FileOrLink { qualifies: true } => {
                        &&& final(self).pending_of() == old(self).pending_of()
                        &&& final(self).blocked_of() == old(self).blocked_of()
                        &&& if old(self).budget_of().kept_count()
                            < old(self).budget_of().limits_of().max_qualified_destinations {
                            final(self).budget_of().tripped() is None
                                && final(self).destinations_of() == old(self).destinations_of().push(path@)
                        } else {
                            final(self).budget_of().tripped() == Some(ProbeBudgetKind::Destination)
                                && final(self).destinations_of() == old(self).destinations_of()
                        }
                    },
                    _ => *final(self) == *old(self),
                }
            },
    {
        if skips_name(name) {
            return;
        }
        match kind {
            ProbeEntryKind::Blocked(reason) => self.record_blocked(path, reason),
            ProbeEntryKind::Directory { pruned } => {
                if !pruned {
                    self.pending.push(String::from_str(path));
                    assert(self.pending_of() =~= old(self).pending_of().push(path@));
                }
            },
            ProbeEntryKind::FileOrLink { qualifies } => {
                if qualifies {
                    self.keep_destination(path);
                }
            },
            _ => {},
        }
    }

    /// The walk's outcome: its final lists (see `finish_probe_lists`) and
    /// the budget that tripped, if any.
    pub fn finish(&self) -> (r: (Vec<String>, Vec<IoBlockedEvent>, Option<ProbeBudgetKind>))
        ensures
            string_views(r.0@) == dedup_paths(insertion_sort(self.destinations_of(), path_order())),
            events_view(r.1@) == dedup_events(insertion_sort(self.blocked_of(), event_order())),
            r.2 == self.budget_of().tripped(),
    {
        let (d, b) = finish_probe_lists(&self.destinations, &self.io_blocked);
        (d, b, self.budget.truncated())
    }
}

} // verus!
