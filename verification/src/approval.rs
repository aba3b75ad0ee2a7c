//! The `[approval]` section of `.libra/config.toml`: a repository layer, an
//! optional overlay that may only tighten it, and the runtime cache policy
//! they resolve to.
use vstd::prelude::*;

use crate::seqs::filter_vec;
use crate::text::{contains_str, str_eq, string_views};

verus! {

/// Default approval TTL, in seconds.
pub const DEFAULT_APPROVAL_TTL: u64 = 900;

pub open spec fn default_branches() -> Seq<Seq<char>> {
    seq!["main"@, "master"@]
}

/// The approval-cache policy the runtime enforces.
#[derive(Debug)]
pub struct ApprovalCachePolicy {
    /// Branches whose mutations are never served from the approval cache.
    pub protected_branches: Vec<String>,
    /// Network hosts whose approvals may be cached.
    pub allowed_network_domains: Vec<String>,
    /// Whether approvals for hosts outside the allowlist are never cached.
    pub no_cache_unknown_network: bool,
}

impl Default for ApprovalCachePolicy {
    fn default() -> (r: Self)
        ensures
            string_views(r.protected_branches@) == default_branches(),
            r.allowed_network_domains@.len() == 0,
            !r.no_cache_unknown_network,
    {
        let mut branches: Vec<String> = Vec::new();
        branches.push(String::from_str("main"));
        branches.push(String::from_str("master"));
        assert(string_views(branches@) =~= default_branches());
        ApprovalCachePolicy {
            protected_branches: branches,
            allowed_network_domains: Vec::new(),
            no_cache_unknown_network: false,
        }
    }
}

/// The `[approval]` table as written in one config layer.
#[derive(Debug)]
pub struct ApprovalSectionConfig {
    pub ttl_seconds: Option<u64>,
    pub protected_branches: Option<Vec<String>>,
    /// `None` = field omitted; `Some([])` = explicit empty allowlist.
    pub allowed_network_domains: Option<Vec<String>>,
    pub no_cache_unknown_network: bool,
}

/// One resolved config layer (repository or overlay).
#[derive(Debug)]
pub struct ApprovalLayer {
    /// TTL in seconds.
    pub ttl: Option<u64>,
    pub protected_branches: Option<Vec<String>>,
    pub allowed_network_domains: Option<Vec<String>>,
    pub no_cache_unknown_network: bool,
}

/// What a layer says, over plain values.
pub struct LayerView {
    pub ttl: Option<u64>,
    pub protected: Option<Seq<Seq<char>>>,
    pub allowed: Option<Seq<Seq<char>>>,
    pub no_cache: bool,
}

pub open spec fn opt_views(o: Option<Vec<String>>) -> Option<Seq<Seq<char>>> {
    match o {
        Some(v) => Some(string_views(v@)),
        None => None,
    }
}

impl View for ApprovalLayer {
    type V = LayerView;

    open spec fn view(&self) -> LayerView {
        LayerView {
            ttl: self.ttl,
            protected: opt_views(self.protected_branches),
            allowed: opt_views(self.allowed_network_domains),
            no_cache: self.no_cache_unknown_network,
        }
    }
}

impl Default for ApprovalLayer {
    fn default() -> (r: Self)
        ensures
            r.ttl is None,
            r.protected_branches is None,
            r.allowed_network_domains is None,
            !r.no_cache_unknown_network,
    {
        ApprovalLayer {
            ttl: None,
            protected_branches: None,
            allowed_network_domains: None,
            no_cache_unknown_network: false,
        }
    }
}

/// The approval settings the runtime uses.
#[derive(Debug)]
pub struct ApprovalProjectRuntimeConfig {
    /// TTL in seconds.
    pub ttl: Option<u64>,
    pub cache_policy: ApprovalCachePolicy,
}

/// A layer as written: a zero TTL is ignored.
pub open spec fn section_layer(s: Option<ApprovalSectionConfig>) -> LayerView {
    match s {
        None => LayerView { ttl: None, protected: None, allowed: None, no_cache: false },
        Some(a) => LayerView {
            ttl: match a.ttl_seconds {
                Some(t) => if t == 0 {
                    None
                } else {
                    Some(t)
                },
                None => None,
            },
            protected: opt_views(a.protected_branches),
            allowed: opt_views(a.allowed_network_domains),
            no_cache: a.no_cache_unknown_network,
        },
    }
}

/// The repository layer with its defaults filled in: the default TTL, the
/// default protected branches, and an empty allowlist when unknown hosts
/// are never cached and no allowlist was given.
pub open spec fn effective(l: LayerView) -> LayerView {
    LayerView {
        ttl: if l.ttl is None {
            Some(DEFAULT_APPROVAL_TTL)
        } else {
            l.ttl
        },
        protected: if l.protected is None {
            Some(default_branches())
        } else {
            l.protected
        },
        allowed: if l.no_cache && l.allowed is None {
            Some(Seq::empty())
        } else {
            l.allowed
        },
        no_cache: l.no_cache,
    }
}

/// `a` followed by the entries of `b` it lacks, in order, each once.
pub open spec fn union_views(a: Seq<Seq<char>>, b: Seq<Seq<char>>) -> Seq<Seq<char>>
    decreases b.len(),
{
    if b.len() == 0 {
        a
    } else {
        let u = union_views(a, b.drop_last());
        if u.contains(b.last()) {
            u
        } else {
            u.push(b.last())
        }
    }
}

pub open spec fn listed_in(b: Seq<Seq<char>>) -> spec_fn(Seq<char>) -> bool {
    |d: Seq<char>| b.contains(d)
}

pub open spec fn min_ttl(a: Option<u64>, b: Option<u64>) -> Option<u64> {
    match (a, b) {
        (Some(x), Some(y)) => Some(if x <= y { x } else { y }),
        (Some(x), None) => Some(x),
        (None, Some(y)) => Some(y),
        (None, None) => None,
    }
}

/// The repository layer tightened by the overlay.
pub open spec fn merge_layers(repository: LayerView, overlay: LayerView) -> LayerView {
    let r = effective(repository);
    LayerView {
        ttl: min_ttl(r.ttl, overlay.ttl),
        protected: match (r.protected, overlay.protected) {
            (Some(a), Some(b)) => Some(union_views(a, b)),
            (Some(a), None) => Some(a),
            (None, Some(b)) => Some(b),
            (None, None) => None,
        },
        allowed: match (r.allowed, overlay.allowed) {
            (Some(a), Some(b)) => Some(a.filter(listed_in(b))),
            (Some(a), None) => Some(a),
            (None, Some(b)) => Some(b),
            (None, None) => None,
        },
        no_cache: r.no_cache || overlay.no_cache,
    }
}

// ---------------------------------------------------------------------------
// Vector helpers over string views
// ---------------------------------------------------------------------------
proof fn lemma_views_push(s: Seq<String>, x: String)
    ensures
        string_views(s.push(x)) == string_views(s).push(x@),
{
    assert(string_views(s.push(x)) =~= string_views(s).push(x@));
}

fn union_vec(a: Vec<String>, b: &Vec<String>) -> (r: Vec<String>)
    ensures
        string_views(r@) == union_views(string_views(a@), string_views(b@)),
{
    let ghost av = string_views(a@);
    let ghost bv = string_views(b@);
    let mut r = a;
    let mut i: usize = 0;
    assert(bv.subrange(0, 0) =~= Seq::<Seq<char>>::empty());
    while i < b.len()
        invariant
            i <= b.len(),
            av == string_views(a@),
            bv == string_views(b@),
            string_views(r@) == union_views(av, bv.subrange(0, i as int)),
        decreases b.len() - i,
    {
        assert(bv.subrange(0, i + 1).drop_last() =~= bv.subrange(0, i as int));
        assert(bv.subrange(0, i + 1).last() == b@[i as int]@);
        if !contains_str(&r, b[i].as_str()) {
            let x = b[i].clone();
            proof {
                lemma_views_push(r@, x);
            }
            r.push(x);
        }
        i += 1;
    }
    assert(bv.subrange(0, b.len() as int) =~= bv);
    r
}

proof fn lemma_views_filter(s: Seq<String>, p: spec_fn(String) -> bool, q: spec_fn(Seq<char>) -> bool)
    requires
        forall|x: String| #[trigger] p(x) == q(x@),
    ensures
        string_views(s.filter(p)) == string_views(s).filter(q),
    decreases s.len(),
{
    reveal(Seq::filter);
    if s.len() > 0 {
        let pre = s.drop_last();
        lemma_views_filter(pre, p, q);
        assert(string_views(s).drop_last() =~= string_views(pre));
        assert(string_views(s).last() == s.last()@);
        if p(s.last()) {
            lemma_views_push(pre.filter(p), s.last());
        }
    } else {
        assert(string_views(s.filter(p)) =~= string_views(s).filter(q));
    }
}

fn intersect_vec(a: Vec<String>, b: &Vec<String>) -> (r: Vec<String>)
    ensures
        string_views(r@) == string_views(a@).filter(listed_in(string_views(b@))),
{
    let ghost bv = string_views(b@);
    let ghost p = |d: String| bv.contains(d@);
    let ghost a0 = a@;
    let r = filter_vec(
        a,
        (|d: &String| -> (k: bool)
            ensures
                k == bv.contains(d@),
            { contains_str(b, d.as_str()) }),
        Ghost(p),
    );
    proof {
        lemma_views_filter(a0, p, listed_in(bv));
    }
    r
}

fn clone_strings(v: &Vec<String>) -> (r: Vec<String>)
    ensures
        r@ == v@,
{
    let mut r: Vec<String> = Vec::new();
    let mut i: usize = 0;
    while i < v.len()
        invariant
            i <= v.len(),
            r@ == v@.subrange(0, i as int),
        decreases v.len() - i,
    {
        r.push(v[i].clone());
        i += 1;
        assert(r@ =~= v@.subrange(0, i as int));
    }
    assert(v@.subrange(0, v.len() as int) =~= v@);
    r
}

// ---------------------------------------------------------------------------
// Layer resolution
// ---------------------------------------------------------------------------
/// The layer one `[approval]` table describes; an absent table is the empty
/// layer and `ttl_seconds = 0` is ignored.
pub fn layer_from_section(approval: Option<ApprovalSectionConfig>) -> (r: ApprovalLayer)
    ensures
        r@ == section_layer(approval),
{
    match approval {
        None => ApprovalLayer::default(),
        Some(a) => {
            let ttl = match a.ttl_seconds {
                Some(t) => if t == 0 {
                    None
                } else {
                    Some(t)
                },
                None => None,
            };
            ApprovalLayer {
                ttl,
                protected_branches: a.protected_branches,
                allowed_network_domains: a.allowed_network_domains,
                no_cache_unknown_network: a.no_cache_unknown_network,
            }
        },
    }
}

/// Fills in the repository defaults (see `effective`).
pub fn effective_repository_defaults(repository: ApprovalLayer) -> (r: ApprovalLayer)
    ensures
        r@ == effective(repository@),
{
    let mut repository = repository;
    if repository.ttl.is_none() {
        repository.ttl = Some(DEFAULT_APPROVAL_TTL);
    }
    if repository.protected_branches.is_none() {
        let d = ApprovalCachePolicy::default();
        repository.protected_branches = Some(d.protected_branches);
    }
    if repository.no_cache_unknown_network && repository.allowed_network_domains.is_none() {
        let empty: Vec<String> = Vec::new();
        assert(string_views(empty@) =~= Seq::<Seq<char>>::empty());
        repository.allowed_network_domains = Some(empty);
    }
    repository
}

/// Merges the overlay into the repository layer, tighten-only: the shorter
/// TTL wins, protected branches accumulate, network allowlists intersect
/// (an explicit empty overlay list revokes every repository host), and
/// `no_cache_unknown_network` can only be switched on. So the merge only
/// tightens: the TTL never grows past the repository's (defaulted) TTL or
/// the overlay's, no protected branch of either layer is lost, no host
/// outside either allowlist becomes cacheable, the merged allowlist keeps
/// the repository's order, and without an overlay list it is the
/// repository's (defaulted) one.
pub fn merge_approval_tighten_only(repository: ApprovalLayer, overlay: ApprovalLayer) -> (r:
    ApprovalLayer)
    ensures
        r@ == merge_layers(repository@, overlay@),
        repository@.allowed is None && !repository@.no_cache ==> r@.allowed == overlay@.allowed,
        repository@.allowed is None && repository@.no_cache ==> r@.allowed == Some(Seq::<Seq<char>>::empty()),
        ({
            let e = effective(repository@);
            let o = overlay@;
            &&& r@.ttl matches Some(t) && t <= e.ttl->0 && (o.ttl matches Some(x) ==> t <= x)
            &&& r@.protected matches Some(p) && (forall|x: Seq<char>|
                e.protected->0.contains(x) ==> #[trigger] p.contains(x)) && (o.protected matches Some(
                b,
            ) ==> forall|x: Seq<char>| b.contains(x) ==> #[trigger] p.contains(x))
            &&& e.allowed matches Some(a) ==> (r@.allowed matches Some(n) && (forall|x: Seq<char>|
                #[trigger] n.contains(x) ==> a.contains(x)) && in_order_within(n, a))
            &&& o.allowed is None ==> r@.allowed == e.allowed
            &&& o.allowed matches Some(b) ==> (r@.allowed matches Some(n) && forall|x: Seq<char>|
                #[trigger] n.contains(x) ==> b.contains(x))
            &&& r@.no_cache == (repository@.no_cache || o.no_cache)
        }),
{
    proof {
        law_overlay_only_tightens(repository@, overlay@);
        law_overlay_allowlist_without_repository_list_at(repository@, overlay@);
    }
    merge_layer_values(repository, overlay)
}

fn merge_layer_values(repository: ApprovalLayer, overlay: ApprovalLayer) -> (r: ApprovalLayer)
    ensures
        r@ == merge_layers(repository@, overlay@),
        repository@.allowed is None && !repository@.no_cache ==> r@.allowed == overlay@.allowed,
        repository@.allowed is None && repository@.no_cache ==> r@.allowed == Some(Seq::<Seq<char>>::empty()),
{
    proof {
        law_overlay_allowlist_without_repository_list_at(repository@, overlay@);
    }
    let repository = effective_repository_defaults(repository);
    let ttl = match (repository.ttl, overlay.ttl) {
        (Some(a), Some(b)) => Some(
            if a <= b {
                a
            } else {
                b
            },
        ),
        (Some(a), None) => Some(a),
        (None, Some(b)) => Some(b),
        (None, None) => None,
    };
    let protected_branches = match (repository.protected_branches, overlay.protected_branches) {
        (Some(a), Some(b)) => Some(union_vec(a, &b)),
        (Some(a), None) => Some(a),
        (None, Some(b)) => Some(b),
        (None, None) => None,
    };
    let allowed_network_domains = match (
        repository.allowed_network_domains,
        overlay.allowed_network_domains,
    ) {
        (Some(a), Some(b)) => Some(intersect_vec(a, &b)),
        (Some(a), None) => Some(a),
        (None, Some(b)) => Some(b),
        (None, None) => None,
    };
    ApprovalLayer {
        ttl,
        protected_branches,
        allowed_network_domains,
        no_cache_unknown_network: repository.no_cache_unknown_network
            || overlay.no_cache_unknown_network,
    }
}

/// The runtime settings of a resolved layer: unset protected branches fall
/// back to the defaults and an unset allowlist to none.
pub fn runtime_from_layer(layer: ApprovalLayer) -> (r: ApprovalProjectRuntimeConfig)
    ensures
        r.ttl == layer.ttl,
        string_views(r.cache_policy.protected_branches@) == match layer@.protected {
            Some(p) => p,
            None => default_branches(),
        },
        string_views(r.cache_policy.allowed_network_domains@) == match layer@.allowed {
            Some(a) => a,
            None => Seq::<Seq<char>>::empty(),
        },
        r.cache_policy.no_cache_unknown_network == layer.no_cache_unknown_network,
{
    let defaults = ApprovalCachePolicy::default();
    let protected_branches = match layer.protected_branches {
        Some(p) => p,
        None => defaults.protected_branches,
    };
    let allowed_network_domains = match layer.allowed_network_domains {
        Some(a) => a,
        None => {
            let empty: Vec<String> = Vec::new();
            assert(string_views(empty@) =~= Seq::<Seq<char>>::empty());
            empty
        },
    };
    ApprovalProjectRuntimeConfig {
        ttl: layer.ttl,
        cache_policy: ApprovalCachePolicy {
            protected_branches,
            allowed_network_domains,
            no_cache_unknown_network: layer.no_cache_unknown_network,
        },
    }
}

impl Default for ApprovalProjectRuntimeConfig {
    fn default() -> (r: Self)
        ensures
            r.ttl is None,
            string_views(r.cache_policy.protected_branches@) == default_branches(),
            r.cache_policy.allowed_network_domains@.len() == 0,
            !r.cache_policy.no_cache_unknown_network,
    {
        ApprovalProjectRuntimeConfig { ttl: None, cache_policy: ApprovalCachePolicy::default() }
    }
}

// ---------------------------------------------------------------------------
// Tighten-only
// ---------------------------------------------------------------------------
proof fn lemma_union_keeps(a: Seq<Seq<char>>, b: Seq<Seq<char>>)
    ensures
        forall|x: Seq<char>| a.contains(x) ==> #[trigger] union_views(a, b).contains(x),
        forall|x: Seq<char>| b.contains(x) ==> #[trigger] union_views(a, b).contains(x),
        forall|x: Seq<char>| #[trigger] union_views(a, b).contains(x) ==> a.contains(x) || b.contains(x),
    decreases b.len(),
{
    if b.len() > 0 {
        let pre = b.drop_last();
        lemma_union_keeps(a, pre);
        let u = union_views(a, pre);
        let t = union_views(a, b);
        // Everything in `u` stays in `t`.
        assert forall|x: Seq<char>| u.contains(x) implies t.contains(x) by {
            if !u.contains(b.last()) {
                let k = choose|k: int| 0 <= k < u.len() && u[k] == x;
                assert(u.push(b.last())[k] == x);
            }
        }
        assert(t.contains(b.last())) by {
            if !u.contains(b.last()) {
                assert(u.push(b.last())[u.len() as int] == b.last());
            }
        }
        assert forall|x: Seq<char>| a.contains(x) implies #[trigger] t.contains(x) by {
            assert(union_views(a, pre).contains(x));
        }
        assert forall|x: Seq<char>| b.contains(x) implies #[trigger] t.contains(x) by {
            let k = choose|k: int| 0 <= k < b.len() && b[k] == x;
            if k < b.len() - 1 {
                assert(pre[k] == x);
                assert(pre.contains(x));
                assert(union_views(a, pre).contains(x));
            }
        }
        assert forall|x: Seq<char>| #[trigger] t.contains(x) implies a.contains(x) || b.contains(x) by {
            if u.contains(x) {
                assert(union_views(a, pre).contains(x));
                if pre.contains(x) {
                    let k = choose|k: int| 0 <= k < pre.len() && pre[k] == x;
                    assert(b[k] == x);
                }
            } else {
                let k = choose|k: int| 0 <= k < t.len() && t[k] == x;
                assert(k == u.len());
                assert(b[b.len() - 1] == x);
            }
        }
    }
}

/// `n` lists entries of `a` in the order `a` lists them (a subsequence).
pub open spec fn in_order_within(n: Seq<Seq<char>>, a: Seq<Seq<char>>) -> bool {
    exists|idx: Seq<int>|
        #![trigger idx.len()]
        idx.len() == n.len() && (forall|i: int, j: int| 0 <= i < j < idx.len() ==> idx[i] < idx[j])
            && (forall|i: int| 0 <= i < idx.len() ==> 0 <= #[trigger] idx[i] < a.len() && a[idx[i]] == n[i])
}

proof fn lemma_filter_in_order(a: Seq<Seq<char>>, p: spec_fn(Seq<char>) -> bool)
    ensures
        in_order_within(a.filter(p), a),
    decreases a.len(),
{
    reveal(Seq::filter);
    if a.len() == 0 {
        let idx = Seq::<int>::empty();
        assert(idx.len() == a.filter(p).len());
    } else {
        let pre = a.drop_last();
        lemma_filter_in_order(pre, p);
        let n0 = pre.filter(p);
        let idx0 = choose|idx: Seq<int>|
            #![trigger idx.len()]
            idx.len() == n0.len() && (forall|i: int, j: int| 0 <= i < j < idx.len() ==> idx[i] < idx[j])
                && (forall|i: int| 0 <= i < idx.len() ==> 0 <= #[trigger] idx[i] < pre.len() && pre[idx[i]] == n0[i]);
        assert forall|i: int| 0 <= i < idx0.len() implies 0 <= #[trigger] idx0[i] < a.len() && a[idx0[i]] == n0[i] by {
            assert(a[idx0[i]] == pre[idx0[i]]);
        }
        if p(a.last()) {
            let idx = idx0.push(a.len() - 1);
            let n = n0.push(a.last());
            assert(a.filter(p) == n);
            assert(idx.len() == n.len());
            assert forall|i: int| 0 <= i < idx.len() implies 0 <= #[trigger] idx[i] < a.len() && a[idx[i]] == n[i] by {
                if i < idx0.len() {
                    assert(idx[i] == idx0[i]);
                }
            }
            assert forall|i: int, j: int| 0 <= i < j < idx.len() implies idx[i] < idx[j] by {
                if j < idx0.len() {
                    assert(idx[i] == idx0[i] && idx[j] == idx0[j]);
                } else {
                    assert(idx[i] == idx0[i]);
                }
            }
        } else {
            assert(a.filter(p) == n0);
            assert(idx0.len() == a.filter(p).len());
        }
    }
}

proof fn lemma_in_order_self(a: Seq<Seq<char>>)
    ensures
        in_order_within(a, a),
{
    let idx = Seq::new(a.len(), |i: int| i);
    assert(idx.len() == a.len());
}

proof fn law_overlay_allowlist_without_repository_list_at(repository: LayerView, overlay: LayerView)
    ensures
        repository.allowed is None && !repository.no_cache ==> merge_layers(repository, overlay).allowed
            == overlay.allowed,
        repository.allowed is None && repository.no_cache ==> merge_layers(repository, overlay).allowed
            == Some(Seq::<Seq<char>>::empty()),
{
    if repository.allowed is None {
        law_overlay_allowlist_without_repository_list(repository, overlay);
    }
}

/// Without a repository allowlist, the overlay's stands: when the
/// repository layer names no allowed hosts and does not refuse unknown
/// networks, the merged allowlist is the overlay's (or none); when it names
/// none but refuses unknown networks, the merged allowlist is empty.
pub proof fn law_overlay_allowlist_without_repository_list(repository: LayerView, overlay: LayerView)
    requires
        repository.allowed is None,
    ensures
        !repository.no_cache ==> merge_layers(repository, overlay).allowed == overlay.allowed,
        repository.no_cache ==> merge_layers(repository, overlay).allowed == Some(Seq::<Seq<char>>::empty()),
{
    if repository.no_cache {
        if let Some(b) = overlay.allowed {
            assert(Seq::<Seq<char>>::empty().filter(listed_in(b)) =~= Seq::<Seq<char>>::empty()) by {
                Seq::<Seq<char>>::empty().lemma_filter_len(listed_in(b));
            }
        }
    }
}

/// An overlay can only tighten the repository layer: the TTL never grows
/// past the repository's (defaulted) TTL or the overlay's own, no protected
/// branch of either layer is lost, no network host outside the repository's
/// (defaulted) allowlist or the overlay's allowlist becomes cacheable, the
/// merged allowlist keeps the repository's order, without an overlay list
/// the allowlist is the repository's (defaulted) one, and
/// `no_cache_unknown_network` set in either layer stays set.
pub proof fn law_overlay_only_tightens(repository: LayerView, overlay: LayerView)
    ensures
        ({
            let r = effective(repository);
            let m = merge_layers(repository, overlay);
            &&& m.ttl matches Some(t) && t <= r.ttl->0 && (overlay.ttl matches Some(o) ==> t <= o)
            &&& m.protected matches Some(p) && (forall|x: Seq<char>|
                r.protected->0.contains(x) ==> #[trigger] p.contains(x)) && (overlay.protected matches Some(
                o,
            ) ==> forall|x: Seq<char>| o.contains(x) ==> #[trigger] p.contains(x))
            &&& r.allowed matches Some(a) ==> (m.allowed matches Some(n) && (forall|x: Seq<char>|
                #[trigger] n.contains(x) ==> a.contains(x)) && in_order_within(n, a))
            &&& overlay.allowed is None ==> m.allowed == r.allowed
            &&& overlay.allowed matches Some(b) ==> (m.allowed matches Some(n) && forall|x: Seq<char>|
                #[trigger] n.contains(x) ==> b.contains(x))
            &&& m.no_cache == (repository.no_cache || overlay.no_cache)
        }),
{
    broadcast use vstd::seq_lib::group_filter_ensures;
    let r = effective(repository);
    match (r.protected, overlay.protected) {
        (Some(a), Some(b)) => {
            lemma_union_keeps(a, b);
        },
        _ => {},
    }
    match (r.allowed, overlay.allowed) {
        (Some(a), Some(b)) => {
            let n = a.filter(listed_in(b));
            assert forall|x: Seq<char>| #[trigger] n.contains(x) implies a.contains(x)
                && b.contains(x) by {
                a.lemma_filter_contains_rev(listed_in(b), x);
                let k = choose|k: int| 0 <= k < n.len() && n[k] == x;
                assert(listed_in(b)(n[k]));
            }
            lemma_filter_in_order(a, listed_in(b));
        },
        (Some(a), None) => {
            lemma_in_order_self(a);
        },
        _ => {},
    }
}

} // verus!
