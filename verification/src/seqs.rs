//! Order-preserving operations on owned vectors, stated over `Seq`.
use vstd::prelude::*;

verus! {

/// Keeps the elements that `keep` accepts, in order.
pub fn filter_vec<T>(v: Vec<T>, keep: impl Fn(&T) -> bool, Ghost(p): Ghost<spec_fn(T) -> bool>) -> (r:
    Vec<T>)
    requires
        forall|x: T| #[trigger] call_requires(keep, (&x,)),
        forall|x: T, b: bool| call_ensures(keep, (&x,), b) ==> b == p(x),
    ensures
        r@ == v@.filter(p),
{
    let ghost full = v@;
    let n = v.len();
    let mut r: Vec<T> = Vec::new();
    let mut src = v;
    let mut i: usize = 0;
    proof {
        reveal(Seq::filter);
    }
    assert(full.subrange(0, 0) =~= Seq::<T>::empty());
    while src.len() > 0
        invariant
            n == full.len(),
            i + src.len() == n,
            src@ == full.subrange(i as int, n as int),
            r@ == full.subrange(0, i as int).filter(p),
            forall|x: T| #[trigger] call_requires(keep, (&x,)),
            forall|x: T, b: bool| call_ensures(keep, (&x,), b) ==> b == p(x),
        decreases src.len(),
    {
        let e = src.remove(0);
        proof {
            reveal(Seq::filter);
        }
        assert(src@ =~= full.subrange(i + 1, n as int));
        let ghost sub = full.subrange(0, i + 1);
        assert(sub.drop_last() =~= full.subrange(0, i as int));
        assert(sub.last() == e);
        let k = keep(&e);
        if k {
            r.push(e);
        }
        i += 1;
    }
    assert(full.subrange(0, n as int) =~= full);
    r
}

/// Whether some element satisfies `p`.
pub open spec fn any<T>(s: Seq<T>, p: spec_fn(T) -> bool) -> bool {
    exists|k: int| 0 <= k < s.len() && p(#[trigger] s[k])
}

pub fn any_vec<T>(v: &Vec<T>, test: impl Fn(&T) -> bool, Ghost(p): Ghost<spec_fn(T) -> bool>) -> (r:
    bool)
    requires
        forall|x: T| #[trigger] call_requires(test, (&x,)),
        forall|x: T, b: bool| call_ensures(test, (&x,), b) ==> b == p(x),
    ensures
        r == any(v@, p),
{
    let mut i: usize = 0;
    while i < v.len()
        invariant
            i <= v.len(),
            forall|k: int| 0 <= k < i ==> !p(#[trigger] v@[k]),
            forall|x: T| #[trigger] call_requires(test, (&x,)),
            forall|x: T, b: bool| call_ensures(test, (&x,), b) ==> b == p(x),
        decreases v.len() - i,
    {
        if test(&v[i]) {
            return true;
        }
        i += 1;
    }
    false
}

/// Splits `v` into the elements `p` rejects and those it accepts, each in
/// order.
pub fn partition_vec<T>(v: Vec<T>, test: impl Fn(&T) -> bool, Ghost(p): Ghost<spec_fn(T) -> bool>) -> (r:
    (Vec<T>, Vec<T>))
    requires
        forall|x: T| #[trigger] call_requires(test, (&x,)),
        forall|x: T, b: bool| call_ensures(test, (&x,), b) ==> b == p(x),
    ensures
        r.0@ == v@.filter(not(p)),
        r.1@ == v@.filter(p),
{
    let ghost full = v@;
    let ghost q = not(p);
    let n = v.len();
    let mut kept: Vec<T> = Vec::new();
    let mut moved: Vec<T> = Vec::new();
    let mut src = v;
    let mut i: usize = 0;
    proof {
        reveal(Seq::filter);
    }
    assert(full.subrange(0, 0) =~= Seq::<T>::empty());
    while src.len() > 0
        invariant
            n == full.len(),
            i + src.len() == n,
            src@ == full.subrange(i as int, n as int),
            kept@ == full.subrange(0, i as int).filter(q),
            moved@ == full.subrange(0, i as int).filter(p),
            q == not(p),
            forall|x: T| #[trigger] call_requires(test, (&x,)),
            forall|x: T, b: bool| call_ensures(test, (&x,), b) ==> b == p(x),
        decreases src.len(),
    {
        let e = src.remove(0);
        proof {
            reveal(Seq::filter);
        }
        assert(src@ =~= full.subrange(i + 1, n as int));
        let ghost sub = full.subrange(0, i + 1);
        assert(sub.drop_last() =~= full.subrange(0, i as int));
        assert(sub.last() == e);
        if test(&e) {
            moved.push(e);
        } else {
            kept.push(e);
        }
        i += 1;
    }
    assert(full.subrange(0, n as int) =~= full);
    (kept, moved)
}

/// The complement of a predicate.
pub open spec fn not<T>(p: spec_fn(T) -> bool) -> spec_fn(T) -> bool {
    |x: T| !p(x)
}

pub open spec fn replace_if<T>(p: spec_fn(T) -> bool, e: T) -> spec_fn(T) -> T {
    |old: T|
        if p(old) {
            e
        } else {
            old
        }
}

/// Inserts `e`, or replaces in place the element that `p` selects.
pub open spec fn upsert<T>(s: Seq<T>, p: spec_fn(T) -> bool, e: T) -> Seq<T> {
    if any(s, p) {
        s.map_values(replace_if(p, e))
    } else {
        s.push(e)
    }
}

/// Replaces in place every element that `test` selects with `e`, or appends
/// `e` when none is selected.
pub fn upsert_vec<T>(
    v: Vec<T>,
    e: T,
    test: impl Fn(&T) -> bool,
    Ghost(p): Ghost<spec_fn(T) -> bool>,
    cp: impl Fn(&T) -> T,
) -> (r: Vec<T>)
    requires
        forall|x: T| #[trigger] call_requires(test, (&x,)),
        forall|x: T, b: bool| call_ensures(test, (&x,), b) ==> b == p(x),
        forall|x: T| #[trigger] call_requires(cp, (&x,)),
        forall|x: T, y: T| call_ensures(cp, (&x,), y) ==> y == x,
    ensures
        r@ == upsert(v@, p, e),
{
    let ghost full = v@;
    let ghost f = replace_if(p, e);
    let n = v.len();
    let mut r: Vec<T> = Vec::new();
    let mut src = v;
    let mut found = false;
    let mut i: usize = 0;
    while src.len() > 0
        invariant
            n == full.len(),
            i + src.len() == n,
            src@ == full.subrange(i as int, n as int),
            r@ == full.subrange(0, i as int).map_values(f),
            found == any(full.subrange(0, i as int), p),
            !found ==> r@ == full.subrange(0, i as int),
            f == replace_if(p, e),
            forall|x: T| #[trigger] call_requires(test, (&x,)),
            forall|x: T, b: bool| call_ensures(test, (&x,), b) ==> b == p(x),
            forall|x: T| #[trigger] call_requires(cp, (&x,)),
            forall|x: T, y: T| call_ensures(cp, (&x,), y) ==> y == x,
        decreases src.len(),
    {
        let x = src.remove(0);
        assert(src@ =~= full.subrange(i + 1, n as int));
        let ghost pre = full.subrange(0, i as int);
        let ghost sub = full.subrange(0, i + 1);
        assert(sub =~= pre.push(x));
        let hit = test(&x);
        if hit {
            found = true;
            r.push(cp(&e));
            assert(p(sub[i as int]));
        } else {
            r.push(x);
        }
        proof {
            if any(sub, p) && !any(pre, p) {
                let k = choose|k: int| 0 <= k < sub.len() && p(#[trigger] sub[k]);
                if k < i {
                    assert(p(pre[k]));
                }
            }
            if any(pre, p) {
                let k = choose|k: int| 0 <= k < pre.len() && p(#[trigger] pre[k]);
                assert(p(sub[k]));
            }
        }
        i += 1;
        assert(r@ =~= sub.map_values(f));
    }
    assert(full.subrange(0, n as int) =~= full);
    if !found {
        r.push(e);
    }
    r
}

/// `x` placed into `s` right after the longest prefix of values that `le`
/// puts before it.
pub open spec fn insert_sorted<T>(s: Seq<T>, x: T, le: spec_fn(T, T) -> bool) -> Seq<T>
    decreases s.len(),
{
    if s.len() == 0 {
        seq![x]
    } else if le(s[0], x) {
        seq![s[0]] + insert_sorted(s.drop_first(), x, le)
    } else {
        seq![x] + s
    }
}

/// `s` sorted by `le`, inserting each value in turn after those it does not
/// come before (a stable sort).
pub open spec fn insertion_sort<T>(s: Seq<T>, le: spec_fn(T, T) -> bool) -> Seq<T>
    decreases s.len(),
{
    if s.len() == 0 {
        Seq::empty()
    } else {
        insert_sorted(insertion_sort(s.drop_last(), le), s.last(), le)
    }
}

/// Inserting into a sequence at the first position whose value `le` does
/// not put before `x` is `insert_sorted`.
pub proof fn lemma_insert_at<T>(s: Seq<T>, x: T, le: spec_fn(T, T) -> bool, p: int)
    requires
        0 <= p <= s.len(),
        forall|k: int| 0 <= k < p ==> le(#[trigger] s[k], x),
        p < s.len() ==> !le(s[p], x),
    ensures
        insert_sorted(s, x, le) == s.insert(p, x),
    decreases p,
{
    if p == 0 {
        if s.len() == 0 {
            assert(seq![x] =~= s.insert(0, x));
        } else {
            assert(seq![x] + s =~= s.insert(0, x));
        }
    } else {
        let t = s.drop_first();
        assert(le(s[0], x));
        assert forall|k: int| 0 <= k < p - 1 implies le(#[trigger] t[k], x) by {
            assert(t[k] == s[k + 1]);
        }
        if p - 1 < t.len() {
            assert(t[p - 1] == s[p]);
        }
        lemma_insert_at(t, x, le, p - 1);
        assert(seq![s[0]] + t.insert(p - 1, x) =~= s.insert(p, x));
    }
}

} // verus!
