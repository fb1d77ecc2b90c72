//! Counting cells of a grid that satisfy a predicate, with the lemmas the
//! board and session invariants need: bounds, the effect of updating one
//! cell, and counts of pointwise-disjoint predicates.

use vstd::prelude::*;

verus! {

/// 1 if `b` holds, else 0.
pub open spec fn b2i(b: bool) -> int {
    if b {
        1
    } else {
        0
    }
}

/// How many of the first `n` elements of `s` satisfy `f`.
pub open spec fn count_prefix<T>(s: Seq<T>, f: spec_fn(T) -> bool, n: int) -> int
    decreases n,
{
    if n <= 0 {
        0
    } else {
        count_prefix(s, f, n - 1) + b2i(f(s[n - 1]))
    }
}

/// How many elements of `s` satisfy `f`.
pub open spec fn count_matching<T>(s: Seq<T>, f: spec_fn(T) -> bool) -> int {
    count_prefix(s, f, s.len() as int)
}

pub proof fn lemma_count_prefix_bounds<T>(s: Seq<T>, f: spec_fn(T) -> bool, n: int)
    requires
        0 <= n,
    ensures
        0 <= count_prefix(s, f, n) <= n,
    decreases n,
{
    if n > 0 {
        lemma_count_prefix_bounds(s, f, n - 1);
    }
}

pub proof fn lemma_count_bounds<T>(s: Seq<T>, f: spec_fn(T) -> bool)
    ensures
        0 <= count_matching(s, f) <= s.len(),
{
    lemma_count_prefix_bounds(s, f, s.len() as int);
}

pub proof fn lemma_count_prefix_update<T>(s: Seq<T>, f: spec_fn(T) -> bool, n: int, i: int, v: T)
    requires
        0 <= i < s.len(),
        n <= s.len(),
    ensures
        count_prefix(s.update(i, v), f, n) == count_prefix(s, f, n) + if i < n {
            b2i(f(v)) - b2i(f(s[i]))
        } else {
            0
        },
    decreases n,
{
    if n > 0 {
        lemma_count_prefix_update(s, f, n - 1, i, v);
    }
}

/// Updating cell `i` changes the count by the difference the predicate sees.
pub proof fn lemma_count_update<T>(s: Seq<T>, f: spec_fn(T) -> bool, i: int, v: T)
    requires
        0 <= i < s.len(),
    ensures
        count_matching(s.update(i, v), f) == count_matching(s, f) + b2i(f(v)) - b2i(f(s[i])),
{
    lemma_count_prefix_update(s, f, s.len() as int, i, v);
}

/// If no element among the first `n` satisfies `f`, the count is zero.
pub proof fn lemma_count_prefix_zero<T>(s: Seq<T>, f: spec_fn(T) -> bool, n: int)
    requires
        forall|j: int| 0 <= j < n ==> !f(s[j]),
    ensures
        count_prefix(s, f, n) == 0,
    decreases n,
{
    if n > 0 {
        lemma_count_prefix_zero(s, f, n - 1);
    }
}

/// If every index satisfying `f` in `t` satisfies it in `s`, the count can
/// only shrink.
pub proof fn lemma_count_pointwise_le<T>(s: Seq<T>, t: Seq<T>, f: spec_fn(T) -> bool, n: int)
    requires
        forall|j: int| 0 <= j < n ==> (f(t[j]) ==> f(s[j])),
    ensures
        count_prefix(t, f, n) <= count_prefix(s, f, n),
    decreases n,
{
    if n > 0 {
        lemma_count_pointwise_le(s, t, f, n - 1);
    }
}

/// Counts of predicates that never hold of the same index sum to at most `n`.
pub proof fn lemma_disjoint_counts<T, U>(
    s: Seq<T>,
    t: Seq<U>,
    f: spec_fn(T) -> bool,
    g: spec_fn(U) -> bool,
    n: int,
)
    requires
        0 <= n,
        forall|j: int| 0 <= j < n ==> !(f(s[j]) && g(t[j])),
    ensures
        count_prefix(s, f, n) + count_prefix(t, g, n) <= n,
    decreases n,
{
    if n > 0 {
        lemma_disjoint_counts(s, t, f, g, n - 1);
    }
}

/// As `lemma_disjoint_counts`, but an index `k` that satisfies neither
/// predicate makes the bound strict.
pub proof fn lemma_disjoint_counts_strict<T, U>(
    s: Seq<T>,
    t: Seq<U>,
    f: spec_fn(T) -> bool,
    g: spec_fn(U) -> bool,
    n: int,
    k: int,
)
    requires
        0 <= k < n,
        forall|j: int| 0 <= j < n ==> !(f(s[j]) && g(t[j])),
        !f(s[k]),
        !g(t[k]),
    ensures
        count_prefix(s, f, n) + count_prefix(t, g, n) <= n - 1,
    decreases n,
{
    if k == n - 1 {
        lemma_disjoint_counts(s, t, f, g, n - 1);
    } else {
        lemma_disjoint_counts_strict(s, t, f, g, n - 1, k);
    }
}

} // verus!
