//! Facts about sequences that several modules lean on: the first position satisfying a
//! condition, and filtering one element at a time.

use vstd::prelude::*;

verus! {

/// The first index below `n` at which `p` holds, or `None` when it holds nowhere below `n`.
pub open spec fn first_where(n: int, p: spec_fn(int) -> bool) -> Option<int> {
    if exists|i: int| 0 <= i < n && #[trigger] p(i) {
        Some(choose|i: int| 0 <= i < n && #[trigger] p(i) && forall|j: int| 0 <= j < i ==> !#[trigger] p(j))
    } else {
        None
    }
}

pub proof fn lemma_first_where_found(n: int, p: spec_fn(int) -> bool, i: int)
    requires
        0 <= i < n,
        p(i),
        forall|j: int| 0 <= j < i ==> !#[trigger] p(j),
    ensures
        first_where(n, p) == Some(i),
{
    assert(0 <= i < n && p(i) && forall|j: int| 0 <= j < i ==> !#[trigger] p(j));
    let c = choose|c: int| 0 <= c < n && #[trigger] p(c) && forall|j: int| 0 <= j < c ==> !#[trigger] p(j);
    if c < i {
        assert(!p(c));
    } else if c > i {
        assert(!p(i));
    }
}

pub proof fn lemma_first_where_none(n: int, p: spec_fn(int) -> bool)
    requires
        forall|j: int| 0 <= j < n ==> !#[trigger] p(j),
    ensures
        first_where(n, p) is None,
{
}

pub proof fn lemma_first_where_facts(n: int, p: spec_fn(int) -> bool)
    ensures
        match first_where(n, p) {
            Some(i) => 0 <= i < n && p(i) && forall|j: int| 0 <= j < i ==> !#[trigger] p(j),
            None => forall|j: int| 0 <= j < n ==> !#[trigger] p(j),
        },
{
    if exists|i: int| 0 <= i < n && #[trigger] p(i) {
        let w = choose|i: int| 0 <= i < n && #[trigger] p(i);
        lemma_least(n, p, w);
    }
}

proof fn lemma_least(n: int, p: spec_fn(int) -> bool, w: int)
    requires
        0 <= w < n,
        p(w),
    ensures
        exists|i: int| 0 <= i < n && #[trigger] p(i) && forall|j: int| 0 <= j < i ==> !#[trigger] p(j),
    decreases w,
{
    if exists|j: int| 0 <= j < w && #[trigger] p(j) {
        let v = choose|j: int| 0 <= j < w && #[trigger] p(j);
        lemma_least(n, p, v);
    } else {
        assert(0 <= w < n && p(w) && forall|j: int| 0 <= j < w ==> !#[trigger] p(j));
    }
}

/// Filtering a prefix one element longer.
pub proof fn lemma_filter_take<A>(s: Seq<A>, p: spec_fn(A) -> bool, i: int)
    requires
        0 <= i < s.len(),
    ensures
        s.take(i + 1).filter(p) == if p(s[i]) {
            s.take(i).filter(p).push(s[i])
        } else {
            s.take(i).filter(p)
        },
{
    reveal(Seq::filter);
    assert(s.take(i + 1).drop_last() == s.take(i));
}

/// Filtering the empty prefix.
pub proof fn lemma_filter_take_zero<A>(s: Seq<A>, p: spec_fn(A) -> bool)
    ensures
        s.take(0).filter(p) == Seq::<A>::empty(),
{
    reveal(Seq::filter);
    assert(s.take(0) == Seq::<A>::empty());
}

} // verus!
