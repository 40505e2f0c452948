//! Counting the items of a sequence that satisfy a predicate.

use vstd::prelude::*;

verus! {

/// How many items of `s` satisfy `pred`.
pub open spec fn tally<T>(s: Seq<T>, pred: spec_fn(T) -> bool) -> nat
    decreases s.len(),
{
    if s.len() == 0 {
        0
    } else {
        tally(s.drop_last(), pred) + one_if(pred(s.last()))
    }
}

/// One for `true`, zero for `false`.
pub open spec fn one_if(b: bool) -> nat {
    if b {
        1
    } else {
        0
    }
}

/// Replacing one item changes the count by what the old item and the new one
/// contribute.
pub proof fn lemma_tally_update<T>(s: Seq<T>, pred: spec_fn(T) -> bool, i: int, v: T)
    requires
        0 <= i < s.len(),
    ensures
        tally(s.update(i, v), pred) + one_if(pred(s[i])) == tally(s, pred) + one_if(pred(v)),
    decreases s.len(),
{
    let t = s.update(i, v);
    if i == s.len() - 1 {
        assert(t.drop_last() =~= s.drop_last());
    } else {
        assert(t.drop_last() =~= s.drop_last().update(i, v));
        lemma_tally_update(s.drop_last(), pred, i, v);
    }
}

/// Two sequences whose items agree on a predicate, place by place, have the
/// same count.
pub proof fn lemma_tally_same<T>(s: Seq<T>, t: Seq<T>, pred: spec_fn(T) -> bool)
    requires
        s.len() == t.len(),
        forall|i: int| 0 <= i < s.len() ==> pred(s[i]) == pred(t[i]),
    ensures
        tally(s, pred) == tally(t, pred),
    decreases s.len(),
{
    if s.len() > 0 {
        lemma_tally_same(s.drop_last(), t.drop_last(), pred);
    }
}

/// Where every item that satisfies `p` satisfies `q`, `q` counts no fewer.
pub proof fn lemma_tally_implies<T>(
    s: Seq<T>,
    t: Seq<T>,
    p: spec_fn(T) -> bool,
    q: spec_fn(T) -> bool,
)
    requires
        s.len() == t.len(),
        forall|i: int| 0 <= i < s.len() ==> (p(s[i]) ==> q(t[i])),
    ensures
        tally(s, p) <= tally(t, q),
    decreases s.len(),
{
    if s.len() > 0 {
        lemma_tally_implies(s.drop_last(), t.drop_last(), p, q);
    }
}

/// The count is zero exactly when no item satisfies the predicate.
pub proof fn lemma_tally_zero<T>(s: Seq<T>, pred: spec_fn(T) -> bool)
    ensures
        tally(s, pred) == 0 <==> forall|i: int| 0 <= i < s.len() ==> !pred(#[trigger] s[i]),
    decreases s.len(),
{
    if s.len() > 0 {
        let d = s.drop_last();
        lemma_tally_zero(d, pred);
        if tally(s, pred) == 0 {
            assert forall|i: int| 0 <= i < s.len() implies !pred(#[trigger] s[i]) by {
                if i < d.len() {
                    assert(d[i] == s[i]);
                }
            }
        }
        if forall|i: int| 0 <= i < s.len() ==> !pred(#[trigger] s[i]) {
            assert forall|i: int| 0 <= i < d.len() implies !pred(#[trigger] d[i]) by {
                assert(d[i] == s[i]);
            }
            assert(!pred(s[s.len() - 1]));
        }
    }
}

/// Where each item satisfies exactly one of two predicates, their counts add
/// up to the length.
pub proof fn lemma_tally_split<T>(s: Seq<T>, p: spec_fn(T) -> bool, q: spec_fn(T) -> bool)
    requires
        forall|i: int| 0 <= i < s.len() ==> p(s[i]) != q(s[i]),
    ensures
        tally(s, p) + tally(s, q) == s.len(),
    decreases s.len(),
{
    if s.len() > 0 {
        lemma_tally_split(s.drop_last(), p, q);
    }
}

} // verus!
